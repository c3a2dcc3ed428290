//! The one Toolchain for every Quartus Product: what it decides before it
//! installs, runs or flashes anything.

use vstd::prelude::*;

use crate::error::ChipsmithError;
use crate::path::path_join;
use crate::product::{is_first_version, KnownVersion, QuartusProduct};
use crate::runner::{flash_args, flash_args_spec};
use crate::text::{opt_view, owned, views};

verus! {

pub struct QuartusToolchain {
    product: QuartusProduct,
}

impl QuartusToolchain {
    pub closed spec fn product_spec(&self) -> QuartusProduct {
        self.product
    }

    pub fn new(product: QuartusProduct) -> (res: Self)
        ensures
            res.product_spec() == product,
    {
        QuartusToolchain { product }
    }

    pub fn product(&self) -> (res: &QuartusProduct)
        ensures
            *res == self.product_spec(),
    {
        &self.product
    }

    /// The Backend name this Toolchain answers to.
    pub fn name(&self) -> (res: &str)
        ensures
            res@ == self.product_spec().backend@,
    {
        self.product.backend.as_str()
    }

    /// Where a Version installs under `home`, or why the Version is unknown.
    pub fn install_dir_in(&self, home: &str, version: &str) -> (res: Result<String, ChipsmithError>)
        ensures
            match res {
                Ok(d) => exists|i: int|
                    is_first_version(self.product_spec().versions@, version@, i) && d@ == path_join(
                        path_join(home@, self.product_spec().install_root@),
                        #[trigger] self.product_spec().versions@[i].install_subdir@,
                    ),
                Err(e) => e matches ChipsmithError::UnknownVersion { version: v, .. } && v@
                    == version@,
            },
    {
        match self.product.lookup(version) {
            Ok(v) => Ok(self.product.install_dir_in(home, v)),
            Err(e) => Err(e),
        }
    }
}

/// What flashing a Bitstream asks of `quartus_pgm`, given whether the
/// Bitstream exists: a missing one is reported rather than handed to the tool.
pub fn flash_request(sof: &str, sof_exists: bool, cable: Option<&str>) -> (res: Result<
    Vec<String>,
    ChipsmithError,
>)
    ensures
        match res {
            Ok(args) => sof_exists && views(args@) == flash_args_spec(
                sof@,
                match cable {
                    Some(c) => Some(c@),
                    None => None,
                },
            ),
            Err(e) => {
                &&& !sof_exists
                &&& e matches ChipsmithError::OutputNotFound { path }
                &&& path@ == sof@
            },
        },
{
    if !sof_exists {
        return Err(ChipsmithError::OutputNotFound { path: owned(sof) });
    }
    Ok(flash_args(sof, cable))
}

} // verus!
