//! Reading `quartus_sta`'s Timing Summary.
//!
//! A summary is a run of `Label : value` lines; a `Type` line names a Timing
//! Corner and the `Slack` line after it gives its Slack. This module finds the
//! corners and the text of their Slack. Reading that text as a number is
//! floating point, which is left to the caller: a Slack that is not a number
//! (`N/A` on a fully unconstrained path) is skipped there.

use vstd::prelude::*;

use crate::text::{lines, lines_of, split_once, split_once_exec, str_eq, trim, trim_str};

verus! {

/// A Timing Corner as the report states it: its kind and its Slack, as text.
#[derive(Debug, Clone)]
pub struct StaCorner {
    pub kind: String,
    pub slack: String,
}

/// The corner kind waiting for its Slack line, and the corners found so far.
pub type StaState = (Option<Seq<char>>, Seq<(Seq<char>, Seq<char>)>);

/// One report line read into the state. A `Slack` line always consumes the
/// pending kind, whether or not a corner comes of it.
pub open spec fn sta_step(state: StaState, line: Seq<char>) -> StaState {
    match split_once(line, ':') {
        None => state,
        Some((label, value)) => {
            let l = trim(label);
            if l == "Type"@ {
                (Some(trim(value)), state.1)
            } else if l == "Slack"@ {
                match state.0 {
                    Some(kind) => (None, state.1.push((kind, trim(value)))),
                    None => (None, state.1),
                }
            } else {
                state
            }
        },
    }
}

/// The first `n` lines read in order.
pub open spec fn sta_fold(ls: Seq<Seq<char>>, n: int) -> StaState
    decreases n,
{
    if n <= 0 {
        (None, seq![])
    } else {
        sta_step(sta_fold(ls, n - 1), ls[n - 1])
    }
}

/// The corners of a report, each with the text of its Slack.
pub open spec fn sta_corners_spec(report: Seq<char>) -> Seq<(Seq<char>, Seq<char>)> {
    sta_fold(lines(report), lines(report).len() as int).1
}

pub open spec fn corner_view(c: StaCorner) -> (Seq<char>, Seq<char>) {
    (c.kind@, c.slack@)
}

/// Parse `quartus_sta`'s summary report into its corners. The Slack of each
/// is the trimmed text after `Slack :`.
pub fn sta_corners(report: &str) -> (res: Vec<StaCorner>)
    ensures
        res@.map_values(|c: StaCorner| corner_view(c)) == sta_corners_spec(report@),
{
    let ls = lines_of(report);
    let ghost lv = crate::text::views(ls@);
    let mut corners: Vec<StaCorner> = Vec::new();
    let mut kind: Option<String> = None;
    let mut i: usize = 0;
    assert(corners@.map_values(|c: StaCorner| corner_view(c)) =~= Seq::<
        (Seq<char>, Seq<char>),
    >::empty());
    while i < ls.len()
        invariant
            i <= ls@.len(),
            lv == crate::text::views(ls@),
            lv == lines(report@),
            sta_fold(lv, i as int) == (
                match kind {
                    Some(k) => Some(k@),
                    None => None::<Seq<char>>,
                },
                corners@.map_values(|c: StaCorner| corner_view(c)),
            ),
        decreases ls@.len() - i,
    {
        let line = &ls[i];
        assert(lv[i as int] == line@);
        match split_once_exec(line.as_str(), ':') {
            None => {},
            Some((label, value)) => {
                let l = trim_str(label.as_str());
                if str_eq(l.as_str(), "Type") {
                    kind = Some(trim_str(value.as_str()));
                } else if str_eq(l.as_str(), "Slack") {
                    let pending = kind;
                    kind = None;
                    match pending {
                        Some(k) => {
                            let ghost before = corners@.map_values(|c: StaCorner| corner_view(c));
                            let c = StaCorner { kind: k, slack: trim_str(value.as_str()) };
                            let ghost cv = corner_view(c);
                            corners.push(c);
                            assert(corners@.map_values(|c: StaCorner| corner_view(c)) =~= before.push(
                                cv,
                            ));
                        },
                        None => {},
                    }
                }
            },
        }
        i = i + 1;
    }
    corners
}

} // verus!
