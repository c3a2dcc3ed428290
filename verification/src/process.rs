//! The description of a process to run and of what became of it.
//!
//! Spawning lives outside this crate, behind the caller's host; what to spawn,
//! how to wrap it, and how to read back its exit status is decided here.

use vstd::prelude::*;

use crate::text::{join, join_strings, views};

verus! {

/// What to do with a child's output.
#[derive(Debug, Clone, Copy, PartialEq, Eq, Structural)]
pub enum Capture {
    /// Straight to the user's terminal. Nothing is available afterwards.
    Inherit,
    /// Collected and returned; nothing reaches the terminal.
    Piped,
    /// Discarded.
    Null,
    /// stderr goes to the terminal *and* its tail is kept, so a tool that runs
    /// for ten minutes still shows progress live but can explain itself if it
    /// fails. stdout is inherited.
    Tee,
}

/// A process to run.
#[derive(Debug, Clone)]
pub struct ProcessSpec {
    pub program: String,
    pub args: Vec<String>,
    pub env: Vec<(String, String)>,
    pub working_dir: Option<String>,
    pub capture: Capture,
}

/// The program followed by its arguments.
pub open spec fn argv(spec: ProcessSpec) -> Seq<Seq<char>> {
    seq![spec.program@] + views(spec.args@)
}

/// The command as a human would write it.
pub open spec fn command_line_spec(spec: ProcessSpec) -> Seq<char> {
    join(argv(spec), " "@)
}

fn extend(dst: &mut Vec<String>, src: &Vec<String>)
    ensures
        views(final(dst)@) == views(old(dst)@) + views(src@),
{
    let ghost start = dst@;
    let mut i: usize = 0;
    while i < src.len()
        invariant
            i <= src@.len(),
            views(dst@) == views(start) + views(src@).subrange(0, i as int),
        decreases src@.len() - i,
    {
        let ghost before = dst@;
        dst.push(src[i].clone());
        assert(views(dst@) =~= views(before).push(src@[i as int]@));
        i = i + 1;
        assert(views(dst@) =~= views(start) + views(src@).subrange(0, i as int));
    }
    assert(views(src@).subrange(0, i as int) =~= views(src@));
}

impl ProcessSpec {
    pub fn new(program: String) -> (res: Self)
        ensures
            res.program@ == program@,
            res.args@.len() == 0,
            res.env@.len() == 0,
            res.working_dir is None,
            res.capture == Capture::Inherit,
    {
        ProcessSpec {
            program,
            args: Vec::new(),
            env: Vec::new(),
            working_dir: None,
            capture: Capture::Inherit,
        }
    }

    pub fn arg(self, arg: String) -> (res: Self)
        ensures
            res.program == self.program,
            views(res.args@) == views(self.args@).push(arg@),
            res.env == self.env,
            res.working_dir == self.working_dir,
            res.capture == self.capture,
    {
        let mut s = self;
        let ghost before = s.args@;
        s.args.push(arg);
        assert(views(s.args@) =~= views(before).push(arg@));
        s
    }

    pub fn args(self, args: Vec<String>) -> (res: Self)
        ensures
            res.program == self.program,
            views(res.args@) == views(self.args@) + views(args@),
            res.env == self.env,
            res.working_dir == self.working_dir,
            res.capture == self.capture,
    {
        let mut s = self;
        extend(&mut s.args, &args);
        s
    }

    pub fn env(self, key: String, value: String) -> (res: Self)
        ensures
            res.program == self.program,
            res.args == self.args,
            res.env@ == self.env@.push((key, value)),
            res.working_dir == self.working_dir,
            res.capture == self.capture,
    {
        let mut s = self;
        s.env.push((key, value));
        s
    }

    pub fn current_dir(self, dir: String) -> (res: Self)
        ensures
            res.program == self.program,
            res.args == self.args,
            res.env == self.env,
            res.working_dir == Some(dir),
            res.capture == self.capture,
    {
        let mut s = self;
        s.working_dir = Some(dir);
        s
    }

    pub fn capture(self, capture: Capture) -> (res: Self)
        ensures
            res.program == self.program,
            res.args == self.args,
            res.env == self.env,
            res.working_dir == self.working_dir,
            res.capture == capture,
    {
        let mut s = self;
        s.capture = capture;
        s
    }

    /// Run `program` under a wrapper — the wrapper's argv, then this program
    /// and its arguments. Used to put a sandbox in front of a vendor binary.
    pub fn wrapped_in(self, wrapper: Vec<String>) -> (res: Self)
        requires
            wrapper@.len() > 0,
        ensures
            argv(res) == views(wrapper@) + argv(self),
            res.env == self.env,
            res.working_dir == self.working_dir,
            res.capture == self.capture,
    {
        let ghost old_argv = argv(self);
        let ghost w = views(wrapper@);
        let mut wrapper = wrapper;
        let program = wrapper.remove(0);
        let mut args = wrapper;
        args.push(self.program);
        extend(&mut args, &self.args);
        let res = ProcessSpec {
            program,
            args,
            env: self.env,
            working_dir: self.working_dir,
            capture: self.capture,
        };
        assert(argv(res) =~= w + old_argv);
        res
    }

    /// The command as a human would write it, for error messages.
    pub fn command_line(&self) -> (res: String)
        ensures
            res@ == command_line_spec(*self),
    {
        let mut all: Vec<String> = Vec::new();
        all.push(self.program.clone());
        extend(&mut all, &self.args);
        assert(views(all@) =~= argv(*self));
        join_strings(&all, " ")
    }
}

#[derive(Debug, Clone)]
pub struct ProcessOutcome {
    pub code: Option<i32>,
    pub stdout: Vec<u8>,
    /// The last lines of stderr, when the spec asked for them.
    pub stderr_tail: Option<String>,
}

impl Default for ProcessOutcome {
    fn default() -> (res: Self)
        ensures
            res.code is None,
            res.stdout@.len() == 0,
            res.stderr_tail is None,
    {
        ProcessOutcome { code: None, stdout: Vec::new(), stderr_tail: None }
    }
}

impl ProcessOutcome {
    /// A zero exit status; a process killed by a signal has none.
    pub fn success(&self) -> (res: bool)
        ensures
            res == (self.code == Some(0i32)),
    {
        match self.code {
            Some(c) => c == 0,
            None => false,
        }
    }
}

/// The host chipsmith really runs on. The spawning is done outside this
/// crate; what it keeps of a tool's stderr is decided by `keep_tail` and
/// `tail_text`.
pub struct RealHost;

/// Joining two non-empty lists is joining each and putting the separator
/// between them.
pub proof fn lemma_join_append(a: Seq<Seq<char>>, b: Seq<Seq<char>>, sep: Seq<char>)
    requires
        a.len() > 0,
        b.len() > 0,
    ensures
        join(a + b, sep) == join(a, sep) + sep + join(b, sep),
    decreases b.len(),
{
    if b.len() == 1 {
        assert((a + b).drop_last() =~= a);
    } else {
        assert((a + b).drop_last() =~= a + b.drop_last());
        lemma_join_append(a, b.drop_last(), sep);
    }
}

/// A wrapped process reads, as a command line, as the wrapper's words
/// followed by the command it wraps: the program and its arguments stay in
/// order after the wrapper.
pub proof fn law_wrapping_prefixes_the_command_line(spec: ProcessSpec, wrapper: Seq<Seq<char>>)
    requires
        wrapper.len() > 0,
    ensures
        join(wrapper + argv(spec), " "@) == join(wrapper, " "@) + " "@ + command_line_spec(spec),
{
    lemma_join_append(wrapper, argv(spec), " "@);
}

/// How many lines of stderr to keep for an error message.
pub const TAIL_LINES: usize = 20;

/// The last `TAIL_LINES` of a sequence of lines.
pub open spec fn last_lines(lines: Seq<Seq<char>>) -> Seq<Seq<char>> {
    if lines.len() <= TAIL_LINES {
        lines
    } else {
        lines.subrange(lines.len() - TAIL_LINES, lines.len() as int)
    }
}

/// Record one more line of stderr, dropping the oldest once the tail is full.
pub fn keep_tail(tail: &mut Vec<String>, line: String)
    requires
        old(tail)@.len() <= TAIL_LINES,
    ensures
        final(tail)@.len() <= TAIL_LINES,
        views(final(tail)@) == if old(tail)@.len() == TAIL_LINES {
            views(old(tail)@).drop_first().push(line@)
        } else {
            views(old(tail)@).push(line@)
        },
{
    let ghost before = views(tail@);
    if tail.len() == TAIL_LINES {
        tail.remove(0);
    }
    tail.push(line);
    assert(views(tail@) =~= if before.len() == TAIL_LINES {
        before.drop_first().push(line@)
    } else {
        before.push(line@)
    });
}

/// Keeping lines one at a time with `keep_tail` leaves exactly the last
/// `TAIL_LINES` of everything seen.
pub proof fn law_kept_tail_is_the_last_lines(seen: Seq<Seq<char>>, line: Seq<char>)
    ensures
        (if last_lines(seen).len() == TAIL_LINES {
            last_lines(seen).drop_first().push(line)
        } else {
            last_lines(seen).push(line)
        }) == last_lines(seen.push(line)),
{
    let s2 = seen.push(line);
    if seen.len() < TAIL_LINES {
        assert(last_lines(seen).push(line) =~= last_lines(s2));
    } else {
        assert(last_lines(seen).drop_first().push(line) =~= last_lines(s2));
    }
}

/// What `keep_tail`, called once per line from an empty tail, leaves.
pub open spec fn kept_tail(lines: Seq<Seq<char>>) -> Seq<Seq<char>>
    decreases lines.len(),
{
    if lines.len() == 0 {
        seq![]
    } else {
        let t = kept_tail(lines.drop_last());
        if t.len() == TAIL_LINES {
            t.drop_first().push(lines.last())
        } else {
            t.push(lines.last())
        }
    }
}

/// However many lines a process writes to stderr, keeping them one by one
/// with `keep_tail` leaves exactly the last `TAIL_LINES` of them, in order.
pub proof fn law_a_whole_stream_keeps_its_last_lines(lines: Seq<Seq<char>>)
    ensures
        kept_tail(lines) == last_lines(lines),
    decreases lines.len(),
{
    if lines.len() > 0 {
        let init = lines.drop_last();
        law_a_whole_stream_keeps_its_last_lines(init);
        law_kept_tail_is_the_last_lines(init, lines.last());
        assert(init.push(lines.last()) =~= lines);
    } else {
        assert(last_lines(lines) =~= lines);
    }
}

/// What a kept tail says: nothing when no line was seen.
pub fn tail_text(tail: &Vec<String>) -> (res: Option<String>)
    ensures
        match res {
            Some(t) => tail@.len() > 0 && t@ == join(views(tail@), "\n"@),
            None => tail@.len() == 0,
        },
{
    if tail.len() == 0 {
        None
    } else {
        Some(join_strings(tail, "\n"))
    }
}

} // verus!
