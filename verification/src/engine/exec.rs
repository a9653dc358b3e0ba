//! Running system tools (parted, resize2fs, qemu, efibootmgr, …) safely:
//!
//!   1. **Dry-run by default.** A destructive command only runs in live mode;
//!      otherwise its exact command line is reported and a synthetic success
//!      returned, so the whole pipeline can be exercised without touching a
//!      disk.
//!   2. **Privilege elevation** through `pkexec` when not already root.
//!
//! Spawning the processes is the app layer's job; this module decides what
//! to spawn and words the errors.

use vstd::prelude::*;

use crate::strings::{
    chars_eq_str, chars_of, dec, join_spaces, join_with_spaces, lemma_views_push, lines, lines_of, push_char,
    push_decimal, push_str, starts_with, starts_with_exec, views, words, words_of,
};
use crate::engine::types::owned;

verus! {

/// A failure of the engine.
pub enum EngineError {
    Msg(String),
    /// A tool exited unsuccessfully.
    Cmd { cmd: String, code: i32, stderr: String },
    /// An I/O failure, by its message.
    Io(String),
}

/// The decimal rendering of a signed integer.
pub open spec fn dec_signed(n: int) -> Seq<char> {
    if n < 0 {
        seq!['-'] + dec((-n) as nat)
    } else {
        dec(n as nat)
    }
}

/// How an error reads.
pub open spec fn error_message(e: &EngineError) -> Seq<char> {
    match e {
        EngineError::Msg(m) => m@,
        EngineError::Cmd { cmd, code, stderr } => "command `"@ + cmd@ + "` failed ("@ + dec_signed(
            *code as int,
        ) + "): "@ + stderr@,
        EngineError::Io(m) => m@,
    }
}

impl EngineError {
    /// The error's message, as the frontend shows it.
    pub fn message(&self) -> (m: String)
        ensures
            m@ == error_message(self),
    {
        match self {
            EngineError::Msg(m) => owned(m.as_str()),
            EngineError::Cmd { cmd, code, stderr } => {
                let mut s = String::new();
                push_str(&mut s, "command `");
                push_str(&mut s, cmd.as_str());
                push_str(&mut s, "` failed (");
                push_signed(&mut s, *code);
                push_str(&mut s, "): ");
                push_str(&mut s, stderr.as_str());
                assert(s@ =~= error_message(self));
                s
            },
            EngineError::Io(m) => owned(m.as_str()),
        }
    }
}

/// Appends the decimal rendering of a signed integer.
pub fn push_signed(s: &mut String, n: i32)
    ensures
        final(s)@ == old(s)@ + dec_signed(n as int),
{
    let wide = n as i64;
    if wide < 0 {
        push_char(s, '-');
        push_decimal(s, (-wide) as u64);
        assert(final(s)@ =~= old(s)@ + dec_signed(n as int));
    } else {
        push_decimal(s, wide as u64);
    }
}

/// A tool and its arguments.
pub struct Command {
    pub program: String,
    pub args: Vec<String>,
}

/// The command line as logged: the program, a space, and the arguments
/// joined by spaces.
pub open spec fn command_line_of(program: Seq<char>, args: Seq<Seq<char>>) -> Seq<char> {
    program + seq![' '] + join_spaces(args)
}

impl Command {
    pub open spec fn line(&self) -> Seq<char> {
        command_line_of(self.program@, views(self.args@))
    }

    /// The command line, as the dry run reports it and errors quote it.
    pub fn command_line(&self) -> (l: String)
        ensures
            l@ == self.line(),
    {
        let mut s = owned(self.program.as_str());
        push_char(&mut s, ' ');
        let joined = join_with_spaces(&self.args);
        push_str(&mut s, joined.as_str());
        s
    }
}

/// What running a destructive command amounts to.
pub enum PrivRun {
    /// Not live: nothing runs; this is the reported output.
    Skip(String),
    /// Run this command.
    Exec(Command),
}

/// The dry-run report for a command line.
pub open spec fn dry_run_report(line: Seq<char>) -> Seq<char> {
    "DRY-RUN: "@ + line
}

/// Decides how a destructive command runs: in dry-run mode it is only
/// reported; live, it runs directly as root and through `pkexec` otherwise.
pub fn run_priv(cmd: &Command, live: bool, root: bool) -> (r: PrivRun)
    ensures
        !live ==> (r matches PrivRun::Skip(m) && m@ == dry_run_report(cmd.line())),
        live && root ==> (r matches PrivRun::Exec(c) && c.program@ == cmd.program@ && views(c.args@)
            == views(cmd.args@)),
        live && !root ==> (r matches PrivRun::Exec(c) && c.program@ == "pkexec"@ && views(c.args@)
            == seq![cmd.program@] + views(cmd.args@)),
{
    if !live {
        let line = cmd.command_line();
        let mut m = owned("DRY-RUN: ");
        push_str(&mut m, line.as_str());
        return PrivRun::Skip(m);
    }
    if root {
        PrivRun::Exec(Command { program: owned(cmd.program.as_str()), args: copy_strings(&cmd.args) })
    } else {
        let mut full: Vec<String> = Vec::new();
        let p = owned(cmd.program.as_str());
        full.push(p);
        proof {
            lemma_views_push(Seq::empty(), p);
            assert(Seq::<String>::empty().push(p) =~= full@);
            assert(views(Seq::<String>::empty()) =~= Seq::<Seq<char>>::empty());
        }
        let rest = copy_strings(&cmd.args);
        let mut i: usize = 0;
        while i < rest.len()
            invariant
                i <= rest.len(),
                views(rest@) == views(cmd.args@),
                views(full@) == seq![cmd.program@] + views(rest@).take(i as int),
            decreases rest.len() - i,
        {
            let ghost before = full@;
            let item = owned(rest[i].as_str());
            full.push(item);
            proof {
                lemma_views_push(before, item);
            }
            i = i + 1;
            assert(views(full@) =~= seq![cmd.program@] + views(rest@).take(i as int));
        }
        assert(views(rest@).take(rest.len() as int) =~= views(rest@));
        PrivRun::Exec(Command { program: owned("pkexec"), args: full })
    }
}

/// A copy of a list of strings.
pub fn copy_strings(v: &Vec<String>) -> (r: Vec<String>)
    ensures
        views(r@) == views(v@),
{
    let mut r: Vec<String> = Vec::new();
    let mut i: usize = 0;
    while i < v.len()
        invariant
            i <= v.len(),
            views(r@) == views(v@).take(i as int),
        decreases v.len() - i,
    {
        let ghost before = r@;
        let item = owned(v[i].as_str());
        r.push(item);
        proof {
            lemma_views_push(before, item);
        }
        i = i + 1;
        assert(views(r@) =~= views(v@).take(i as int));
    }
    assert(views(v@).take(v.len() as int) =~= views(v@));
    r
}

/// The index of the first line that starts with `p`, if any.
pub open spec fn first_prefixed(ls: Seq<Seq<char>>, p: Seq<char>) -> Option<int>
    decreases ls.len(),
{
    if ls.len() == 0 {
        None
    } else {
        match first_prefixed(ls.drop_last(), p) {
            Some(i) => Some(i),
            None => if starts_with(ls.last(), p) {
                Some(ls.len() - 1)
            } else {
                None
            },
        }
    }
}

/// Whether the text of `/proc/self/status` (none if it could not be read)
/// shows an effective user id of 0: the third word of the first `Uid:`
/// line is `0`.
pub open spec fn status_is_root(status: Option<Seq<char>>) -> bool {
    match status {
        None => false,
        Some(t) => match first_prefixed(lines(t), "Uid:"@) {
            None => false,
            Some(i) => {
                let ws = words(lines(t)[i]);
                ws.len() > 2 && ws[2] == "0"@
            },
        },
    }
}

/// Whether the process runs as root, from the text of `/proc/self/status`
/// (`None` when it could not be read).
pub fn is_root(status: Option<&str>) -> (r: bool)
    ensures
        r == status_is_root(
            match status {
                Some(t) => Some(t@),
                None => None,
            },
        ),
{
    let text = match status {
        None => {
            return false;
        },
        Some(t) => t,
    };
    let chars = chars_of(text);
    let ls = lines_of(&chars);
    let prefix = chars_of("Uid:");
    let mut i: usize = 0;
    while i < ls.len()
        invariant
            i <= ls@.len(),
            status == Some(text),
            chars@ == text@,
            prefix@ == "Uid:"@,
            ls@.len() == lines(chars@).len(),
            forall|k: int| 0 <= k < ls@.len() ==> (#[trigger] ls@[k])@ == lines(chars@)[k],
            first_prefixed(lines(chars@).take(i as int), "Uid:"@) is None,
        decreases ls@.len() - i,
    {
        let ghost all = lines(chars@);
        proof {
            assert(all.take(i + 1).drop_last() =~= all.take(i as int));
            assert(all.take(i + 1).last() == all[i as int]);
        }
        if starts_with_exec(&ls[i], &prefix) {
            proof {
                lemma_first_prefixed_extends(all, "Uid:"@, i as int);
            }
            let line = &ls[i];
            let ws = words_of(line);
            if ws.len() > 2 {
                let r = chars_eq_str(&ws[2], "0");
                return r;
            }
            return false;
        }
        i = i + 1;
    }
    proof {
        assert(lines(chars@).take(i as int) =~= lines(chars@));
    }
    false
}

/// Where no line before `i` starts with `p` and line `i` does, line `i` is
/// the first such line of the whole list.
proof fn lemma_first_prefixed_extends(ls: Seq<Seq<char>>, p: Seq<char>, i: int)
    requires
        0 <= i < ls.len(),
        first_prefixed(ls.take(i), p) is None,
        starts_with(ls[i], p),
    ensures
        first_prefixed(ls, p) == Some(i),
    decreases ls.len(),
{
    if ls.len() - 1 > i {
        assert(ls.drop_last().take(i) =~= ls.take(i));
        lemma_first_prefixed_extends(ls.drop_last(), p, i);
    } else {
        assert(ls.drop_last() =~= ls.take(i));
    }
}

} // verus!
