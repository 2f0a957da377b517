//! The state of a circuit-simulator session and the outcome of each kind of
//! call into the simulator's shared library.
//!
//! The simulator reports every line it prints through a callback; the
//! session keeps those lines until they are drained. Each call into the
//! library returns a status code, from which the functions here decide the
//! result that the session reports.

use vstd::prelude::*;

use crate::text::has_char;

verus! {

/// Why a call into the simulator failed.
#[derive(Debug, Clone, PartialEq, Eq)]
pub enum FfiError {
    /// Initialisation returned this non-zero status.
    InitFailed(i32),
    /// The command returned this non-zero status.
    CommandFailed(String, i32),
    /// The vector is unknown to the simulator, or holds no real data.
    VectorUnavailable(String),
    /// The text holds a NUL character, so it cannot be handed to the library.
    NulInCommand(String),
}

/// A live simulator session: the lines the simulator printed since they
/// were last drained, oldest first.
#[derive(Debug)]
pub struct NgspiceSession {
    output: Vec<String>,
}

impl View for NgspiceSession {
    type V = Seq<String>;

    closed spec fn view(&self) -> Seq<String> {
        self.output@
    }
}

impl NgspiceSession {
    /// A session that has captured nothing yet.
    pub fn new() -> (s: Self)
        ensures
            s@ == Seq::<String>::empty(),
    {
        NgspiceSession { output: Vec::new() }
    }

    /// Records one line printed by the simulator.
    pub fn capture_output(&mut self, line: String)
        ensures
            final(self)@ == old(self)@.push(line),
    {
        self.output.push(line);
    }

    /// Takes everything captured so far, oldest first, and leaves the
    /// session with nothing captured.
    pub fn drain_output(&mut self) -> (lines: Vec<String>)
        ensures
            lines@ == old(self)@,
            final(self)@ == Seq::<String>::empty(),
    {
        let mut lines: Vec<String> = Vec::new();
        std::mem::swap(&mut lines, &mut self.output);
        lines
    }

    /// The outcome of initialising the simulator, from the status that
    /// initialisation returned: success exactly when it is zero.
    pub fn init_result(status: i32) -> (r: Result<(), FfiError>)
        ensures
            r is Ok <==> status == 0,
            r matches Err(e) ==> e == FfiError::InitFailed(status),
    {
        if status != 0 {
            Err(FfiError::InitFailed(status))
        } else {
            Ok(())
        }
    }

    /// Whether `text` (a command or a vector name) can be handed to the
    /// library: it fails exactly when `text` holds a NUL character.
    pub fn check_text(text: &str) -> (r: Result<(), FfiError>)
        ensures
            r is Ok <==> !text@.contains('\0'),
            r matches Err(e) ==> e matches FfiError::NulInCommand(t) && t@ == text@,
    {
        if has_char(text, '\0') {
            Err(FfiError::NulInCommand(text.to_owned()))
        } else {
            Ok(())
        }
    }

    /// The outcome of running `cmd`, from the status the library returned:
    /// success exactly when it is zero.
    pub fn command_result(cmd: &str, status: i32) -> (r: Result<(), FfiError>)
        ensures
            r is Ok <==> status == 0,
            r matches Err(e) ==> e matches FfiError::CommandFailed(c, s) && c@ == cmd@ && s
                == status,
    {
        if status != 0 {
            Err(FfiError::CommandFailed(cmd.to_owned(), status))
        } else {
            Ok(())
        }
    }

    /// Whether the first real value of vector `vecname` can be read, from
    /// what the library reported of it: whether the vector was found,
    /// whether it has real data, and its length.
    pub fn vector_result(vecname: &str, found: bool, has_real_data: bool, length: i32) -> (r:
        Result<(), FfiError>)
        ensures
            r is Ok <==> found && has_real_data && length != 0,
            r matches Err(e) ==> e matches FfiError::VectorUnavailable(n) && n@ == vecname@,
    {
        if !found || !has_real_data || length == 0 {
            Err(FfiError::VectorUnavailable(vecname.to_owned()))
        } else {
            Ok(())
        }
    }
}

/// What a session holds after `capture_output` is called with each of
/// `lines` in turn, starting from `start`.
pub open spec fn after_captures(start: Seq<String>, lines: Seq<String>) -> Seq<String>
    decreases lines.len(),
{
    if lines.len() == 0 {
        start
    } else {
        after_captures(start, lines.drop_last()).push(lines.last())
    }
}

/// Lines captured one after the other are appended in order; in particular,
/// a drain that follows a drain and the capture of `lines` returns exactly
/// `lines` (nothing when no line was captured).
pub proof fn lemma_drain_after_captures(start: Seq<String>, lines: Seq<String>)
    ensures
        after_captures(start, lines) == start + lines,
        after_captures(Seq::empty(), lines) == lines,
    decreases lines.len(),
{
    if lines.len() > 0 {
        lemma_drain_after_captures(start, lines.drop_last());
        lemma_drain_after_captures(Seq::empty(), lines.drop_last());
        assert(start + lines =~= (start + lines.drop_last()).push(lines.last()));
        assert(lines =~= lines.drop_last().push(lines.last()));
    } else {
        assert(start + lines =~= start);
    }
}

/// The command that loads the deck at `path` into the simulator.
pub fn source_command(path: &str) -> (cmd: String)
    ensures
        cmd@ == "source "@ + path@,
{
    let mut cmd = String::from_str("source ");
    cmd.append(path);
    cmd
}

} // verus!
