//! The embedded terminal: how each chunk the shell writes is framed for the
//! view, what the reader loop does with each read, how the `which`/`where`
//! answer is read, and which shell is started when Git Bash is not found.
//! Spawning the pseudo-terminal and the job object stay in the application.
use vstd::prelude::*;
use base64::Engine;
use crate::text::{from_chars, lines, lines_of, string_of, to_chars, trim, trim_chars};

verus! {

/// Size of the buffer the reader loop fills from the pseudo-terminal.
pub const READ_CHUNK: usize = 4096;

/// How many directories above `git`'s own the search for `bin/bash.exe`
/// climbs.
pub const BASH_SEARCH_DEPTH: usize = 4;

/// The standard base64 text (standard alphabet, `=` padding) of `bytes`.
pub uninterp spec fn base64_standard_encode(bytes: Seq<u8>) -> Seq<char>;

/// Four characters for each started group of three bytes, as padded
/// base64 has.
pub open spec fn padded_base64_len(n: nat) -> nat {
    4 * ((n + 2) / 3)
}

/// Calls `base64::Engine::encode` on `base64::engine::general_purpose::STANDARD`.
/// Claimed: the text depends on the bytes alone (named
/// `base64_standard_encode`) and has the padded length that `encoded_len`
/// computes. The bound keeps that length from overflowing, where the crate
/// would panic.
#[verifier::external_body]
fn standard_base64(bytes: &[u8]) -> (r: String)
    requires
        bytes@.len() <= usize::MAX / 2,
    ensures
        r@ == base64_standard_encode(bytes@),
        r@.len() == padded_base64_len(bytes@.len()),
{
    base64::engine::general_purpose::STANDARD.encode(bytes)
}

/// The payload of one `pty-output` event: the chunk in standard base64.
pub fn encode_output_chunk(chunk: &[u8]) -> (r: String)
    requires
        chunk@.len() <= usize::MAX / 2,
    ensures
        r@ == base64_standard_encode(chunk@),
        r@.len() == padded_base64_len(chunk@.len()),
{
    standard_base64(chunk)
}

/// What one read from the pseudo-terminal gave.
pub enum ReadOutcome {
    /// The shell closed its side.
    Eof,
    /// Some bytes (at most a buffer's worth).
    Data(Vec<u8>),
    /// The read failed.
    Failed,
}

/// What the reader loop does next.
pub enum ReaderAction {
    /// Send this `pty-output` payload, then read again (unless sending fails).
    Emit(String),
    /// Leave the loop and send `pty-closed`.
    Close,
}

/// One turn of the reader loop: data is forwarded in base64; end of input
/// and read errors end the session.
pub fn reader_step(outcome: ReadOutcome) -> (a: ReaderAction)
    requires
        outcome matches ReadOutcome::Data(b) ==> b@.len() <= usize::MAX / 2,
    ensures
        match outcome {
            ReadOutcome::Data(b) => b@.len() > 0 && (a matches ReaderAction::Emit(s) && s@
                == base64_standard_encode(b@)) || b@.len() == 0 && a is Close,
            _ => a is Close,
        },
{
    match outcome {
        ReadOutcome::Data(b) => {
            if b.len() == 0 {
                ReaderAction::Close
            } else {
                ReaderAction::Emit(encode_output_chunk(b.as_slice()))
            }
        },
        _ => ReaderAction::Close,
    }
}

/// The first line of `which git` / `where git`, trimmed; `None` when it is
/// empty (git is not on the path).
pub open spec fn git_location(stdout: Seq<char>) -> Option<Seq<char>> {
    let ls = lines(stdout);
    let first = if ls.len() > 0 {
        trim(ls[0])
    } else {
        Seq::empty()
    };
    if first.len() == 0 {
        None
    } else {
        Some(first)
    }
}

/// Reads where git lives from the output of `which git` / `where git`.
pub fn git_location_of(stdout: &str) -> (r: Option<String>)
    ensures
        r matches Some(p) ==> git_location(stdout@) == Some(p@),
        r is None ==> git_location(stdout@) is None,
{
    let ls = lines_of(&to_chars(stdout));
    if ls.len() == 0 {
        return None;
    }
    assert(ls@[0]@ == lines(stdout@)[0]);
    let first = trim_chars(&ls[0]);
    if first.len() == 0 {
        None
    } else {
        Some(from_chars(&first))
    }
}

/// The shell started when no Git Bash is found: PowerShell on Windows,
/// elsewhere `$SHELL`, or `/bin/bash` when that is unset.
pub fn fallback_shell(windows: bool, shell_var: Option<String>) -> (r: String)
    ensures
        windows ==> r@ == "powershell.exe"@,
        !windows ==> r@ == match shell_var {
            Some(s) => s@,
            None => "/bin/bash"@,
        },
{
    if windows {
        string_of("powershell.exe")
    } else {
        match shell_var {
            Some(s) => s,
            None => string_of("/bin/bash"),
        }
    }
}

/// Writing to or resizing the terminal needs a running session.
pub fn require_session(active: bool) -> (r: Result<(), String>)
    ensures
        active ==> r is Ok,
        !active ==> (r matches Err(e) && e@ == "No hay una terminal activa"@),
{
    if active {
        Ok(())
    } else {
        Err(string_of("No hay una terminal activa"))
    }
}

} // verus!
