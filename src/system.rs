//! The narrow interface through which the library reaches the operating system.

use crate::error::Error;
use vstd::prelude::*;
use vstd::utf8::{decode_utf8, valid_utf8};

verus! {

/// What a finished query process reported.
pub struct CommandOutput {
    /// Whether it exited with status zero.
    pub success: bool,
    pub stdout: Vec<u8>,
}

/// Probing paths, reading files and running programs, as the host provides them.
pub trait SystemQuery {
    /// Whether something exists at `path`.
    fn path_exists(&self, path: &str) -> bool;

    /// The text of the file at `path`.
    fn read_text(&self, path: &str) -> std::result::Result<String, std::io::Error>;

    /// Runs `program` with `args` to completion; `Err` with a message when it
    /// could not be started at all.
    fn run(&self, program: &str, args: &Vec<String>) -> std::result::Result<CommandOutput, String>;
}

/// Relies on `String::from_utf8`: `Ok` exactly when the bytes are valid UTF-8,
/// holding the characters they encode.
#[verifier::external_body]
pub(crate) fn decode_bytes(bytes: Vec<u8>) -> (r: std::result::Result<String, std::string::FromUtf8Error>)
    ensures
        r is Ok <==> valid_utf8(bytes@),
        r matches Ok(s) ==> s@ == decode_utf8(bytes@),
{
    String::from_utf8(bytes)
}

/// Relies on `writeln!` on a `std::io::Write` sink: writes `line` and a newline.
#[verifier::external_body]
pub(crate) fn write_line<W: std::io::Write>(writer: &mut W, line: &str) -> (r: std::result::Result<(), std::io::Error>)
{
    writeln!(writer, "{}", line)
}

/// `what` followed by `" failed: "` and `detail`.
pub open spec fn failure_message(what: Seq<char>, detail: Seq<char>) -> Seq<char> {
    what + seq![' ', 'f', 'a', 'i', 'l', 'e', 'd', ':', ' '] + detail
}

/// The standard output of a query: `None` when it exited with a failure
/// status, which counts as an empty answer; an error only when it could not
/// be started.
pub fn query_stdout(result: std::result::Result<CommandOutput, String>, what: &str) -> (r: crate::error::Result<Option<Vec<u8>>>)
    ensures
        match result {
            Err(msg) => r matches Err(Error::CommandFailed(m)) && m@ == failure_message(what@, msg@),
            Ok(out) => if out.success {
                r matches Ok(Some(b)) && b@ == out.stdout@
            } else {
                r matches Ok(None)
            },
        },
{
    match result {
        Err(msg) => {
            proof {
                reveal_strlit(" failed: ");
            }
            let m = String::from_str(what).concat(" failed: ").concat(msg.as_str());
            assert(m@ =~= failure_message(what@, msg@));
            Err(Error::CommandFailed(m))
        },
        Ok(out) => {
            if out.success {
                Ok(Some(out.stdout))
            } else {
                Ok(None)
            }
        },
    }
}

/// The text of a query's output: an error when it is not valid UTF-8.
pub fn output_text(bytes: Vec<u8>) -> (r: crate::error::Result<String>)
    ensures
        r is Ok <==> valid_utf8(bytes@),
        r matches Ok(s) ==> s@ == decode_utf8(bytes@),
        r matches Err(e) ==> e is Utf8,
{
    match decode_bytes(bytes) {
        Ok(s) => Ok(s),
        Err(e) => Err(Error::Utf8(e)),
    }
}

} // verus!
