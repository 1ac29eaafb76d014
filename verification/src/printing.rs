//! The check of a print request of the server: the name of the file to
//! print, inside the client's print directory.

use crate::text::text_chars;
use vstd::prelude::*;

verus! {

/// Whether Unicode counts `c` as alphabetic or numeric.
pub uninterp spec fn unicode_alphanumeric(c: char) -> bool;

/// Calls `char::is_alphanumeric`: the contract names its result.
#[verifier::external_body]
fn is_alphanumeric(c: char) -> (r: bool)
    ensures
        r == unicode_alphanumeric(c),
{
    c.is_alphanumeric()
}

/// Whether `c` is ASCII punctuation: a printable ASCII character that is
/// neither a letter, a digit nor a space.
pub open spec fn ascii_punctuation(c: char) -> bool {
    let u = c as u32;
    (0x21 <= u <= 0x2F) || (0x3A <= u <= 0x40) || (0x5B <= u <= 0x60) || (0x7B <= u <= 0x7E)
}

/// Whether `c` may stand in the name of a file to print: a letter, a digit
/// or ASCII punctuation, but no path separator (`/` or `\`), so that the
/// name stays inside the print directory.
pub open spec fn print_name_char(c: char) -> bool {
    (unicode_alphanumeric(c) || ascii_punctuation(c)) && c != '/' && c != '\\'
}

/// Whether each character of `name` may stand in the name of a file to print.
pub open spec fn print_name_ok(name: Seq<char>) -> bool {
    forall|i: int| 0 <= i < name.len() ==> print_name_char(#[trigger] name[i])
}

/// Why a print request is refused.
#[derive(Debug, Clone, PartialEq, Eq)]
pub enum PrintError {
    /// The client has no print directory.
    NotConfigured,
    /// The file name holds a character that is not allowed.
    BadFilename(String),
}

/// Whether `c` may stand in the name of a file to print.
fn print_char_ok(c: char) -> (r: bool)
    ensures
        r == print_name_char(c),
{
    let u = c as u32;
    let punct = (0x21 <= u && u <= 0x2F) || (0x3A <= u && u <= 0x40) || (0x5B <= u && u <= 0x60) || (
    0x7B <= u && u <= 0x7E);
    (is_alphanumeric(c) || punct) && c != '/' && c != '\\'
}

/// Whether each character of `file` may stand in the name of a file to
/// print.
pub fn print_file_name_ok(file: &str) -> (r: bool)
    ensures
        r == print_name_ok(file@),
{
    let cs = text_chars(file);
    let mut i: usize = 0;
    while i < cs.len()
        invariant
            cs@ == file@,
            i <= cs@.len(),
            forall|k: int| 0 <= k < i ==> print_name_char(#[trigger] cs@[k]),
        decreases cs@.len() - i,
    {
        if !print_char_ok(cs[i]) {
            return false;
        }
        i = i + 1;
    }
    true
}

/// Checks a request to print `file`: the client must have a print
/// directory, and the name must be made of allowed characters only.
pub fn check_print_request(printdir: Option<&str>, file: &str) -> (r: Result<(), PrintError>)
    ensures
        printdir is None ==> r == Err::<(), PrintError>(PrintError::NotConfigured),
        printdir is Some && !print_name_ok(file@) ==> (r matches Err(PrintError::BadFilename(f))
            && f@ == file@),
        printdir is Some && print_name_ok(file@) ==> r is Ok,
{
    match printdir {
        None => Err(PrintError::NotConfigured),
        Some(_) => {
            if print_file_name_ok(file) {
                Ok(())
            } else {
                Err(PrintError::BadFilename(file.to_owned()))
            }
        },
    }
}

} // verus!
