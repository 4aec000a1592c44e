//! What programs that were run have printed.

use vstd::prelude::*;
use vstd::utf8::{decode_utf8, valid_utf8};

use crate::paths::{file_name, last_name};
use crate::text::{to_chars, to_text, trim, trimmed};

verus! {

/// The text that bytes are shown as, whether they are UTF-8 or not.
pub uninterp spec fn lossy_text(bytes: Seq<u8>) -> Seq<char>;

/// `String::from_utf8_lossy` decodes UTF-8. What it puts in the place of bytes
/// that are not UTF-8 is left to the name.
#[verifier::external_body]
fn decode_lossy(bytes: &[u8]) -> (r: String)
    ensures
        r@ == lossy_text(bytes@),
        valid_utf8(bytes@) ==> r@ == decode_utf8(bytes@),
{
    String::from_utf8_lossy(bytes).into_owned()
}

/// `String::from_utf8` decodes UTF-8 and refuses anything else.
#[verifier::external_body]
fn decode(bytes: Vec<u8>) -> (r: Option<String>)
    ensures
        r is Some <==> valid_utf8(bytes@),
        match r {
            Some(s) => s@ == decode_utf8(bytes@),
            None => true,
        },
{
    String::from_utf8(bytes).ok()
}

/// What is shown of a program's two outputs: the second only if the first is
/// empty.
pub open spec fn either_output(out: Seq<char>, err: Seq<char>) -> Seq<char> {
    if out.len() == 0 {
        err
    } else {
        out
    }
}

/// Picks one of a program's two outputs.
pub fn pick_output(out: String, err: String) -> (r: String)
    ensures
        r@ == either_output(out@, err@),
{
    if out.as_str().is_empty() && !err.as_str().is_empty() {
        err
    } else {
        assert(out@.len() == 0 ==> out@ =~= either_output(out@, err@));
        out
    }
}

/// The text shown for a program that was run: what it printed or, if it did not
/// start, why.
pub fn output_text(result: Result<(Vec<u8>, Vec<u8>), String>) -> (r: String)
    ensures
        match result {
            Ok((out, err)) => r@ == either_output(lossy_text(out@), lossy_text(err@)),
            Err(e) => r@ == "error: "@ + e@,
        },
{
    match result {
        Ok((out, err)) => pick_output(
            decode_lossy(out.as_slice()),
            decode_lossy(err.as_slice()),
        ),
        Err(e) => "error: ".to_string().concat(e.as_str()),
    }
}

/// The name of a window on `path`: the branch that git printed, else the last
/// name in the path.
pub open spec fn window_name(path: Seq<char>, printed: Option<Seq<u8>>) -> Seq<char> {
    if printed is Some && valid_utf8(printed->0) && trim(decode_utf8(printed->0)).len() > 0 {
        trim(decode_utf8(printed->0))
    } else {
        match last_name(path) {
            Some(name) => name,
            None => "main"@,
        }
    }
}

/// Names a window on `path`, given what git printed about the branch, if it ran.
pub fn branch_name_for(path: &str, printed: Option<Vec<u8>>) -> (r: String)
    ensures
        r@ == window_name(
            path@,
            match printed {
                Some(bytes) => Some(bytes@),
                None => None,
            },
        ),
{
    if let Some(bytes) = printed {
        if let Some(s) = decode(bytes) {
            let cs = to_chars(s.as_str());
            let name = to_text(trimmed(cs.as_slice()));
            if !name.as_str().is_empty() {
                return name;
            }
        }
    }
    match file_name(path) {
        Some(name) => name,
        None => "main".to_string(),
    }
}

} // verus!
