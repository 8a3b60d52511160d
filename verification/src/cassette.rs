//! What is written on a cassette's label.
use vstd::prelude::*;
use crate::paths::{file_stem_of, path_file_stem};
use crate::text::{chars_of, string_of, trim, trimmed};

verus! {

/// The name on the label of a tape loaded from `file`: its file name without
/// the extension and without white space round it, or the whole of `file`
/// trimmed where it has no file name.
pub open spec fn label_name(file: Seq<char>) -> Seq<char> {
    match path_file_stem(file) {
        Some(stem) => trim(stem),
        None => trim(file),
    }
}

/// What gets written on the label: the file's name without the extension,
/// as somebody would have written it in biro.
pub fn written_name(file: &str) -> (r: String)
    ensures
        r@ == label_name(file@),
{
    let source = match file_stem_of(file) {
        Some(stem) => chars_of(stem.as_str()),
        None => chars_of(file),
    };
    let t = trimmed(&source);
    string_of(&t)
}

} // verus!
