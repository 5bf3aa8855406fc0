//! Hidden files as Windows marks them: by an attribute bit, not by name.

use vstd::prelude::*;

verus! {

/// The attribute bit that marks a hidden file on Windows.
pub const FILE_ATTRIBUTE_HIDDEN: u32 = 0x2;

/// Whether a file is hidden by its Windows attributes: `attributes` is what
/// its metadata reports, or nothing when the metadata could not be read, in
/// which case the file is not hidden.
pub fn is_hidden(attributes: Option<u32>) -> (r: bool)
    ensures
        r == (attributes matches Some(a) && a & FILE_ATTRIBUTE_HIDDEN != 0),
{
    match attributes {
        Some(a) => a & FILE_ATTRIBUTE_HIDDEN != 0,
        None => false,
    }
}

} // verus!
