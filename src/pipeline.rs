//! The per-file decisions of the two drivers: where output goes and how the
//! destination is opened.

use vstd::prelude::*;

verus! {

/// The suffix added to the name of an obfuscated file.
pub open spec fn shift_suffix() -> Seq<char> {
    seq!['.', 's', 'h', 'i', 'f', 't']
}

/// The name of the obfuscated file made from a file whose base name is `base`.
pub fn shifted_file_name(base: &str) -> (r: String)
    ensures
        r@ == base@ + shift_suffix(),
{
    let mut r = base.to_owned();
    let suffix = ".shift";
    proof {
        reveal_strlit(".shift");
    }
    r.append(suffix);
    assert(suffix@ =~= shift_suffix());
    r
}

/// How a destination file is opened.
#[derive(Clone, Copy, Debug, PartialEq, Eq, Structural)]
pub struct OpenMode {
    /// Fail if the destination exists, leaving it untouched.
    pub create_new: bool,
    /// Create the destination or cut an existing one to length zero.
    pub truncate: bool,
}

/// The open mode for the overwrite policy: with `force`, create or truncate;
/// without, create a new file only.
pub fn open_mode(force: bool) -> (r: OpenMode)
    ensures
        r.create_new == !force,
        r.truncate == force,
{
    OpenMode { create_new: !force, truncate: force }
}

} // verus!
