//! The character classes and the case mapping of std, by name.
//!
//! What Unicode says of a character fills tables, not contracts. So each
//! class has a name here, and std's function is taken to compute what the
//! name stands for: the same for the same character, always. Nothing else
//! is assumed of them.

use vstd::prelude::*;

verus! {

/// Whether `c` is white space in the sense of `char::is_whitespace`
/// (the Unicode `White_Space` property).
pub uninterp spec fn white_space(c: char) -> bool;

/// `char::is_whitespace` of std: the result is what [`white_space`] names.
/// Nothing more is claimed of it here.
pub assume_specification[ char::is_whitespace ](c: char) -> (b: bool)
    ensures
        b == white_space(c),
;

/// Whether `c` is a number character in the sense of `char::is_numeric`
/// (the Unicode general categories `Nd`, `Nl` and `No`).
pub uninterp spec fn numeric(c: char) -> bool;

/// `char::is_numeric` of std: the result is what [`numeric`] names.
/// Nothing more is claimed of it here.
pub assume_specification[ char::is_numeric ](c: char) -> (b: bool)
    ensures
        b == numeric(c),
;

/// Whether `c` is a letter in the sense of `char::is_alphabetic`
/// (the Unicode `Alphabetic` property).
pub uninterp spec fn alphabetic(c: char) -> bool;

/// `char::is_alphabetic` of std: the result is what [`alphabetic`] names.
/// Nothing more is claimed of it here.
pub assume_specification[ char::is_alphabetic ](c: char) -> (b: bool)
    ensures
        b == alphabetic(c),
;

/// Whether `c` is a letter or a number character in the sense of
/// `char::is_alphanumeric`.
pub uninterp spec fn alphanumeric(c: char) -> bool;

/// `char::is_alphanumeric` of std: the result is what [`alphanumeric`]
/// names. Nothing more is claimed of it here.
pub assume_specification[ char::is_alphanumeric ](c: char) -> (b: bool)
    ensures
        b == alphanumeric(c),
;

/// `s` in lower case, in the sense of `str::to_lowercase`.
pub uninterp spec fn lowercase(s: Seq<char>) -> Seq<char>;

/// `str::to_lowercase` of std: the result is what [`lowercase`] names.
/// Nothing more is claimed of it here.
pub assume_specification[ str::to_lowercase ](s: &str) -> (lower: std::string::String)
    ensures
        lower@ == lowercase(s@),
;

} // verus!
