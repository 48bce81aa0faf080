//! Archive file names.
//!
//! Every backup archive is named `<seconds>.zip`, where `<seconds>` is the
//! creation time as decimal epoch seconds, so later archives carry greater
//! file names.  The lister and the pruner recognize an archive by the `.zip`
//! extension alone, whatever its stem holds.

use vstd::prelude::*;

use crate::paths::{spec_with_extension, with_extension};

verus! {

/// Whether `c` is a decimal digit.
pub open spec fn is_dec_digit(c: char) -> bool {
    48 <= c as u32 <= 57
}

/// The decimal digit character with value `d`.
pub open spec fn dec_digit_char(d: int) -> char {
    if d == 0 {
        '0'
    } else if d == 1 {
        '1'
    } else if d == 2 {
        '2'
    } else if d == 3 {
        '3'
    } else if d == 4 {
        '4'
    } else if d == 5 {
        '5'
    } else if d == 6 {
        '6'
    } else if d == 7 {
        '7'
    } else if d == 8 {
        '8'
    } else {
        '9'
    }
}

/// Whether every character of `s` is a decimal digit.
pub open spec fn is_digit_seq(s: Seq<char>) -> bool {
    forall|i: int| 0 <= i < s.len() ==> is_dec_digit(#[trigger] s[i])
}

/// The decimal digit characters of `n`, most significant first, without
/// leading zeros (a single `0` for zero itself).
pub open spec fn dec_chars(n: nat) -> Seq<char>
    decreases n,
{
    if n < 10 {
        seq![dec_digit_char(n as int)]
    } else {
        dec_chars(n / 10).push(dec_digit_char((n % 10) as int))
    }
}

/// The decimal representation of a number is never empty and consists of
/// digits only.
pub proof fn lemma_dec_chars_digits(n: nat)
    ensures
        dec_chars(n).len() >= 1,
        is_digit_seq(dec_chars(n)),
    decreases n,
{
    if n >= 10 {
        lemma_dec_chars_digits(n / 10);
    }
}

/// The single decimal digit `digit`, as a string.
fn digit_to_string(digit: u64) -> (s: String)
    requires
        digit < 10,
    ensures
        s@ == seq![dec_digit_char(digit as int)],
{
    proof {
        reveal_strlit("0");
        reveal_strlit("1");
        reveal_strlit("2");
        reveal_strlit("3");
        reveal_strlit("4");
        reveal_strlit("5");
        reveal_strlit("6");
        reveal_strlit("7");
        reveal_strlit("8");
        reveal_strlit("9");
    }
    if digit == 0 {
        "0".to_owned()
    } else if digit == 1 {
        "1".to_owned()
    } else if digit == 2 {
        "2".to_owned()
    } else if digit == 3 {
        "3".to_owned()
    } else if digit == 4 {
        "4".to_owned()
    } else if digit == 5 {
        "5".to_owned()
    } else if digit == 6 {
        "6".to_owned()
    } else if digit == 7 {
        "7".to_owned()
    } else if digit == 8 {
        "8".to_owned()
    } else {
        "9".to_owned()
    }
}

/// Writes `value` in decimal, most significant digit first.
pub fn u64_to_decimal(value: u64) -> (s: String)
    ensures
        s@ == dec_chars(value as nat),
    decreases value,
{
    if value < 10 {
        digit_to_string(value)
    } else {
        assert(value / 10 < value);
        let mut s = u64_to_decimal(value / 10);
        let last = digit_to_string(value % 10);
        s.append(last.as_str());
        proof {
            assert(s@ =~= dec_chars((value / 10) as nat).push(
                dec_digit_char((value % 10) as int),
            ));
        }
        s
    }
}

/// Whether `name` carries the archive extension: a non-empty stem followed
/// by `.zip`.  A name that is nothing but `.zip` has an empty stem — and,
/// to a path library, no extension — so it does not count.
pub open spec fn spec_is_zip_file_name(name: Seq<char>) -> bool {
    &&& name.len() > 4
    &&& name[name.len() - 4] == '.'
    &&& name[name.len() - 3] == 'z'
    &&& name[name.len() - 2] == 'i'
    &&& name[name.len() - 1] == 'p'
}

/// Checks a directory entry name for the archive extension.
pub fn is_zip_file_name(name: &str) -> (is_zip: bool)
    ensures
        is_zip == spec_is_zip_file_name(name@),
{
    let len = name.unicode_len();
    if len < 5 {
        return false;
    }
    name.get_char(len - 4) == '.' && name.get_char(len - 3) == 'z' && name.get_char(len - 2)
        == 'i' && name.get_char(len - 1) == 'p'
}

/// The file name of the archive created at `timestamp` epoch seconds.
pub open spec fn spec_archive_file_name(timestamp: u64) -> Seq<char> {
    spec_with_extension(dec_chars(timestamp as nat), "zip"@)
}

/// Names the archive created at `timestamp` epoch seconds.
pub fn archive_file_name(timestamp: u64) -> (name: String)
    ensures
        name@ == spec_archive_file_name(timestamp),
{
    let stem = u64_to_decimal(timestamp);
    with_extension(stem.as_str(), "zip")
}

/// Whatever the archiver names an archive, the lister and the pruner
/// recognize as one.
pub proof fn lemma_archive_file_name_is_zip(timestamp: u64)
    ensures
        spec_is_zip_file_name(spec_archive_file_name(timestamp)),
{
    reveal_strlit(".");
    reveal_strlit("zip");
    lemma_dec_chars_digits(timestamp as nat);
}

} // verus!
