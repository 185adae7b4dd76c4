//! Telling Chinese text from text in other languages.

use vstd::prelude::*;
use vstd::string::StrSliceExecFns;

verus! {

/// Whether `x` lies in the closed range `lo..=hi`.
pub open spec fn in_range(x: u32, lo: u32, hi: u32) -> bool {
    lo <= x && x <= hi
}

/// Whether `c` is a CJK ideograph (the unified block, its extensions A to E,
/// the compatibility blocks) or one of the punctuation marks of Chinese text.
pub open spec fn spec_is_chinese_char(c: char) -> bool {
    let x = c as u32;
    ||| in_range(x, 0x4e00, 0x9fff)
    ||| x == 0xff0c
    ||| x == 0x3002
    ||| in_range(x, 0x3400, 0x4dbf)
    ||| in_range(x, 0x20000, 0x2a6df)
    ||| in_range(x, 0x2a700, 0x2b73f)
    ||| in_range(x, 0x2b740, 0x2b81f)
    ||| in_range(x, 0x2b820, 0x2ceaf)
    ||| in_range(x, 0x3300, 0x33ff)
    ||| in_range(x, 0xfe30, 0xfe4f)
    ||| in_range(x, 0xf900, 0xfaff)
    ||| in_range(x, 0x2f800, 0x2fa1f)
    ||| x == 0x00b7
    ||| x == 0x00d7
    ||| x == 0x2014
    ||| x == 0x2018
    ||| x == 0x2019
    ||| x == 0x201c
    ||| x == 0x201d
    ||| x == 0x2026
    ||| x == 0x3001
    ||| x == 0x300a
    ||| x == 0x300b
    ||| x == 0x300e
    ||| x == 0x300f
    ||| x == 0x3010
    ||| x == 0x3011
    ||| x == 0xff01
    ||| x == 0xff08
    ||| x == 0xff09
    ||| x == 0xff1a
    ||| x == 0xff1f
}

/// Whether some character of `s` is Chinese.
pub open spec fn spec_is_chinese(s: Seq<char>) -> bool {
    exists|i: int| 0 <= i < s.len() && spec_is_chinese_char(#[trigger] s[i])
}

pub fn is_chinese(s: &str) -> (r: bool)
    ensures
        r == spec_is_chinese(s@),
{
    let n = s.unicode_len();
    let mut i: usize = 0;
    while i < n
        invariant
            n == s@.len(),
            i <= n,
            forall|j: int| 0 <= j < i ==> !spec_is_chinese_char(#[trigger] s@[j]),
        decreases n - i,
    {
        if is_chinese_char(s.get_char(i)) {
            return true;
        }
        i = i + 1;
    }
    false
}

pub fn is_chinese_char(ch: char) -> (r: bool)
    ensures
        r == spec_is_chinese_char(ch),
{
    let x = ch as u32;
    (0x4e00 <= x && x <= 0x9fff) || x == 0xff0c || x == 0x3002 || (0x3400 <= x && x <= 0x4dbf)
        || (0x20000 <= x && x <= 0x2a6df) || (0x2a700 <= x && x <= 0x2b73f) || (0x2b740 <= x
        && x <= 0x2b81f) || (0x2b820 <= x && x <= 0x2ceaf) || (0x3300 <= x && x <= 0x33ff) || (
    0xfe30 <= x && x <= 0xfe4f) || (0xf900 <= x && x <= 0xfaff) || (0x2f800 <= x && x
        <= 0x2fa1f) || x == 0x00b7 || x == 0x00d7 || x == 0x2014 || x == 0x2018 || x == 0x2019
        || x == 0x201c || x == 0x201d || x == 0x2026 || x == 0x3001 || x == 0x300a || x
        == 0x300b || x == 0x300e || x == 0x300f || x == 0x3010 || x == 0x3011 || x == 0xff01
        || x == 0xff08 || x == 0xff09 || x == 0xff1a || x == 0xff1f
}

} // verus!
