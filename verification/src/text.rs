//! Bytes and the text they carry. The pages a device answers with are raw
//! bytes; everything this library ever turns back into text (version numbers,
//! MAC addresses) is drawn from a small ASCII alphabet, so the conversion can
//! be written out and verified here.

use vstd::prelude::*;

verus! {

/// a decimal digit byte, `0` through `9`
pub open spec fn is_digit(b: u8) -> bool {
    '0' as u8 <= b <= '9' as u8
}

/// an uppercase hexadecimal digit byte, `0`-`9` or `A`-`F`
pub open spec fn is_upper_hex(b: u8) -> bool {
    is_digit(b) || ('A' as u8 <= b <= 'F' as u8)
}

/// The bytes this library ever renders as text: uppercase hex digits, the dot
/// of a version number and the colon of a MAC address.
pub open spec fn is_display_byte(b: u8) -> bool {
    is_upper_hex(b) || b == '.' as u8 || b == ':' as u8
}

/// The characters of a run of ASCII bytes, one character per byte.
pub open spec fn ascii_seq(s: Seq<u8>) -> Seq<char> {
    Seq::new(s.len(), |i: int| s[i] as char)
}

/// The text of an optional string: how contracts speak of an `Option<String>`
/// result.
pub open spec fn opt_chars(o: Option<String>) -> Option<Seq<char>> {
    match o {
        Some(s) => Some(s@),
        None => None,
    }
}

/// `pat` occurs in `hay` starting at position `i`.
pub open spec fn contains_at(hay: Seq<u8>, i: int, pat: Seq<u8>) -> bool {
    &&& 0 <= i
    &&& i + pat.len() <= hay.len()
    &&& forall|k: int| 0 <= k < pat.len() ==> hay[i + k] == pat[k]
}

/// `pat` occurs somewhere in `hay`.
pub open spec fn contains_seq(hay: Seq<u8>, pat: Seq<u8>) -> bool {
    exists|i: int| contains_at(hay, i, pat)
}

/// exec mirror of [`is_digit`]
pub fn digit(b: u8) -> (r: bool)
    ensures
        r == is_digit(b),
{
    '0' as u8 <= b && b <= '9' as u8
}

/// exec mirror of [`is_upper_hex`]
pub fn upper_hex(b: u8) -> (r: bool)
    ensures
        r == is_upper_hex(b),
{
    digit(b) || ('A' as u8 <= b && b <= 'F' as u8)
}

/// Does `pat` occur in `hay` at position `i`?
pub fn bytes_eq_at(hay: &[u8], i: usize, pat: &[u8]) -> (r: bool)
    requires
        i + pat@.len() <= hay@.len(),
    ensures
        r == contains_at(hay@, i as int, pat@),
{
    let n = pat.len();
    let h = hay.len();
    let mut k: usize = 0;
    while k < n
        invariant
            k <= n,
            n == pat@.len(),
            h == hay@.len(),
            i + n <= h,
            forall|m: int| 0 <= m < k ==> hay@[i + m] == pat@[m],
        decreases n - k,
    {
        if hay[i + k] != pat[k] {
            return false;
        }
        k += 1;
    }
    true
}

/// Does `pat` occur anywhere in `hay`?
pub fn bytes_contain(hay: &[u8], pat: &[u8]) -> (r: bool)
    ensures
        r == contains_seq(hay@, pat@),
{
    if pat.len() > hay.len() {
        proof {
            assert(forall|i: int| !contains_at(hay@, i, pat@));
        }
        return false;
    }
    if pat.len() == 0 {
        proof {
            assert(contains_at(hay@, 0, pat@));
        }
        return true;
    }
    let h = hay.len();
    let last = hay.len() - pat.len();
    let mut i: usize = 0;
    while i <= last
        invariant
            h == hay@.len(),
            pat@.len() >= 1,
            last == hay@.len() - pat@.len(),
            i <= last + 1,
            forall|j: int| 0 <= j < i ==> !contains_at(hay@, j, pat@),
        decreases last - i + 1,
    {
        if bytes_eq_at(hay, i, pat) {
            return true;
        }
        i += 1;
    }
    proof {
        assert(forall|j: int| j > last ==> !contains_at(hay@, j, pat@));
    }
    false
}

/// The one-character string for a display byte.
fn display_piece(b: u8) -> (r: &'static str)
    requires
        is_display_byte(b),
    ensures
        r@ == seq![b as char],
{
    if b == '0' as u8 {
        proof { reveal_strlit("0"); }
        let r = "0";
        proof { assert(r@ =~= seq![b as char]); }
        r
    } else if b == '1' as u8 {
        proof { reveal_strlit("1"); }
        let r = "1";
        proof { assert(r@ =~= seq![b as char]); }
        r
    } else if b == '2' as u8 {
        proof { reveal_strlit("2"); }
        let r = "2";
        proof { assert(r@ =~= seq![b as char]); }
        r
    } else if b == '3' as u8 {
        proof { reveal_strlit("3"); }
        let r = "3";
        proof { assert(r@ =~= seq![b as char]); }
        r
    } else if b == '4' as u8 {
        proof { reveal_strlit("4"); }
        let r = "4";
        proof { assert(r@ =~= seq![b as char]); }
        r
    } else if b == '5' as u8 {
        proof { reveal_strlit("5"); }
        let r = "5";
        proof { assert(r@ =~= seq![b as char]); }
        r
    } else if b == '6' as u8 {
        proof { reveal_strlit("6"); }
        let r = "6";
        proof { assert(r@ =~= seq![b as char]); }
        r
    } else if b == '7' as u8 {
        proof { reveal_strlit("7"); }
        let r = "7";
        proof { assert(r@ =~= seq![b as char]); }
        r
    } else if b == '8' as u8 {
        proof { reveal_strlit("8"); }
        let r = "8";
        proof { assert(r@ =~= seq![b as char]); }
        r
    } else if b == '9' as u8 {
        proof { reveal_strlit("9"); }
        let r = "9";
        proof { assert(r@ =~= seq![b as char]); }
        r
    } else if b == 'A' as u8 {
        proof { reveal_strlit("A"); }
        let r = "A";
        proof { assert(r@ =~= seq![b as char]); }
        r
    } else if b == 'B' as u8 {
        proof { reveal_strlit("B"); }
        let r = "B";
        proof { assert(r@ =~= seq![b as char]); }
        r
    } else if b == 'C' as u8 {
        proof { reveal_strlit("C"); }
        let r = "C";
        proof { assert(r@ =~= seq![b as char]); }
        r
    } else if b == 'D' as u8 {
        proof { reveal_strlit("D"); }
        let r = "D";
        proof { assert(r@ =~= seq![b as char]); }
        r
    } else if b == 'E' as u8 {
        proof { reveal_strlit("E"); }
        let r = "E";
        proof { assert(r@ =~= seq![b as char]); }
        r
    } else if b == 'F' as u8 {
        proof { reveal_strlit("F"); }
        let r = "F";
        proof { assert(r@ =~= seq![b as char]); }
        r
    } else if b == '.' as u8 {
        proof { reveal_strlit("."); }
        let r = ".";
        proof { assert(r@ =~= seq![b as char]); }
        r
    } else {
        proof { reveal_strlit(":"); }
        let r = ":";
        proof { assert(r@ =~= seq![b as char]); }
        r
    }
}

/// The string spelt by a run of display bytes, one character per byte.
pub fn ascii_to_string(bytes: &[u8]) -> (r: String)
    requires
        forall|i: int| 0 <= i < bytes@.len() ==> is_display_byte(bytes@[i]),
    ensures
        r@ == ascii_seq(bytes@),
{
    let n = bytes.len();
    let mut r = String::new();
    let mut i: usize = 0;
    while i < n
        invariant
            i <= n,
            n == bytes@.len(),
            forall|k: int| 0 <= k < n ==> is_display_byte(bytes@[k]),
            r@ =~= ascii_seq(bytes@.subrange(0, i as int)),
        decreases n - i,
    {
        let piece = display_piece(bytes[i]);
        r.append(piece);
        i += 1;
        proof {
            assert(r@ =~= ascii_seq(bytes@.subrange(0, i as int)));
        }
    }
    proof {
        assert(bytes@.subrange(0, n as int) =~= bytes@);
    }
    r
}

} // verus!
