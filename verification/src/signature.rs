//! The Tasmota signature. A device's root page identifies the firmware with a
//! line of the shape `Tasmota <version> by Theo Arends`, where the version has
//! three or four dot-separated runs of decimal digits. This module recognises
//! the first such signature in a page and pulls the version out of it.

use vstd::prelude::*;

use crate::text::{ascii_seq, contains_at, is_digit, is_display_byte, opt_chars};

verus! {

/// the bytes of `"Tasmota "`, the literal that opens the signature
pub open spec fn sig_prefix() -> Seq<u8> {
    seq![
        'T' as u8,
        'a' as u8,
        's' as u8,
        'm' as u8,
        'o' as u8,
        't' as u8,
        'a' as u8,
        ' ' as u8,
    ]
}

/// the bytes of `" by Theo Arends"`, the literal that closes the signature
pub open spec fn sig_suffix() -> Seq<u8> {
    seq![
        ' ' as u8,
        'b' as u8,
        'y' as u8,
        ' ' as u8,
        'T' as u8,
        'h' as u8,
        'e' as u8,
        'o' as u8,
        ' ' as u8,
        'A' as u8,
        'r' as u8,
        'e' as u8,
        'n' as u8,
        'd' as u8,
        's' as u8,
    ]
}

/// the bytes of `"Theo Arends"`, as they stand inside [`sig_suffix`]
pub open spec fn theo_arends() -> Seq<u8> {
    sig_suffix().subrange(4, 15)
}

/// a byte a version number may consist of: a digit or a dot
pub open spec fn is_version_byte(b: u8) -> bool {
    is_digit(b) || b == '.' as u8
}

/// `v` is `digits . digits . digits`, with the dots at positions `p` and `q`
/// and at least one digit in each run.
pub open spec fn version3_dots(v: Seq<u8>, p: int, q: int) -> bool {
    &&& 1 <= p
    &&& p + 2 <= q
    &&& q + 2 <= v.len()
    &&& v[p] == '.' as u8
    &&& v[q] == '.' as u8
    &&& forall|k: int| 0 <= k < v.len() && k != p && k != q ==> is_digit(v[k])
}

/// `v` is `digits . digits . digits . digits`, with the dots at `p`, `q`, `r`.
pub open spec fn version4_dots(v: Seq<u8>, p: int, q: int, r: int) -> bool {
    &&& 1 <= p
    &&& p + 2 <= q
    &&& q + 2 <= r
    &&& r + 2 <= v.len()
    &&& v[p] == '.' as u8
    &&& v[q] == '.' as u8
    &&& v[r] == '.' as u8
    &&& forall|k: int| 0 <= k < v.len() && k != p && k != q && k != r ==> is_digit(v[k])
}

/// `v` is a version number of three or four components.
pub open spec fn is_version(v: Seq<u8>) -> bool {
    ||| exists|p: int, q: int| version3_dots(v, p, q)
    ||| exists|p: int, q: int, r: int| version4_dots(v, p, q, r)
}

/// The signature stands in `s` at position `i` with a version of `n` bytes:
/// `"Tasmota "`, then the version, then `" by Theo Arends"`.
pub open spec fn sig_at_len(s: Seq<u8>, i: int, n: int) -> bool {
    &&& 0 <= n
    &&& contains_at(s, i, sig_prefix())
    &&& i + 8 + n + 15 <= s.len()
    &&& is_version(s.subrange(i + 8, i + 8 + n))
    &&& contains_at(s, i + 8 + n, sig_suffix())
}

/// The signature stands in `s` at position `i`, with some version length.
pub open spec fn sig_at(s: Seq<u8>, i: int) -> bool {
    exists|n: int| sig_at_len(s, i, n)
}

/// Some signature stands in `s`.
pub open spec fn has_sig(s: Seq<u8>) -> bool {
    exists|i: int| sig_at(s, i)
}

/// The signature stands at `i` and nowhere earlier: the occurrence the
/// matcher reports.
pub open spec fn first_sig_at(s: Seq<u8>, i: int) -> bool {
    sig_at(s, i) && forall|j: int| 0 <= j < i ==> !sig_at(s, j)
}

/// The version bytes of the first signature in `s`, if any signature stands
/// in it.
pub open spec fn sig_version(s: Seq<u8>) -> Option<Seq<u8>> {
    if has_sig(s) {
        let i = choose|i: int| first_sig_at(s, i);
        let n = choose|n: int| sig_at_len(s, i, n);
        Some(s.subrange(i + 8, i + 8 + n))
    } else {
        None
    }
}

/// The version of the first signature in `s`, as text.
pub open spec fn version_chars_of(s: Seq<u8>) -> Option<Seq<char>> {
    match sig_version(s) {
        Some(b) => Some(ascii_seq(b)),
        None => None,
    }
}

/// `e` is where a scan for digits that starts at `a` stops: digits up to `e`,
/// and at `e` the end of `s` or something else.
pub open spec fn is_scan(s: Seq<u8>, a: int, e: int) -> bool {
    &&& a <= e <= s.len()
    &&& forall|k: int| a <= k < e ==> is_digit(s[k])
    &&& e < s.len() ==> !is_digit(s[e])
}

/// A digit scan's stopping point is forced: any position with digits before
/// it and a non-digit at it is the scan's result.
proof fn lemma_scan_forced(s: Seq<u8>, a: int, e: int, d: int)
    requires
        is_scan(s, a, e),
        a <= d <= s.len(),
        forall|k: int| a <= k < d ==> is_digit(s[k]),
        d < s.len(),
        !is_digit(s[d]),
    ensures
        d == e,
{
    if d < e {
        assert(is_digit(s[d]));
    }
    if d > e {
        assert(is_digit(s[e]));
    }
}

/// Every byte of a version number is a digit or a dot.
pub proof fn lemma_version_bytes(v: Seq<u8>)
    requires
        is_version(v),
    ensures
        forall|k: int| 0 <= k < v.len() ==> is_version_byte(#[trigger] v[k]),
{
    if exists|p: int, q: int| version3_dots(v, p, q) {
        let (p, q) = choose|p: int, q: int| version3_dots(v, p, q);
        assert forall|k: int| 0 <= k < v.len() implies is_version_byte(v[k]) by {
            if k != p && k != q {
                assert(is_digit(v[k]));
            }
        }
    } else {
        let (p, q, r) = choose|p: int, q: int, r: int| version4_dots(v, p, q, r);
        assert forall|k: int| 0 <= k < v.len() implies is_version_byte(v[k]) by {
            if k != p && k != q && k != r {
                assert(is_digit(v[k]));
            }
        }
    }
}

/// At a given position, the signature admits only one version length: the
/// version is followed by a space, which no version byte is.
pub proof fn lemma_sig_len_unique(s: Seq<u8>, i: int, n1: int, n2: int)
    requires
        sig_at_len(s, i, n1),
        sig_at_len(s, i, n2),
    ensures
        n1 == n2,
{
    let v1 = s.subrange(i + 8, i + 8 + n1);
    let v2 = s.subrange(i + 8, i + 8 + n2);
    lemma_version_bytes(v1);
    lemma_version_bytes(v2);
    if n1 < n2 {
        // the byte after the shorter version opens " by Theo Arends",
        // yet it lies inside the longer version
        assert(s[i + 8 + n1] == sig_suffix()[0]);
        assert(v2[n1] == s[i + 8 + n1]);
        assert(is_version_byte(v2[n1]));
    }
    if n2 < n1 {
        assert(s[i + 8 + n2] == sig_suffix()[0]);
        assert(v1[n2] == s[i + 8 + n2]);
        assert(is_version_byte(v1[n2]));
    }
}

/// Only one position is the first.
pub proof fn lemma_first_sig_unique(s: Seq<u8>, i1: int, i2: int)
    requires
        first_sig_at(s, i1),
        first_sig_at(s, i2),
    ensures
        i1 == i2,
{
    let n1 = choose|n: int| sig_at_len(s, i1, n);
    let n2 = choose|n: int| sig_at_len(s, i2, n);
    assert(0 <= i1 && 0 <= i2);
}

/// A signature's first digit run ends at the scan's stopping point, on the
/// version's first dot.
proof fn lemma_sig_run_a(s: Seq<u8>, i: int, n: int, e1: int)
    requires
        sig_at_len(s, i, n),
        is_scan(s, i + 8, e1),
    ensures
        i + 8 < e1 < s.len(),
        s[e1] == '.' as u8,
{
    let p = i + 8;
    let v = s.subrange(p, p + n);
    if exists|p1: int, q1: int| version3_dots(v, p1, q1) {
        let (p1, q1) = choose|p1: int, q1: int| version3_dots(v, p1, q1);
        assert forall|k: int| p <= k < p + p1 implies is_digit(s[k]) by {
            assert(v[k - p] == s[k]);
        }
        assert(s[p + p1] == v[p1]);
        lemma_scan_forced(s, p, e1, p + p1);
    } else {
        let (p1, q1, r1) = choose|p1: int, q1: int, r1: int| version4_dots(v, p1, q1, r1);
        assert forall|k: int| p <= k < p + p1 implies is_digit(s[k]) by {
            assert(v[k - p] == s[k]);
        }
        assert(s[p + p1] == v[p1]);
        lemma_scan_forced(s, p, e1, p + p1);
    }
}

/// The second digit run ends on the version's second dot.
proof fn lemma_sig_run_b(s: Seq<u8>, i: int, n: int, e1: int, e2: int)
    requires
        sig_at_len(s, i, n),
        is_scan(s, i + 8, e1),
        is_scan(s, e1 + 1, e2),
    ensures
        e1 + 1 < e2 < s.len(),
        s[e2] == '.' as u8,
{
    let p = i + 8;
    let v = s.subrange(p, p + n);
    if exists|p1: int, q1: int| version3_dots(v, p1, q1) {
        let (p1, q1) = choose|p1: int, q1: int| version3_dots(v, p1, q1);
        assert forall|k: int| p <= k < p + p1 implies is_digit(s[k]) by {
            assert(v[k - p] == s[k]);
        }
        assert(s[p + p1] == v[p1]);
        lemma_scan_forced(s, p, e1, p + p1);
        assert forall|k: int| e1 + 1 <= k < p + q1 implies is_digit(s[k]) by {
            assert(v[k - p] == s[k]);
        }
        assert(s[p + q1] == v[q1]);
        lemma_scan_forced(s, e1 + 1, e2, p + q1);
    } else {
        let (p1, q1, r1) = choose|p1: int, q1: int, r1: int| version4_dots(v, p1, q1, r1);
        assert forall|k: int| p <= k < p + p1 implies is_digit(s[k]) by {
            assert(v[k - p] == s[k]);
        }
        assert(s[p + p1] == v[p1]);
        lemma_scan_forced(s, p, e1, p + p1);
        assert forall|k: int| e1 + 1 <= k < p + q1 implies is_digit(s[k]) by {
            assert(v[k - p] == s[k]);
        }
        assert(s[p + q1] == v[q1]);
        lemma_scan_forced(s, e1 + 1, e2, p + q1);
    }
}

/// The third digit run ends either where the whole version ends, on the
/// closing `" by Theo Arends"`, or on the third dot of a four-part version.
proof fn lemma_sig_run_c(s: Seq<u8>, i: int, n: int, e1: int, e2: int, e3: int)
    requires
        sig_at_len(s, i, n),
        is_scan(s, i + 8, e1),
        is_scan(s, e1 + 1, e2),
        is_scan(s, e2 + 1, e3),
    ensures
        e2 + 1 < e3 <= s.len(),
        (e3 == i + 8 + n) || (e3 < s.len() && s[e3] == '.' as u8),
{
    let p = i + 8;
    let v = s.subrange(p, p + n);
    lemma_sig_run_b(s, i, n, e1, e2);
    assert(s[p + n] == sig_suffix()[0]);
    if exists|p1: int, q1: int| version3_dots(v, p1, q1) {
        let (p1, q1) = choose|p1: int, q1: int| version3_dots(v, p1, q1);
        assert forall|k: int| p <= k < p + p1 implies is_digit(s[k]) by {
            assert(v[k - p] == s[k]);
        }
        assert(s[p + p1] == v[p1]);
        lemma_scan_forced(s, p, e1, p + p1);
        assert forall|k: int| e1 + 1 <= k < p + q1 implies is_digit(s[k]) by {
            assert(v[k - p] == s[k]);
        }
        lemma_scan_forced(s, e1 + 1, e2, p + q1);
        assert forall|k: int| e2 + 1 <= k < p + n implies is_digit(s[k]) by {
            assert(v[k - p] == s[k]);
        }
        lemma_scan_forced(s, e2 + 1, e3, p + n);
    } else {
        let (p1, q1, r1) = choose|p1: int, q1: int, r1: int| version4_dots(v, p1, q1, r1);
        assert forall|k: int| p <= k < p + p1 implies is_digit(s[k]) by {
            assert(v[k - p] == s[k]);
        }
        assert(s[p + p1] == v[p1]);
        lemma_scan_forced(s, p, e1, p + p1);
        assert forall|k: int| e1 + 1 <= k < p + q1 implies is_digit(s[k]) by {
            assert(v[k - p] == s[k]);
        }
        lemma_scan_forced(s, e1 + 1, e2, p + q1);
        assert forall|k: int| e2 + 1 <= k < p + r1 implies is_digit(s[k]) by {
            assert(v[k - p] == s[k]);
        }
        assert(s[p + r1] == v[r1]);
        lemma_scan_forced(s, e2 + 1, e3, p + r1);
    }
}

/// Where the third run ends on a dot, the version has four parts: the fourth
/// run ends exactly where the version ends.
proof fn lemma_sig_run_d(s: Seq<u8>, i: int, n: int, e1: int, e2: int, e3: int, e4: int)
    requires
        sig_at_len(s, i, n),
        is_scan(s, i + 8, e1),
        is_scan(s, e1 + 1, e2),
        is_scan(s, e2 + 1, e3),
        e3 < s.len(),
        s[e3] == '.' as u8,
        is_scan(s, e3 + 1, e4),
    ensures
        e3 + 1 < e4,
        e4 == i + 8 + n,
{
    let p = i + 8;
    let v = s.subrange(p, p + n);
    lemma_sig_run_c(s, i, n, e1, e2, e3);
    assert(s[p + n] == sig_suffix()[0]);
    if exists|p1: int, q1: int| version3_dots(v, p1, q1) {
        // a three-part version would end at e3, on a space, not on this dot
        let (p1, q1) = choose|p1: int, q1: int| version3_dots(v, p1, q1);
        assert forall|k: int| p <= k < p + p1 implies is_digit(s[k]) by {
            assert(v[k - p] == s[k]);
        }
        assert(s[p + p1] == v[p1]);
        lemma_scan_forced(s, p, e1, p + p1);
        assert forall|k: int| e1 + 1 <= k < p + q1 implies is_digit(s[k]) by {
            assert(v[k - p] == s[k]);
        }
        lemma_scan_forced(s, e1 + 1, e2, p + q1);
        assert forall|k: int| e2 + 1 <= k < p + n implies is_digit(s[k]) by {
            assert(v[k - p] == s[k]);
        }
        lemma_scan_forced(s, e2 + 1, e3, p + n);
        assert(s[e3] == ' ' as u8);
    } else {
        let (p1, q1, r1) = choose|p1: int, q1: int, r1: int| version4_dots(v, p1, q1, r1);
        assert forall|k: int| p <= k < p + p1 implies is_digit(s[k]) by {
            assert(v[k - p] == s[k]);
        }
        assert(s[p + p1] == v[p1]);
        lemma_scan_forced(s, p, e1, p + p1);
        assert forall|k: int| e1 + 1 <= k < p + q1 implies is_digit(s[k]) by {
            assert(v[k - p] == s[k]);
        }
        lemma_scan_forced(s, e1 + 1, e2, p + q1);
        assert forall|k: int| e2 + 1 <= k < p + r1 implies is_digit(s[k]) by {
            assert(v[k - p] == s[k]);
        }
        assert(s[p + r1] == v[r1]);
        lemma_scan_forced(s, e2 + 1, e3, p + r1);
        assert forall|k: int| e3 + 1 <= k < p + n implies is_digit(s[k]) by {
            assert(v[k - p] == s[k]);
        }
        lemma_scan_forced(s, e3 + 1, e4, p + n);
    }
}

/// Where a digit scan that starts at `from` stops: at the first byte from
/// `from` on that is not a decimal digit, or at the end of `s`.
pub fn scan_digits(s: &[u8], from: usize) -> (e: usize)
    requires
        from <= s@.len(),
    ensures
        from <= e <= s@.len(),
        is_scan(s@, from as int, e as int),
{
    let n = s.len();
    let mut e = from;
    while e < n
        invariant
            from <= e <= n,
            n == s@.len(),
            forall|k: int| from <= k < e ==> is_digit(s@[k]),
        decreases n - e,
    {
        if !crate::text::digit(s[e]) {
            return e;
        }
        e += 1;
    }
    e
}

/// the bytes of `"Tasmota "`, for the matcher to compare against
fn sig_prefix_vec() -> (r: Vec<u8>)
    ensures
        r@ == sig_prefix(),
{
    let mut v: Vec<u8> = Vec::new();
    v.push('T' as u8);
    v.push('a' as u8);
    v.push('s' as u8);
    v.push('m' as u8);
    v.push('o' as u8);
    v.push('t' as u8);
    v.push('a' as u8);
    v.push(' ' as u8);
    proof {
        assert(v@ =~= sig_prefix());
    }
    v
}

/// the bytes of `" by Theo Arends"`, for the matcher to compare against
fn sig_suffix_vec() -> (r: Vec<u8>)
    ensures
        r@ == sig_suffix(),
{
    let mut v: Vec<u8> = Vec::new();
    v.push(' ' as u8);
    v.push('b' as u8);
    v.push('y' as u8);
    v.push(' ' as u8);
    v.push('T' as u8);
    v.push('h' as u8);
    v.push('e' as u8);
    v.push('o' as u8);
    v.push(' ' as u8);
    v.push('A' as u8);
    v.push('r' as u8);
    v.push('e' as u8);
    v.push('n' as u8);
    v.push('d' as u8);
    v.push('s' as u8);
    proof {
        assert(v@ =~= sig_suffix());
    }
    v
}

/// Try the signature at position `i`. `Some(q)` says it stands there with its
/// version ending at `q`; `None` says it does not stand at `i` at all.
fn try_sig_at(body: &[u8], i: usize, pre: &[u8], suf: &[u8]) -> (r: Option<usize>)
    requires
        pre@ == sig_prefix(),
        suf@ == sig_suffix(),
        i <= body@.len(),
    ensures
        r matches Some(q) ==> i + 8 <= q <= body@.len() && sig_at_len(
            body@,
            i as int,
            q as int - i as int - 8,
        ),
        r is None ==> !sig_at(body@, i as int),
{
    let blen = body.len();
    if blen - i < 8 {
        return None;
    }
    if !crate::text::bytes_eq_at(body, i, pre) {
        return None;
    }
    let p = i + 8;
    let e1 = scan_digits(body, p);
    if e1 == p || e1 == blen || body[e1] != '.' as u8 {
        proof {
            assert forall|n: int| !sig_at_len(body@, i as int, n) by {
                if sig_at_len(body@, i as int, n) {
                    lemma_sig_run_a(body@, i as int, n, e1 as int);
                }
            }
        }
        return None;
    }
    let e2 = scan_digits(body, e1 + 1);
    if e2 == e1 + 1 || e2 == blen || body[e2] != '.' as u8 {
        proof {
            assert forall|n: int| !sig_at_len(body@, i as int, n) by {
                if sig_at_len(body@, i as int, n) {
                    lemma_sig_run_b(body@, i as int, n, e1 as int, e2 as int);
                }
            }
        }
        return None;
    }
    let e3 = scan_digits(body, e2 + 1);
    if e3 == e2 + 1 {
        proof {
            assert forall|n: int| !sig_at_len(body@, i as int, n) by {
                if sig_at_len(body@, i as int, n) {
                    lemma_sig_run_c(body@, i as int, n, e1 as int, e2 as int, e3 as int);
                }
            }
        }
        return None;
    }
    let vend: usize;
    if e3 < blen && body[e3] == '.' as u8 {
        let e4 = scan_digits(body, e3 + 1);
        if e4 == e3 + 1 {
            proof {
                assert forall|n: int| !sig_at_len(body@, i as int, n) by {
                    if sig_at_len(body@, i as int, n) {
                        lemma_sig_run_d(
                            body@,
                            i as int,
                            n,
                            e1 as int,
                            e2 as int,
                            e3 as int,
                            e4 as int,
                        );
                    }
                }
            }
            return None;
        }
        vend = e4;
    } else {
        vend = e3;
    }
    if blen - vend < 15 || !crate::text::bytes_eq_at(body, vend, suf) {
        proof {
            assert forall|n: int| !sig_at_len(body@, i as int, n) by {
                if sig_at_len(body@, i as int, n) {
                    if e3 < body@.len() && body@[e3 as int] == '.' as u8 {
                        lemma_sig_run_d(
                            body@,
                            i as int,
                            n,
                            e1 as int,
                            e2 as int,
                            e3 as int,
                            vend as int,
                        );
                    } else {
                        lemma_sig_run_c(body@, i as int, n, e1 as int, e2 as int, e3 as int);
                    }
                    assert(contains_at(body@, i as int + 8 + n, sig_suffix()));
                }
            }
        }
        return None;
    }
    proof {
        let s = body@;
        let p_: int = i as int + 8;
        let n = vend as int - p_;
        let v = s.subrange(p_, p_ + n);
        if e3 < s.len() && s[e3 as int] == '.' as u8 && vend != e3 {
            assert(version4_dots(v, e1 as int - p_, e2 as int - p_, e3 as int - p_)) by {
                assert forall|k: int|
                    0 <= k < v.len() && k != e1 as int - p_ && k != e2 as int - p_ && k != e3
                        as int - p_ implies is_digit(v[k]) by {
                    assert(v[k] == s[p_ + k]);
                }
            }
        } else {
            assert(version3_dots(v, e1 as int - p_, e2 as int - p_)) by {
                assert forall|k: int|
                    0 <= k < v.len() && k != e1 as int - p_ && k != e2 as int - p_ implies is_digit(
                    v[k],
                ) by {
                    assert(v[k] == s[p_ + k]);
                }
            }
        }
        assert(sig_at_len(s, i as int, n));
    }
    Some(vend)
}

/// Scan a page for the Tasmota signature. The result is the version of the
/// first signature in the page, or `None` where no signature stands in it.
pub fn check_is_tasmota(body: &[u8]) -> (r: Option<String>)
    ensures
        r is Some <==> has_sig(body@),
        opt_chars(r) == version_chars_of(body@),
{
    let pre = sig_prefix_vec();
    let suf = sig_suffix_vec();
    let n = body.len();
    let mut i: usize = 0;
    while i < n
        invariant
            n == body@.len(),
            i <= n,
            pre@ == sig_prefix(),
            suf@ == sig_suffix(),
            forall|j: int| 0 <= j < i ==> !sig_at(body@, j),
        decreases n - i,
    {
        match try_sig_at(body, i, pre.as_slice(), suf.as_slice()) {
            Some(q) => {
                proof {
                    let s = body@;
                    let vn: int = q as int - i as int - 8;
                    assert(sig_at(s, i as int));
                    assert(first_sig_at(s, i as int));
                    let ci = choose|ci: int| first_sig_at(s, ci);
                    lemma_first_sig_unique(s, ci, i as int);
                    let cn = choose|cn: int| sig_at_len(s, i as int, cn);
                    lemma_sig_len_unique(s, i as int, cn, vn);
                    lemma_version_bytes(s.subrange(i as int + 8, q as int));
                }
                let vslice = vstd::slice::slice_subrange(body, i + 8, q);
                let ver = crate::text::ascii_to_string(vslice);
                return Some(ver);
            },
            None => {
                i += 1;
            },
        }
    }
    proof {
        assert forall|j: int| !sig_at(body@, j) by {
            if sig_at(body@, j) {
                let nn = choose|nn: int| sig_at_len(body@, j, nn);
                assert(contains_at(body@, j, sig_prefix()));
            }
        }
    }
    None
}

/// Where the first signature in a body carries version `v`, the matcher's
/// result is exactly `v`. This is the law behind `Tasmota 9.5.0 by Theo
/// Arends` yielding `9.5.0`, and `Tasmota 12.1.1.2 by Theo Arends` yielding
/// the four-part `12.1.1.2`.
pub proof fn lemma_first_signature_version(s: Seq<u8>, i: int, n: int)
    requires
        sig_at_len(s, i, n),
        forall|j: int| 0 <= j < i ==> !sig_at(s, j),
    ensures
        has_sig(s),
        sig_version(s) == Some(s.subrange(i + 8, i + 8 + n)),
        version_chars_of(s) == Some(ascii_seq(s.subrange(i + 8, i + 8 + n))),
{
    assert(sig_at(s, i));
    assert(first_sig_at(s, i));
    let ci = choose|ci: int| first_sig_at(s, ci);
    lemma_first_sig_unique(s, ci, i);
    let cn = choose|cn: int| sig_at_len(s, i, cn);
    lemma_sig_len_unique(s, i, cn, n);
}

/// A body in which `Theo Arends` nowhere occurs holds no signature at all:
/// the matcher reports nothing, never a partial match.
pub proof fn lemma_no_theo_arends_no_sig(s: Seq<u8>)
    requires
        forall|j: int| !contains_at(s, j, theo_arends()),
    ensures
        !has_sig(s),
        version_chars_of(s) is None,
{
    assert forall|i: int| !sig_at(s, i) by {
        if sig_at(s, i) {
            let n = choose|n: int| sig_at_len(s, i, n);
            assert(contains_at(s, i + 8 + n + 4, theo_arends())) by {
                assert forall|k: int| 0 <= k < theo_arends().len() implies s[i + 8 + n + 4 + k]
                    == theo_arends()[k] by {
                    assert(s[(i + 8 + n) + (4 + k)] == sig_suffix()[4 + k]);
                    assert(theo_arends()[k] == sig_suffix()[4 + k]);
                }
            }
        }
    }
}

} // verus!
