//! MAC address extraction. A device's status page carries its network MAC
//! address as six colon-separated pairs of uppercase hex digits; this module
//! finds the first such run in a page.

use vstd::prelude::*;

use crate::text::{ascii_seq, is_display_byte, is_upper_hex, opt_chars, upper_hex};

verus! {

/// What the byte at `j` must be inside a MAC that starts at `i`: a colon at
/// every third position, an uppercase hex digit elsewhere.
pub open spec fn mac_byte(s: Seq<u8>, i: int, j: int) -> bool {
    if (j - i) % 3 == 2 {
        s[j] == ':' as u8
    } else {
        is_upper_hex(s[j])
    }
}

/// A MAC address, `XX:XX:XX:XX:XX:XX` in uppercase hex, stands in `s` at
/// position `i`.
pub open spec fn mac_at(s: Seq<u8>, i: int) -> bool {
    &&& 0 <= i
    &&& i + 17 <= s.len()
    &&& forall|j: int| i <= j < i + 17 ==> mac_byte(s, i, j)
}

/// Some MAC address stands in `s`.
pub open spec fn has_mac(s: Seq<u8>) -> bool {
    exists|i: int| mac_at(s, i)
}

/// A MAC address stands at `i` and nowhere earlier.
pub open spec fn first_mac_at(s: Seq<u8>, i: int) -> bool {
    mac_at(s, i) && forall|j: int| 0 <= j < i ==> !mac_at(s, j)
}

/// The seventeen bytes of the first MAC address in `s`, if one stands in it.
pub open spec fn mac_bytes(s: Seq<u8>) -> Option<Seq<u8>> {
    if has_mac(s) {
        let i = choose|i: int| first_mac_at(s, i);
        Some(s.subrange(i, i + 17))
    } else {
        None
    }
}

/// The first MAC address in `s`, as text.
pub open spec fn mac_chars_of(s: Seq<u8>) -> Option<Seq<char>> {
    match mac_bytes(s) {
        Some(b) => Some(ascii_seq(b)),
        None => None,
    }
}

/// Only one position is the first.
pub proof fn lemma_first_mac_unique(s: Seq<u8>, i1: int, i2: int)
    requires
        first_mac_at(s, i1),
        first_mac_at(s, i2),
    ensures
        i1 == i2,
{
}

/// Does a MAC address stand at position `i`?
fn mac_match_at(body: &[u8], i: usize) -> (r: bool)
    requires
        i + 17 <= body@.len(),
    ensures
        r == mac_at(body@, i as int),
{
    let bl = body.len();
    let mut k: usize = 0;
    while k < 17
        invariant
            k <= 17,
            bl == body@.len(),
            i + 17 <= bl,
            forall|j: int| i <= j < i + k ==> mac_byte(body@, i as int, j),
        decreases 17 - k,
    {
        if k % 3 == 2 {
            if body[i + k] != ':' as u8 {
                proof {
                    assert(!mac_byte(body@, i as int, i as int + k as int));
                }
                return false;
            }
        } else {
            if !upper_hex(body[i + k]) {
                proof {
                    assert(!mac_byte(body@, i as int, i as int + k as int));
                }
                return false;
            }
        }
        proof {
            assert(mac_byte(body@, i as int, i as int + k as int));
        }
        k += 1;
    }
    true
}

/// Scan a page for a MAC address. The result is the first one in the page,
/// as text, or `None` where no uppercase colon-separated MAC stands in it.
pub fn get_mac_address(body: &[u8]) -> (r: Option<String>)
    ensures
        r is Some <==> has_mac(body@),
        opt_chars(r) == mac_chars_of(body@),
{
    let bl = body.len();
    if bl < 17 {
        proof {
            assert(forall|i: int| !mac_at(body@, i));
        }
        return None;
    }
    let last = bl - 17;
    let mut i: usize = 0;
    while i <= last
        invariant
            bl == body@.len(),
            17 <= bl,
            last == bl - 17,
            i <= last + 1,
            forall|j: int| 0 <= j < i ==> !mac_at(body@, j),
        decreases last - i + 1,
    {
        if mac_match_at(body, i) {
            proof {
                let s = body@;
                assert(first_mac_at(s, i as int));
                let ci = choose|ci: int| first_mac_at(s, ci);
                lemma_first_mac_unique(s, ci, i as int);
                assert forall|j: int| i <= j < i + 17 implies #[trigger] is_display_byte(s[j]) by {
                    assert(mac_byte(s, i as int, j));
                }
            }
            let mslice = vstd::slice::slice_subrange(body, i, i + 17);
            return Some(crate::text::ascii_to_string(mslice));
        }
        i += 1;
    }
    proof {
        assert forall|j: int| !mac_at(body@, j) by {
            if mac_at(body@, j) {
                assert(0 <= j && j + 17 <= bl);
            }
        }
    }
    None
}

/// Where the first MAC-shaped run in a body stands at `i`, extraction returns
/// exactly those seventeen bytes — whatever else surrounds them. Lowercase
/// hex never forms such a run: [`mac_at`] admits only `0`-`9` and `A`-`F`.
pub proof fn lemma_first_mac(s: Seq<u8>, i: int)
    requires
        mac_at(s, i),
        forall|j: int| 0 <= j < i ==> !mac_at(s, j),
    ensures
        has_mac(s),
        mac_bytes(s) == Some(s.subrange(i, i + 17)),
        mac_chars_of(s) == Some(ascii_seq(s.subrange(i, i + 17))),
{
    assert(first_mac_at(s, i));
    let ci = choose|ci: int| first_mac_at(s, ci);
    lemma_first_mac_unique(s, ci, i);
}

} // verus!
