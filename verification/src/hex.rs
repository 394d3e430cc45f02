//! The text form of the notes file: every byte of the encrypted file as two
//! hexadecimal digits.

use vstd::prelude::*;

verus! {

/// The lowercase hexadecimal digit (as an ASCII byte) of a value below 16.
pub open spec fn hex_digit(d: nat) -> u8 {
    if d < 10 {
        (48 + d) as u8
    } else {
        (87 + d) as u8
    }
}

/// The bytes written as hexadecimal text, two lowercase digits a byte,
/// the high digit first.
pub open spec fn hex_encode(b: Seq<u8>) -> Seq<u8>
    decreases b.len(),
{
    if b.len() == 0 {
        Seq::empty()
    } else {
        hex_encode(b.drop_last()) + seq![hex_digit(b.last() as nat / 16), hex_digit(b.last() as nat % 16)]
    }
}

/// The value of a hexadecimal digit (`0`-`9`, `a`-`f`, `A`-`F`), if it is
/// one.
pub open spec fn hex_value(c: u8) -> Option<nat> {
    if 48 <= c <= 57 {
        Some((c - 48) as nat)
    } else if 97 <= c <= 102 {
        Some((c - 87) as nat)
    } else if 65 <= c <= 70 {
        Some((c - 55) as nat)
    } else {
        None
    }
}

/// The bytes a hexadecimal text stands for: `None` for an odd number of
/// digits or a character that is no digit.
pub open spec fn hex_decode(h: Seq<u8>) -> Option<Seq<u8>>
    decreases h.len(),
{
    if h.len() == 0 {
        Some(Seq::empty())
    } else if h.len() == 1 {
        None
    } else {
        match (hex_decode(h.subrange(0, h.len() - 2)), hex_value(h[h.len() - 2]), hex_value(h[h.len() - 1])) {
            (Some(p), Some(a), Some(b)) => Some(p.push((a * 16 + b) as u8)),
            _ => None,
        }
    }
}

/// Reading the hexadecimal text of some bytes gives those bytes back.
pub proof fn lemma_hex_round_trip(b: Seq<u8>)
    ensures
        hex_decode(hex_encode(b)) == Some(b),
        hex_encode(b).len() == 2 * b.len(),
    decreases b.len(),
{
    if b.len() > 0 {
        lemma_hex_round_trip(b.drop_last());
        let h = hex_encode(b);
        let x = b.last() as nat;
        assert(h.subrange(0, h.len() - 2) =~= hex_encode(b.drop_last()));
        assert(hex_value(hex_digit(x / 16)) == Some(x / 16));
        assert(hex_value(hex_digit(x % 16)) == Some(x % 16));
        assert((x / 16) * 16 + x % 16 == x);
        assert(b.drop_last().push(b.last()) =~= b);
    }
}

/// The lowercase hexadecimal digit of a value below 16.
fn digit_of(d: u8) -> (c: u8)
    requires
        d < 16,
    ensures
        c == hex_digit(d as nat),
{
    if d < 10 {
        48 + d
    } else {
        87 + d
    }
}

/// The value of a hexadecimal digit (see `hex_value`).
fn value_of(c: u8) -> (r: Option<u8>)
    ensures
        match r {
            Some(v) => hex_value(c) == Some(v as nat),
            None => hex_value(c) is None,
        },
{
    if 48 <= c && c <= 57 {
        Some(c - 48)
    } else if 97 <= c && c <= 102 {
        Some(c - 87)
    } else if 65 <= c && c <= 70 {
        Some(c - 55)
    } else {
        None
    }
}

/// Writes bytes as hexadecimal text (see `hex_encode`).
pub fn to_hex(b: &[u8]) -> (r: Vec<u8>)
    ensures
        r@ == hex_encode(b@),
{
    let mut r: Vec<u8> = Vec::new();
    let mut i: usize = 0;
    while i < b.len()
        invariant
            i <= b@.len(),
            r@ == hex_encode(b@.subrange(0, i as int)),
        decreases b@.len() - i,
    {
        assert(b@.subrange(0, i + 1).drop_last() =~= b@.subrange(0, i as int));
        let x = b[i];
        r.push(digit_of(x / 16));
        r.push(digit_of(x % 16));
        i = i + 1;
    }
    assert(b@.subrange(0, i as int) =~= b@);
    r
}

/// Reads hexadecimal text back into bytes (see `hex_decode`).
pub fn from_hex(h: &[u8]) -> (r: Option<Vec<u8>>)
    ensures
        match r {
            Some(v) => hex_decode(h@) == Some(v@),
            None => hex_decode(h@) is None,
        },
{
    if h.len() % 2 == 1 {
        proof {
            lemma_odd_fails(h@);
        }
        return None;
    }
    let mut r: Vec<u8> = Vec::new();
    let mut i: usize = 0;
    while i < h.len()
        invariant
            i <= h@.len(),
            i % 2 == 0,
            h@.len() % 2 == 0,
            hex_decode(h@.subrange(0, i as int)) == Some(r@),
        decreases h@.len() - i,
    {
        let ghost pre = h@.subrange(0, i + 2);
        assert(pre.subrange(0, pre.len() - 2) =~= h@.subrange(0, i as int));
        assert(pre[pre.len() - 2] == h@[i as int] && pre[pre.len() - 1] == h@[i + 1]);
        let a = value_of(h[i]);
        let b = value_of(h[i + 1]);
        match (a, b) {
            (Some(a), Some(b)) => {
                r.push(a * 16 + b);
            },
            _ => {
                proof {
                    lemma_prefix_fails(h@, i as int + 2);
                }
                return None;
            },
        }
        i = i + 2;
    }
    assert(h@.subrange(0, i as int) =~= h@);
    Some(r)
}

/// A text with an odd number of characters is no hexadecimal text.
proof fn lemma_odd_fails(h: Seq<u8>)
    requires
        h.len() % 2 == 1,
    ensures
        hex_decode(h) is None,
    decreases h.len(),
{
    if h.len() > 1 {
        lemma_odd_fails(h.subrange(0, h.len() - 2));
    }
}

/// A text whose first `k` characters (an even number) are no hexadecimal
/// text is none either.
proof fn lemma_prefix_fails(h: Seq<u8>, k: int)
    requires
        0 <= k <= h.len(),
        k % 2 == 0,
        h.len() % 2 == 0,
        hex_decode(h.subrange(0, k)) is None,
    ensures
        hex_decode(h) is None,
    decreases h.len() - k,
{
    if k < h.len() {
        let pre = h.subrange(0, k + 2);
        assert(pre.subrange(0, pre.len() - 2) =~= h.subrange(0, k));
        lemma_prefix_fails(h, k + 2);
    } else {
        assert(h.subrange(0, k) =~= h);
    }
}

} // verus!
