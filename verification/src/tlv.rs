//! NDN's type-length-value encoding: variable-width numbers and the extent of
//! one element at the front of a byte string.

use vstd::prelude::*;

verus! {

/// The number that a byte string denotes, most significant byte first.
pub open spec fn be_value(s: Seq<u8>) -> nat
    decreases s.len(),
{
    if s.len() == 0 {
        0
    } else {
        be_value(s.drop_last()) * 256 + s.last() as nat
    }
}

/// `256` to the power `n`.
pub open spec fn pow256(n: nat) -> nat
    decreases n,
{
    if n == 0 {
        1
    } else {
        256 * pow256((n - 1) as nat)
    }
}

/// How many bytes a variable-width number takes whose first byte is `first`.
pub open spec fn varnumber_width(first: u8) -> nat {
    if first <= 252 {
        1
    } else if first == 253 {
        3
    } else if first == 254 {
        5
    } else {
        9
    }
}

/// The variable-width number at the front of `s`: its value and its width, or
/// `None` where `s` ends before it does.
pub open spec fn varnumber(s: Seq<u8>) -> Option<(nat, nat)> {
    if s.len() == 0 || s.len() < varnumber_width(s[0]) {
        None
    } else if s[0] <= 252 {
        Some((s[0] as nat, 1))
    } else {
        let width = varnumber_width(s[0]);
        Some((be_value(s.subrange(1, width as int)), width))
    }
}

/// The header of the element at the front of `s`: its type, where its value
/// starts, and how long the value is.
pub open spec fn tlv_header(s: Seq<u8>) -> Option<(nat, nat, nat)> {
    match varnumber(s) {
        None => None,
        Some((typ, type_width)) => match varnumber(s.skip(type_width as int)) {
            None => None,
            Some((length, length_width)) => Some((typ, type_width + length_width, length)),
        },
    }
}

/// Where the element at the front of `s` ends, or `None` where `s` does not
/// hold the whole of it.
pub open spec fn tlv_end(s: Seq<u8>) -> Option<nat> {
    match tlv_header(s) {
        None => None,
        Some((_, start, length)) => if start + length <= s.len() {
            Some(start + length)
        } else {
            None
        },
    }
}

proof fn lemma_be_value_bound(s: Seq<u8>)
    ensures
        be_value(s) < pow256(s.len()),
    decreases s.len(),
{
    if s.len() > 0 {
        lemma_be_value_bound(s.drop_last());
    }
}

proof fn lemma_pow256_small()
    ensures
        pow256(0) == 1,
        pow256(1) == 256,
        pow256(2) == 0x1_0000,
        pow256(3) == 0x100_0000,
        pow256(4) == 0x1_0000_0000,
        pow256(5) == 0x100_0000_0000,
        pow256(6) == 0x1_0000_0000_0000,
        pow256(7) == 0x100_0000_0000_0000,
        pow256(8) == 0x1_0000_0000_0000_0000,
{
    reveal_with_fuel(pow256, 9);
}

/// Reads the big-endian number in `buf[from..to]`.
pub fn read_be(buf: &[u8], from: usize, to: usize) -> (value: u64)
    requires
        from <= to <= buf@.len(),
        to - from <= 8,
    ensures
        value == be_value(buf@.subrange(from as int, to as int)),
{
    let mut value: u64 = 0;
    let mut i: usize = from;
    while i < to
        invariant
            from <= i <= to <= buf@.len(),
            to - from <= 8,
            value == be_value(buf@.subrange(from as int, i as int)),
        decreases to - i,
    {
        let ghost done = buf@.subrange(from as int, i as int);
        let ghost next = buf@.subrange(from as int, i + 1);
        proof {
            lemma_be_value_bound(done);
            lemma_pow256_small();
            assert(next.drop_last() =~= done);
        }
        value = value * 256 + buf[i] as u64;
        i = i + 1;
    }
    value
}

/// Parses the variable-width number at the front of `buf` into its value and
/// its width.
pub fn parse_varnumber(buf: &[u8]) -> (parsed: Option<(u64, usize)>)
    ensures
        parsed is Some <==> varnumber(buf@) is Some,
        parsed matches Some((value, width)) ==> varnumber(buf@) == Some(
            (value as nat, width as nat),
        ) && 1 <= width <= buf@.len(),
{
    if buf.len() == 0 {
        return None;
    }
    let first: u8 = buf[0];
    let width: usize = if first <= 252 {
        1
    } else if first == 253 {
        3
    } else if first == 254 {
        5
    } else {
        9
    };
    if buf.len() < width {
        return None;
    }
    if width == 1 {
        return Some((first as u64, 1));
    }
    let value: u64 = read_be(buf, 1, width);
    Some((value, width))
}

/// Parses the header of the element at the front of `buf` into its type, the
/// place where its value starts, and the value's length.
pub fn parse_tlv_header(buf: &[u8]) -> (parsed: Option<(u64, usize, u64)>)
    ensures
        parsed is Some <==> tlv_header(buf@) is Some,
        parsed matches Some((typ, start, length)) ==> tlv_header(buf@) == Some(
            (typ as nat, start as nat, length as nat),
        ) && 2 <= start <= buf@.len(),
{
    match parse_varnumber(buf) {
        None => None,
        Some((typ, type_width)) => {
            let rest = vstd::slice::slice_subrange(buf, type_width, buf.len());
            assert(rest@ =~= buf@.skip(type_width as int));
            match parse_varnumber(rest) {
                None => None,
                Some((length, length_width)) => Some((typ, type_width + length_width, length)),
            }
        },
    }
}

/// Where the element at the front of `buf` ends, if `buf` holds all of it.
pub fn tlv_packet_end(buf: &[u8]) -> (end: Option<usize>)
    ensures
        end is Some <==> tlv_end(buf@) is Some,
        end matches Some(e) ==> tlv_end(buf@) == Some(e as nat) && 2 <= e <= buf@.len(),
{
    match parse_tlv_header(buf) {
        None => None,
        Some((_, start, length)) => {
            let room: usize = buf.len() - start;
            if length <= room as u64 {
                Some(start + length as usize)
            } else {
                None
            }
        },
    }
}

/// A number that is complete at the front of a byte string is the same number,
/// with the same width, whatever bytes follow.
pub proof fn law_varnumber_prefix(s: Seq<u8>, n: int)
    requires
        0 <= n <= s.len(),
        varnumber(s.take(n)) is Some,
    ensures
        varnumber(s) == varnumber(s.take(n)),
{
    let width = varnumber_width(s[0]) as int;
    assert(s.take(n)[0] == s[0]);
    assert(s.take(n).subrange(1, width) =~= s.subrange(1, width));
}

/// Bytes are read most significant first: one more byte behind a number makes it
/// two hundred and fifty-six times as large, and counts once.
pub proof fn law_number_grows_by_bytes(s: Seq<u8>, high: u8, low: u8)
    ensures
        be_value(Seq::empty()) == 0,
        be_value(seq![low]) == low,
        be_value(seq![high, low]) == 256 * high + low,
        be_value(s.push(low)) == 256 * be_value(s) + low,
{
    reveal_with_fuel(be_value, 3);
    assert(seq![high, low].drop_last() =~= seq![high]);
    assert(seq![high].drop_last() =~= Seq::empty());
    assert(seq![low].drop_last() =~= Seq::empty());
    assert(s.push(low).drop_last() =~= s);
}

/// A variable-width number is read as it is written: a number below 253 in one
/// byte of its own, and larger ones behind the bytes 253, 254 and 255 in two, four
/// and eight bytes. Cut short, it is none.
pub proof fn law_varnumber_is_read_back(n: u8, bytes: Seq<u8>, rest: Seq<u8>)
    ensures
        n < 253 ==> varnumber(seq![n] + rest) == Some((n as nat, 1nat)),
        bytes.len() == 2 ==> varnumber(seq![253u8] + bytes + rest) == Some((be_value(bytes), 3nat)),
        bytes.len() == 4 ==> varnumber(seq![254u8] + bytes + rest) == Some((be_value(bytes), 5nat)),
        bytes.len() == 8 ==> varnumber(seq![255u8] + bytes + rest) == Some((be_value(bytes), 9nat)),
        varnumber(Seq::empty()) is None,
        bytes.len() < 2 ==> varnumber(seq![253u8] + bytes) is None,
        bytes.len() < 4 ==> varnumber(seq![254u8] + bytes) is None,
        bytes.len() < 8 ==> varnumber(seq![255u8] + bytes) is None,
{
    let two = seq![253u8] + bytes + rest;
    let four = seq![254u8] + bytes + rest;
    let eight = seq![255u8] + bytes + rest;
    if bytes.len() == 2 {
        assert(two.subrange(1, 3) =~= bytes);
    }
    if bytes.len() == 4 {
        assert(four.subrange(1, 5) =~= bytes);
    }
    if bytes.len() == 8 {
        assert(eight.subrange(1, 9) =~= bytes);
    }
}

/// An element ends where its value does: it is its type, the length of its value
/// and the value, and whatever follows is not part of it.
pub proof fn law_element_ends_with_its_value(
    typ: nat,
    type_bytes: Seq<u8>,
    length_bytes: Seq<u8>,
    value: Seq<u8>,
    rest: Seq<u8>,
)
    requires
        varnumber(type_bytes) == Some((typ, type_bytes.len())),
        varnumber(length_bytes) == Some((value.len(), length_bytes.len())),
    ensures
        ({
            let s = type_bytes + length_bytes + value + rest;
            let start = type_bytes.len() + length_bytes.len();
            &&& tlv_header(s) == Some((typ, start, value.len()))
            &&& tlv_end(s) == Some(start + value.len())
        }),
{
    let s = type_bytes + length_bytes + value + rest;
    let w = type_bytes.len() as int;
    let v = length_bytes.len() as int;
    assert(s.take(w) =~= type_bytes);
    law_varnumber_prefix(s, w);
    assert(s.skip(w).take(v) =~= length_bytes);
    law_varnumber_prefix(s.skip(w), v);
}

/// One whole element at the front is found whatever bytes follow.
pub proof fn law_end_is_local(s: Seq<u8>, rest: Seq<u8>)
    requires
        tlv_end(s) is Some,
    ensures
        tlv_end(s + rest) == tlv_end(s),
        tlv_header(s + rest) == tlv_header(s),
{
    let whole = s + rest;
    assert(whole.take(s.len() as int) =~= s);
    law_varnumber_prefix(whole, s.len() as int);
    let w = (varnumber(s)->0).1 as int;
    assert(whole.skip(w).take(s.len() - w) =~= s.skip(w));
    law_varnumber_prefix(whole.skip(w), s.len() - w);
}

/// No proper prefix of one whole element is itself a whole element: the end is
/// found exactly when the last byte has arrived.
pub proof fn law_no_early_end(s: Seq<u8>, n: int)
    requires
        tlv_end(s) == Some(s.len()),
        0 <= n < s.len(),
    ensures
        tlv_end(s.take(n)) is None,
{
    let t = s.take(n);
    if tlv_header(t) is Some {
        law_varnumber_prefix(s, n);
        let type_width = (varnumber(t)->0).1 as int;
        assert(t.skip(type_width) =~= s.skip(type_width).take(n - type_width));
        law_varnumber_prefix(s.skip(type_width), n - type_width);
    }
}

/// The header of an element depends on no byte past the header.
pub proof fn law_header_is_local(s: Seq<u8>, t: Seq<u8>)
    requires
        s.len() == t.len(),
        tlv_header(s) is Some,
        s.take((tlv_header(s)->0).1 as int) == t.take((tlv_header(s)->0).1 as int),
    ensures
        tlv_header(t) == tlv_header(s),
{
    let (typ, start, length) = tlv_header(s)->0;
    let n = start as int;
    let (_, type_width) = varnumber(s)->0;
    let w = type_width as int;
    assert(forall|i: int| 0 <= i < n ==> s[i] == s.take(n)[i] && t[i] == t.take(n)[i]);
    assert(s.take(n).take(w) =~= s.take(w));
    assert(t.take(n).take(w) =~= t.take(w));
    lemma_varnumber_own_bytes(s);
    law_varnumber_prefix(t, w);
    let a = s.skip(w);
    let b = t.skip(w);
    let v = n - w;
    lemma_varnumber_own_bytes(a);
    assert(a.take(v) =~= b.take(v)) by {
        assert(forall|i: int| 0 <= i < v ==> a[i] == s[i + w] && b[i] == t[i + w]);
    }
    law_varnumber_prefix(b, v);
}

proof fn lemma_varnumber_own_bytes(s: Seq<u8>)
    requires
        varnumber(s) is Some,
    ensures
        (varnumber(s)->0).1 <= s.len(),
        varnumber(s.take((varnumber(s)->0).1 as int)) == varnumber(s),
{
    let w = (varnumber(s)->0).1 as int;
    assert(s.take(w).subrange(1, w) =~= s.subrange(1, w));
}

} // verus!
