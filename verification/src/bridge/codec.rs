//! Packet helpers for BLE clients, which need no engine: the one-byte-header
//! fragmentation of the NDNts BLE profile, its reassembly, and the nonce of an
//! encoded Interest.

use crate::bridge::types::{ErrorView, NdnData, NdnError};
use crate::tlv::{law_no_early_end, parse_tlv_header, tlv_end, tlv_header, tlv_packet_end};
use vstd::prelude::*;

verus! {

/// Type number of an Interest.
pub const TLV_INTEREST: u64 = 0x05;

/// Type number of a Nonce.
pub const TLV_NONCE: u64 = 0x0A;

/// Bytes of packet that one fragment carries when a fragment is at most
/// `max_payload` long: one byte goes to the header, and a fragment always
/// carries something.
pub open spec fn fragment_step(max_payload: nat) -> nat {
    if max_payload <= 2 {
        1
    } else {
        (max_payload - 1) as nat
    }
}

/// How many fragments a packet of `len` bytes is cut into.
pub open spec fn fragment_count(len: nat, step: nat) -> nat {
    ((len + step - 1) / step as int) as nat
}

/// The header of fragment `k`: the high bit marks the first, the others count
/// modulo 128.
pub open spec fn fragment_header(k: int) -> u8 {
    if k == 0 {
        0x80
    } else {
        (k % 128) as u8
    }
}

/// The part of `packet` that fragment `k` carries.
pub open spec fn fragment_payload(packet: Seq<u8>, step: nat, k: int) -> Seq<u8> {
    packet.subrange(
        k * step,
        if (k + 1) * step <= packet.len() {
            (k + 1) * step
        } else {
            packet.len() as int
        },
    )
}

/// Fragment `k` of `packet`.
pub open spec fn fragment(packet: Seq<u8>, step: nat, k: int) -> Seq<u8> {
    seq![fragment_header(k)] + fragment_payload(packet, step, k)
}

/// The frames that `packet` is sent as: itself, without a header, where it
/// fits; otherwise its fragments in order.
pub open spec fn frames(packet: Seq<u8>, max_payload: nat) -> Seq<Seq<u8>> {
    let step = fragment_step(max_payload);
    if packet.len() <= max_payload {
        seq![packet]
    } else {
        Seq::new(fragment_count(packet.len(), step), |k: int| fragment(packet, step, k))
    }
}

/// The byte strings held by a list of byte vectors.
pub open spec fn views(list: Seq<Vec<u8>>) -> Seq<Seq<u8>> {
    Seq::new(list.len(), |i: int| list[i]@)
}

/// The fragments cover the packet exactly: all but the last end inside it, and
/// the last ends where it ends.
proof fn lemma_fragment_bounds(len: nat, step: nat, k: int)
    requires
        0 < step,
        0 < len,
        0 <= k < fragment_count(len, step),
    ensures
        0 <= k * step < len,
        (k + 1) * step == k * step + step,
        (k + 1) * step < len <==> k + 1 < fragment_count(len, step),
        k + 1 == fragment_count(len, step) ==> len <= (k + 1) * step,
{
    let d = step as int;
    let x = len + d - 1;
    let count = x / d;
    vstd::arithmetic::div_mod::lemma_fundamental_div_mod(x, d);
    vstd::arithmetic::div_mod::lemma_mod_bound(x, d);
    vstd::arithmetic::div_mod::lemma_div_pos_is_pos(x, d);
    assert(d * count == count * d) by (nonlinear_arith);
    assert((k + 1) * d == k * d + d) by (nonlinear_arith);
    assert(0 <= k * d) by (nonlinear_arith)
        requires
            0 <= k,
            0 < d,
    ;
    assert((k + 1) * d <= count * d) by (nonlinear_arith)
        requires
            k + 1 <= count,
            0 < d,
    ;
    if k + 1 < count {
        assert((k + 2) * d <= count * d) by (nonlinear_arith)
            requires
                k + 2 <= count,
                0 < d,
        ;
        assert((k + 2) * d == (k + 1) * d + d) by (nonlinear_arith);
    }
}

/// A packet that is too long for one frame is cut into at least one fragment.
proof fn lemma_fragment_count_positive(len: nat, step: nat)
    requires
        0 < step,
        0 < len,
    ensures
        0 < fragment_count(len, step),
{
    let d = step as int;
    vstd::arithmetic::div_mod::lemma_div_is_ordered(d, len + d - 1, d);
    vstd::arithmetic::div_mod::lemma_div_basics(d);
}

/// Packet-level helpers that need no engine.
pub struct NdnCodec;

impl NdnCodec {
    /// Cuts `packet` into frames of at most `max_payload` bytes. A packet that
    /// fits is sent as it is, without a header byte; otherwise the first
    /// fragment's header is `0x80` and the others count up modulo 128.
    pub fn ndnts_frame(packet: Vec<u8>, max_payload: u32) -> (out: Vec<Vec<u8>>)
        ensures
            views(out@) == frames(packet@, max_payload as nat),
            out@.len() == frames(packet@, max_payload as nat).len(),
            forall|k: int|
                0 <= k < out@.len() ==> (#[trigger] out@[k])@ == frames(
                    packet@,
                    max_payload as nat,
                )[k],
    {
        let max: usize = max_payload as usize;
        let ghost whole = packet@;
        if packet.len() <= max {
            let out: Vec<Vec<u8>> = alloc_vec(packet);
            assert(views(out@) =~= frames(whole, max_payload as nat));
            return out;
        }
        let step: usize = if max <= 2 {
            1
        } else {
            max - 1
        };
        let len: usize = packet.len();
        let ghost count = fragment_count(len as nat, step as nat);
        proof {
            lemma_fragment_count_positive(len as nat, step as nat);
        }
        let mut out: Vec<Vec<u8>> = Vec::new();
        let mut offset: usize = 0;
        let mut seq: u8 = 0;
        while offset < len
            invariant
                packet@ == whole,
                len == whole.len(),
                0 < len,
                0 < step <= len,
                step == fragment_step(max_payload as nat),
                count == fragment_count(len as nat, step as nat),
                0 <= out@.len() <= count,
                offset < len <==> out@.len() < count,
                offset < len ==> offset == out@.len() * step,
                seq == out@.len() as int % 128,
                forall|j: int|
                    0 <= j < out@.len() ==> (#[trigger] out@[j])@ == fragment(
                        whole,
                        step as nat,
                        j,
                    ),
            decreases count - out@.len(),
        {
            let ghost k = out@.len() as int;
            proof {
                lemma_fragment_bounds(len as nat, step as nat, k);
            }
            let end: usize = if len - offset <= step {
                len
            } else {
                offset + step
            };
            let mut frag: Vec<u8> = Vec::new();
            frag.push(if offset == 0 {
                0x80u8
            } else {
                seq
            });
            frag.extend_from_slice(vstd::slice::slice_subrange(packet.as_slice(), offset, end));
            proof {
                if k > 0 {
                    assert(0 < k * step) by (nonlinear_arith)
                        requires
                            0 < k,
                            0 < step,
                    ;
                }
                assert(frag@ =~= fragment(whole, step as nat, k));
            }
            out.push(frag);
            offset = end;
            seq = if seq == 127 {
                0
            } else {
                seq + 1
            };
        }
        assert(views(out@) =~= frames(whole, max_payload as nat));
        out
    }
}

fn alloc_vec(v: Vec<u8>) -> (out: Vec<Vec<u8>>)
    ensures
        out@ == seq![v],
{
    let mut out: Vec<Vec<u8>> = Vec::new();
    out.push(v);
    out
}

/// The bytes of `n`, most significant first.
pub open spec fn be_bytes(n: u32) -> Seq<u8> {
    seq![
        (n / 0x100_0000) as u8,
        ((n / 0x1_0000) % 256) as u8,
        ((n / 0x100) % 256) as u8,
        (n % 256) as u8,
    ]
}

/// Whether an element with this header is a Nonce of four bytes whose type and
/// length are written in one byte each.
pub open spec fn is_nonce_header(typ: nat, start: nat, length: nat) -> bool {
    typ == TLV_NONCE && start == 2 && length == 4
}

/// Where the value of the first Nonce starts among the elements that fill
/// `s[from..end]`.
pub open spec fn find_nonce(s: Seq<u8>, from: nat, end: nat) -> Option<nat>
    decreases end - from,
{
    if from >= end || end > s.len() {
        None
    } else {
        match tlv_header(s.subrange(from as int, end as int)) {
            None => None,
            Some((typ, start, length)) => if start + length > end - from {
                None
            } else if is_nonce_header(typ, start, length) {
                Some(from + start)
            } else if start == 0 {
                None
            } else {
                find_nonce(s, from + start + length, end)
            },
        }
    }
}

/// Where the nonce of an encoded Interest stands, if `s` is one and has one.
pub open spec fn nonce_offset(s: Seq<u8>) -> Option<nat> {
    match tlv_header(s) {
        None => None,
        Some((typ, start, length)) => if typ == TLV_INTEREST && start + length <= s.len() {
            find_nonce(s, start, start + length)
        } else {
            None
        },
    }
}

/// `s` with the nonce of the Interest it encodes overwritten.
pub open spec fn with_nonce(s: Seq<u8>, nonce: u32) -> Seq<u8> {
    match nonce_offset(s) {
        None => s,
        Some(at) => s.take(at as int) + be_bytes(nonce) + s.skip(at as int + 4),
    }
}

proof fn lemma_find_nonce_bounds(s: Seq<u8>, from: nat, end: nat)
    requires
        find_nonce(s, from, end) is Some,
    ensures
        from + 2 <= find_nonce(s, from, end)->0,
        find_nonce(s, from, end)->0 + 4 <= end <= s.len(),
        s[find_nonce(s, from, end)->0 - 2] == 0x0A,
        s[find_nonce(s, from, end)->0 - 1] == 0x04,
    decreases end - from,
{
    let rest = s.subrange(from as int, end as int);
    let (typ, start, length) = tlv_header(rest)->0;
    if is_nonce_header(typ, start, length) {
        assert(rest[0] == s[from as int]);
        assert(rest[1] == s[from as int + 1]);
        assert(rest.skip(1)[0] == rest[1]);
    } else {
        lemma_find_nonce_bounds(s, from + start + length, end);
    }
}

/// Where the nonce stands in the encoded Interest `buf`, if anywhere.
fn locate_nonce(buf: &[u8]) -> (at: Option<usize>)
    ensures
        at is Some <==> nonce_offset(buf@) is Some,
        at matches Some(i) ==> nonce_offset(buf@) == Some(i as nat) && i + 4 <= buf@.len(),
{
    let (typ, start, length): (u64, usize, u64) = match parse_tlv_header(buf) {
        None => return None,
        Some(header) => header,
    };
    if typ != TLV_INTEREST || length > (buf.len() - start) as u64 {
        return None;
    }
    let end: usize = start + length as usize;
    let mut from: usize = start;
    while from < end
        invariant
            from <= end <= buf@.len(),
            nonce_offset(buf@) == find_nonce(buf@, from as nat, end as nat),
        decreases end - from,
    {
        let rest = vstd::slice::slice_subrange(buf, from, end);
        match parse_tlv_header(rest) {
            None => return None,
            Some((child, value_at, value_len)) => {
                if value_len > (end - from - value_at) as u64 {
                    return None;
                }
                if child == TLV_NONCE && value_at == 2 && value_len == 4 {
                    return Some(from + value_at);
                }
                from = from + value_at + value_len as usize;
            },
        }
    }
    None
}

/// Overwrites the nonce of an encoded Interest: the four bytes behind `0A 04`
/// where those are the header of one of its elements. A buffer that is no Interest, or
/// an Interest without a nonce, is left alone.
pub fn patch_nonce(buf: &mut Vec<u8>, nonce: u32)
    ensures
        final(buf)@ == with_nonce(old(buf)@, nonce),
{
    match locate_nonce(buf.as_slice()) {
        None => {},
        Some(at) => {
            let len: usize = buf.len();
            assert(at + 4 <= len);
            buf.set(at, (nonce / 0x100_0000) as u8);
            buf.set(at + 1, ((nonce / 0x1_0000) % 256) as u8);
            buf.set(at + 2, ((nonce / 0x100) % 256) as u8);
            buf.set(at + 3, (nonce % 256) as u8);
            assert(buf@ =~= with_nonce(old(buf)@, nonce));
        },
    }
}

impl NdnCodec {
    /// The encoded Interest for `name`, carrying `nonce` in place of the random
    /// one it was built with. `built` is the Interest as built, or `None` where
    /// `name` is not a name.
    pub fn encode_interest(name: &str, built: Option<Vec<u8>>, nonce: u32) -> (wire: Result<
        Vec<u8>,
        NdnError,
    >)
        ensures
            match built {
                None => wire is Err && wire->Err_0@ == (ErrorView::InvalidName { name: name@ }),
                Some(bytes) => wire is Ok && wire->Ok_0@ == with_nonce(bytes@, nonce),
            },
    {
        match built {
            None => Err(NdnError::invalid_name(name)),
            Some(bytes) => {
                let mut buf: Vec<u8> = bytes;
                patch_nonce(&mut buf, nonce);
                Ok(buf)
            },
        }
    }

    /// The decoded Data packet, given what the decoder made of the wire: the
    /// packet's name and content, or the reason it refused.
    pub fn decode_data(decoded: Result<(String, Option<Vec<u8>>), String>) -> (data: Result<
        NdnData,
        NdnError,
    >)
        ensures
            match decoded {
                Ok((name, content)) => data is Ok && data->Ok_0.name == name
                    && data->Ok_0.content@ == match content {
                    Some(bytes) => bytes@,
                    None => Seq::<u8>::empty(),
                },
                Err(why) => data is Err && data->Err_0@ == (ErrorView::Engine { msg: why@ }),
            },
    {
        match decoded {
            Ok((name, content)) => Ok(NdnData::from_packet(name, content)),
            Err(why) => Err(NdnError::engine(why.as_str())),
        }
    }

    /// The network-layer packet inside a link-layer envelope, given what the
    /// decoder made of the wire: the fragment it carries, if any, or the reason
    /// it refused.
    pub fn unwrap_lp_packet(decoded: Result<Option<Vec<u8>>, String>) -> (packet: Result<
        Vec<u8>,
        NdnError,
    >)
        ensures
            match decoded {
                Ok(Some(fragment)) => packet == Ok::<Vec<u8>, NdnError>(fragment),
                Ok(None) => packet is Err && packet->Err_0@ == (ErrorView::Engine {
                    msg: "LpPacket contains no fragment"@,
                }),
                Err(why) => packet is Err && packet->Err_0@ == (ErrorView::Engine { msg: why@ }),
            },
    {
        match decoded {
            Ok(Some(fragment)) => Ok(fragment),
            Ok(None) => Err(NdnError::engine("LpPacket contains no fragment")),
            Err(why) => Err(NdnError::engine(why.as_str())),
        }
    }
}

/// What a reassembler holds: the bytes collected so far, and whether a
/// fragmented packet is under way.
pub ghost struct Reassembly {
    pub buffer: Seq<u8>,
    pub active: bool,
}

/// Takes one whole element off the front of the collected bytes, if there is
/// one. What is left over stays, and keeps the reassembly going.
pub open spec fn collect(buffer: Seq<u8>) -> (Reassembly, Option<Seq<u8>>) {
    match tlv_end(buffer) {
        None => (Reassembly { buffer, active: true }, None),
        Some(end) => (
            Reassembly { buffer: buffer.skip(end as int), active: end < buffer.len() },
            Some(buffer.take(end as int)),
        ),
    }
}

/// What one received fragment does to a reassembly, and the packet it
/// completes. A header with the high bit set starts over; any other header
/// continues; outside a fragmented packet the fragment is itself a packet.
pub open spec fn feed_step(st: Reassembly, fragment: Seq<u8>) -> (Reassembly, Option<Seq<u8>>) {
    if fragment.len() == 0 {
        (st, None)
    } else if fragment[0] >= 0x80 {
        collect(fragment.skip(1))
    } else if st.active {
        collect(st.buffer + fragment.skip(1))
    } else {
        (st, Some(fragment))
    }
}

/// Reassembles what [`NdnCodec::ndnts_frame`] cuts up. Feed it each received
/// fragment; it gives back a packet once a whole element has arrived.
pub struct NdntsReassembler {
    buffer: Vec<u8>,
    active: bool,
}

impl View for NdntsReassembler {
    type V = Reassembly;

    closed spec fn view(&self) -> Reassembly {
        Reassembly { buffer: self.buffer@, active: self.active }
    }
}

impl NdntsReassembler {
    pub fn new() -> (fresh: NdntsReassembler)
        ensures
            fresh@ == (Reassembly { buffer: Seq::<u8>::empty(), active: false }),
    {
        NdntsReassembler { buffer: Vec::new(), active: false }
    }

    /// Takes in one fragment and returns the packet that it completes, if any.
    pub fn feed(&mut self, fragment: Vec<u8>) -> (packet: Option<Vec<u8>>)
        ensures
            final(self)@ == feed_step(old(self)@, fragment@).0,
            match packet {
                Some(bytes) => feed_step(old(self)@, fragment@).1 == Some(bytes@),
                None => feed_step(old(self)@, fragment@).1 is None,
            },
    {
        if fragment.len() == 0 {
            return None;
        }
        if fragment[0] >= 0x80 {
            let mut head: Vec<u8> = fragment;
            self.buffer = head.split_off(1);
            assert(self.buffer@ =~= fragment@.skip(1));
            self.active = true;
        } else if self.active {
            let mut head: Vec<u8> = fragment;
            let mut rest: Vec<u8> = head.split_off(1);
            assert(rest@ =~= fragment@.skip(1));
            self.buffer.append(&mut rest);
        } else {
            return Some(fragment);
        }
        let ghost collected = self.buffer@;
        match tlv_packet_end(self.buffer.as_slice()) {
            None => None,
            Some(end) => {
                let mut packet: Vec<u8> = self.buffer.split_off(end);
                assert(packet@ =~= collected.skip(end as int));
                assert(self.buffer@ =~= collected.take(end as int));
                core::mem::swap(&mut self.buffer, &mut packet);
                if self.buffer.len() == 0 {
                    self.active = false;
                }
                Some(packet)
            },
        }
    }

    /// Forgets whatever was under way.
    pub fn reset(&mut self)
        ensures
            final(self)@ == (Reassembly { buffer: Seq::<u8>::empty(), active: false }),
    {
        self.buffer.clear();
        self.active = false;
    }
}

impl Default for NdntsReassembler {
    fn default() -> (fresh: NdntsReassembler)
        ensures
            fresh@ == (Reassembly { buffer: Seq::<u8>::empty(), active: false }),
    {
        NdntsReassembler::new()
    }
}

/// The reassembly after the first `n` of `fragments` have been fed to `st`.
pub open spec fn fed(st: Reassembly, fragments: Seq<Seq<u8>>, n: nat) -> Reassembly
    decreases n,
{
    if n == 0 {
        st
    } else {
        feed_step(fed(st, fragments, (n - 1) as nat), fragments[n - 1]).0
    }
}

/// The packet that fragment `k` completes when `fragments` are fed in order.
pub open spec fn completed(st: Reassembly, fragments: Seq<Seq<u8>>, k: int) -> Option<Seq<u8>> {
    feed_step(fed(st, fragments, k as nat), fragments[k]).1
}

/// The first `k + 1` payloads are the first `k` payloads and one more.
proof fn lemma_payload_extends(packet: Seq<u8>, step: nat, k: int)
    requires
        0 < step,
        0 < packet.len(),
        0 <= k < fragment_count(packet.len(), step),
    ensures
        packet.take(k * step) + fragment_payload(packet, step, k) == packet.take(
            if k + 1 < fragment_count(packet.len(), step) {
                (k + 1) * step
            } else {
                packet.len() as int
            },
        ),
{
    lemma_fragment_bounds(packet.len(), step, k);
    let upto = if k + 1 < fragment_count(packet.len(), step) {
        (k + 1) * step
    } else {
        packet.len() as int
    };
    assert(packet.take(k * step) + fragment_payload(packet, step, k) =~= packet.take(upto));
}

proof fn lemma_fed_prefix(st: Reassembly, packet: Seq<u8>, max_payload: nat, n: nat)
    requires
        packet.len() > max_payload,
        tlv_end(packet) == Some(packet.len()),
        1 <= n < fragment_count(packet.len(), fragment_step(max_payload)),
    ensures
        fed(st, frames(packet, max_payload), n) == (Reassembly {
            buffer: packet.take(n as int * fragment_step(max_payload)),
            active: true,
        }),
        completed(st, frames(packet, max_payload), n - 1) is None,
    decreases n,
{
    let step = fragment_step(max_payload);
    let k = n - 1;
    let frag = frames(packet, max_payload)[k];
    lemma_fragment_bounds(packet.len(), step, k);
    lemma_payload_extends(packet, step, k);
    assert(frag =~= fragment(packet, step, k));
    assert(frag.skip(1) =~= fragment_payload(packet, step, k));
    law_no_early_end(packet, n as int * step);
    if n == 1 {
        assert(0 * step == 0) by (nonlinear_arith);
        assert(packet.take(0) + frag.skip(1) =~= frag.skip(1));
    } else {
        lemma_fed_prefix(st, packet, max_payload, (n - 1) as nat);
    }
}

/// Reassembly undoes fragmentation. Feed the frames of a packet that is one
/// whole element and too long for one frame, in order and from whatever state:
/// every frame but the last gives nothing, the last gives the packet back, and
/// nothing is left over.
pub proof fn law_reassembly_inverts_framing(st: Reassembly, packet: Seq<u8>, max_payload: nat)
    requires
        packet.len() > max_payload,
        tlv_end(packet) == Some(packet.len()),
    ensures
        frames(packet, max_payload).len() >= 1,
        forall|k: int|
            0 <= k < frames(packet, max_payload).len() - 1 ==> #[trigger] completed(
                st,
                frames(packet, max_payload),
                k,
            ) is None,
        completed(
            st,
            frames(packet, max_payload),
            frames(packet, max_payload).len() - 1,
        ) == Some(packet),
        fed(st, frames(packet, max_payload), frames(packet, max_payload).len()) == (Reassembly {
            buffer: Seq::empty(),
            active: false,
        }),
{
    let step = fragment_step(max_payload);
    let all = frames(packet, max_payload);
    let count = fragment_count(packet.len(), step);
    lemma_fragment_count_positive(packet.len(), step);
    assert forall|k: int| 0 <= k < count - 1 implies #[trigger] completed(st, all, k) is None by {
        lemma_fed_prefix(st, packet, max_payload, (k + 1) as nat);
    }
    let last = count - 1;
    let frag = all[last];
    lemma_fragment_bounds(packet.len(), step, last);
    lemma_payload_extends(packet, step, last);
    assert(frag =~= fragment(packet, step, last));
    assert(frag.skip(1) =~= fragment_payload(packet, step, last));
    assert(packet.take(packet.len() as int) =~= packet);
    assert(packet.skip(packet.len() as int) =~= Seq::empty());
    if last == 0 {
        assert(0 * step == 0) by (nonlinear_arith);
        assert(packet.take(0) + frag.skip(1) =~= frag.skip(1));
    } else {
        lemma_fed_prefix(st, packet, max_payload, last as nat);
    }
}

/// A packet that fits in one frame passes through unchanged when nothing is
/// under way, provided that its first byte is below `0x80`: a larger first byte
/// reads as the header of a first fragment.
pub proof fn law_unfragmented_packet_passes(st: Reassembly, packet: Seq<u8>, max_payload: nat)
    requires
        0 < packet.len() <= max_payload,
        packet[0] < 0x80,
        !st.active,
    ensures
        frames(packet, max_payload) == seq![packet],
        feed_step(st, packet) == (st, Some(packet)),
{
}

/// A packet is cut only where it does not fit, and then no more than it has to
/// be: every fragment but the last is as long as allowed. The first one's header
/// is `0x80`, and the others are numbered modulo 128.
pub proof fn law_fragments_are_full(packet: Seq<u8>, max_payload: nat, k: int)
    requires
        2 <= max_payload,
    ensures
        packet.len() <= max_payload ==> frames(packet, max_payload) == seq![packet],
        packet.len() > max_payload ==> {
            let all = frames(packet, max_payload);
            &&& all.len() >= 2
            &&& (all.len() - 1) * (max_payload - 1) < packet.len() <= all.len() * (max_payload - 1)
            &&& 0 <= k < all.len() - 1 ==> all[k].len() == max_payload
            &&& 0 <= k < all.len() ==> all[k][0] == if k == 0 {
                128
            } else {
                k % 128
            }
        },
{
    if packet.len() > max_payload {
        let step = fragment_step(max_payload);
        let count = fragment_count(packet.len(), step);
        let all = frames(packet, max_payload);
        assert(step == max_payload - 1);
        lemma_fragment_count_positive(packet.len(), step);
        lemma_fragment_bounds(packet.len(), step, count - 1);
        if count == 1 {
            assert(1 * step == step) by (nonlinear_arith);
        }
        assert((count - 1) * step < packet.len() <= count * step);
        if 0 <= k < count {
            lemma_fragment_bounds(packet.len(), step, k);
        }
    }
}

/// Where a frame leaves no room for a header and more than a byte, each fragment
/// carries one byte.
pub proof fn law_small_frames_carry_a_byte(packet: Seq<u8>, max_payload: nat, k: int)
    requires
        max_payload <= 2,
        packet.len() > max_payload,
    ensures
        frames(packet, max_payload).len() == packet.len(),
        0 <= k < packet.len() ==> frames(packet, max_payload)[k] == seq![
            if k == 0 {
                128
            } else {
                (k % 128) as u8
            },
            packet[k],
        ],
{
    vstd::arithmetic::div_mod::lemma_div_basics(packet.len() as int);
    assert(fragment_count(packet.len(), 1) == packet.len());
    if 0 <= k < packet.len() {
        assert(k * 1 == k) by (nonlinear_arith);
        assert((k + 1) * 1 == k + 1) by (nonlinear_arith);
        assert(fragment_payload(packet, 1, k) =~= seq![packet[k]]);
        assert(frames(packet, max_payload)[k] =~= seq![
            if k == 0 {
                128
            } else {
                (k % 128) as u8
            },
            packet[k],
        ]);
    }
}

/// A packet is handed out as soon as it is whole, and what came behind it is kept
/// for the next; a first fragment forgets whatever was under way, and an empty
/// one changes nothing.
pub proof fn law_packet_is_taken_off_the_front(
    st: Reassembly,
    header: u8,
    packet: Seq<u8>,
    extra: Seq<u8>,
)
    requires
        header >= 0x80,
        tlv_end(packet) == Some(packet.len()),
    ensures
        feed_step(st, seq![header] + packet + extra) == (
            Reassembly { buffer: extra, active: extra.len() > 0 },
            Some(packet),
        ),
        feed_step(st, Seq::empty()) == (st, None::<Seq<u8>>),
{
    let whole = seq![header] + packet + extra;
    assert(whole.skip(1) =~= packet + extra);
    crate::tlv::law_end_is_local(packet, extra);
    assert((packet + extra).skip(packet.len() as int) =~= extra);
    assert((packet + extra).take(packet.len() as int) =~= packet);
}

/// Byte strings one behind the other.
pub open spec fn in_a_row(parts: Seq<Seq<u8>>) -> Seq<u8>
    decreases parts.len(),
{
    if parts.len() == 0 {
        Seq::empty()
    } else {
        parts[0] + in_a_row(parts.skip(1))
    }
}

/// The nonce of an Interest is found behind any other elements: it is the value of
/// the first element that starts with `0A 04`, and exactly its four bytes are
/// overwritten, by the number's bytes, most significant first.
pub proof fn law_nonce_is_found(
    s: Seq<u8>,
    start: nat,
    length: nat,
    before: Seq<Seq<u8>>,
    old_nonce: Seq<u8>,
    after: Seq<u8>,
    nonce: u32,
)
    requires
        tlv_header(s) == Some((5nat, start, length)),
        start + length <= s.len(),
        forall|i: int|
            0 <= i < before.len() ==> (#[trigger] before[i]).len() > 0 && before[i][0] != 0x0A
                && before[i][0] < 253 && tlv_end(before[i]) == Some(before[i].len()),
        old_nonce.len() == 4,
        s.subrange(start as int, (start + length) as int) == in_a_row(before) + seq![
            0x0Au8,
            0x04u8,
        ] + old_nonce + after,
    ensures
        nonce_offset(s) == Some(start + in_a_row(before).len() + 2),
        with_nonce(s, nonce).len() == s.len(),
        with_nonce(s, nonce).subrange(start as int, (start + length) as int) == in_a_row(before)
            + seq![0x0Au8, 0x04u8] + be_bytes(nonce) + after,
        with_nonce(s, nonce).take(start as int) == s.take(start as int),
        crate::tlv::be_value(be_bytes(nonce)) == nonce,
{
    lemma_find_behind(s, start, (start + length) as nat, before, old_nonce, after);
    law_nonce_bytes_are_read_back(nonce);
    let t = with_nonce(s, nonce);
    let body = s.subrange(start as int, (start + length) as int);
    let at = in_a_row(before).len() as int + 2;
    let offset = start + at;
    assert(t =~= s.take(offset) + be_bytes(nonce) + s.skip(offset + 4));
    assert(t.subrange(start as int, (start + length) as int) =~= body.take(at) + be_bytes(nonce)
        + body.skip(at + 4));
    assert(body.take(at) =~= in_a_row(before) + seq![0x0Au8, 0x04u8]);
    assert(body.skip(at + 4) =~= after);
    assert(t.take(start as int) =~= s.take(start as int));
}

proof fn lemma_find_behind(
    s: Seq<u8>,
    from: nat,
    end: nat,
    before: Seq<Seq<u8>>,
    old_nonce: Seq<u8>,
    after: Seq<u8>,
)
    requires
        from <= end <= s.len(),
        forall|i: int|
            0 <= i < before.len() ==> (#[trigger] before[i]).len() > 0 && before[i][0] != 0x0A
                && before[i][0] < 253 && tlv_end(before[i]) == Some(before[i].len()),
        old_nonce.len() == 4,
        s.subrange(from as int, end as int) == in_a_row(before) + seq![0x0Au8, 0x04u8] + old_nonce
            + after,
    ensures
        find_nonce(s, from, end) == Some(from + in_a_row(before).len() + 2),
    decreases before.len(),
{
    let body = s.subrange(from as int, end as int);
    if before.len() == 0 {
        assert(body[0] == 0x0A);
        assert(body.skip(1)[0] == body[1]);
        assert(body[1] == 0x04);
    } else {
        let first = before[0];
        let tail = in_a_row(before.skip(1)) + seq![0x0Au8, 0x04u8] + old_nonce + after;
        assert(body =~= first + tail);
        crate::tlv::law_end_is_local(first, tail);
        assert(body[0] == first[0]);
        let n = first.len();
        assert(s.subrange((from + n) as int, end as int) =~= body.skip(n as int));
        assert(body.skip(n as int) =~= tail);
        lemma_find_behind(s, from + n, end, before.skip(1), old_nonce, after);
    }
}

/// The bytes of a nonce are the number's, most significant first.
pub proof fn law_nonce_bytes_are_read_back(nonce: u32)
    ensures
        be_bytes(nonce).len() == 4,
        crate::tlv::be_value(be_bytes(nonce)) == nonce,
{
    let b = be_bytes(nonce);
    reveal_with_fuel(crate::tlv::be_value, 5);
    assert(b.drop_last() =~= seq![b[0], b[1], b[2]]);
    assert(seq![b[0], b[1], b[2]].drop_last() =~= seq![b[0], b[1]]);
    assert(seq![b[0], b[1]].drop_last() =~= seq![b[0]]);
    assert(seq![b[0]].drop_last() =~= Seq::empty());
}

/// No frame is longer than `max_payload`, nor than two bytes where
/// `max_payload` leaves no room for a header and a byte of packet.
pub proof fn law_frames_fit(packet: Seq<u8>, max_payload: nat, k: int)
    requires
        0 <= k < frames(packet, max_payload).len(),
    ensures
        frames(packet, max_payload)[k].len() <= max_payload || frames(
            packet,
            max_payload,
        )[k].len() <= 2,
{
    if packet.len() > max_payload {
        lemma_fragment_bounds(packet.len(), fragment_step(max_payload), k);
    }
}

/// Overwriting the nonce keeps every other byte and the length.
pub proof fn law_nonce_touches_four_bytes(s: Seq<u8>, nonce: u32, i: int)
    requires
        0 <= i < s.len(),
    ensures
        with_nonce(s, nonce).len() == s.len(),
        nonce_offset(s) is None || i < nonce_offset(s)->0 || i >= nonce_offset(s)->0 + 4
            ==> with_nonce(s, nonce)[i] == s[i],
{
    if nonce_offset(s) is Some {
        let (typ, start, length) = tlv_header(s)->0;
        lemma_find_nonce_bounds(s, start, start + length);
    }
}

/// The nonce stands behind the bytes `0A 04`.
pub proof fn law_nonce_has_its_header(s: Seq<u8>)
    ensures
        nonce_offset(s) matches Some(at) ==> 2 <= at && at + 4 <= s.len() && s[at - 2] == 0x0A
            && s[at - 1] == 0x04,
{
    if nonce_offset(s) is Some {
        let (typ, start, length) = tlv_header(s)->0;
        lemma_find_nonce_bounds(s, start, start + length);
    }
}

/// A buffer in which the bytes `0A 04` never stand in front of four others is
/// left alone.
pub proof fn law_no_header_no_change(s: Seq<u8>, nonce: u32)
    requires
        forall|i: int| 0 <= i && i + 6 <= s.len() ==> !(#[trigger] s[i] == 0x0A && s[i + 1] == 0x04),
    ensures
        with_nonce(s, nonce) == s,
{
    law_nonce_has_its_header(s);
    if let Some(at) = nonce_offset(s) {
        assert(s[at - 2] == 0x0A);
    }
}

proof fn lemma_find_nonce_stable(s: Seq<u8>, t: Seq<u8>, from: nat, end: nat)
    requires
        find_nonce(s, from, end) is Some,
        t.len() == s.len(),
        forall|i: int|
            0 <= i < s.len() && !(find_nonce(s, from, end)->0 <= i < find_nonce(s, from, end)->0 + 4)
                ==> t[i] == s[i],
    ensures
        find_nonce(t, from, end) == find_nonce(s, from, end),
    decreases end - from,
{
    lemma_find_nonce_bounds(s, from, end);
    let a = s.subrange(from as int, end as int);
    let b = t.subrange(from as int, end as int);
    let (typ, start, length) = tlv_header(a)->0;
    if !is_nonce_header(typ, start, length) {
        lemma_find_nonce_bounds(s, from + start + length, end);
    }
    assert(a.take(start as int) =~= b.take(start as int));
    crate::tlv::law_header_is_local(a, b);
    if !is_nonce_header(typ, start, length) {
        lemma_find_nonce_stable(s, t, from + start + length, end);
    }
}

/// The nonce that was written last is the one that stands: patching does not
/// move the nonce, and a second patch hides the first.
pub proof fn law_last_nonce_wins(s: Seq<u8>, first: u32, second: u32)
    ensures
        nonce_offset(with_nonce(s, first)) == nonce_offset(s),
        with_nonce(with_nonce(s, first), second) == with_nonce(s, second),
        nonce_offset(s) matches Some(at) ==> with_nonce(s, first).subrange(
            at as int,
            at as int + 4,
        ) == be_bytes(first),
{
    if nonce_offset(s) is Some {
        let t = with_nonce(s, first);
        let (typ, start, length) = tlv_header(s)->0;
        lemma_find_nonce_bounds(s, start, start + length);
        assert(s.take(start as int) =~= t.take(start as int));
        crate::tlv::law_header_is_local(s, t);
        lemma_find_nonce_stable(s, t, start, start + length);
        let at = nonce_offset(s)->0 as int;
        assert(t.subrange(at, at + 4) =~= be_bytes(first));
        assert(with_nonce(t, second) =~= with_nonce(s, second));
    }
}

} // verus!
