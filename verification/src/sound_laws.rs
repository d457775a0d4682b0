//! What the sound card is told, and where its registers are.
use crate::bytes::{le32, lemma_read_of_write32, u32_at};
use crate::pci::ConfigSpace;
use crate::snd::{
    after, ahead, aligned, bar_address, block_at, chunk_of, params_command, rate_code,
    setup_commands, stream_command, TxBuffer, VirtioSnd,
};
use vstd::prelude::*;

verus! {

/// Counters wrap: from `b` it is `ahead(a, b)` steps to `a`, and one step from the
/// last number leads to zero.
pub proof fn lemma_counters_wrap(a: u16, b: u16)
    ensures
        0 <= ahead(a, b) < 65536,
        (b + ahead(a, b)) % 65536 == a,
        after(a) == (a + 1) % 65536,
{
}

/// The rates in Hz that the card has numbers for, in the order of the numbers.
pub open spec fn rates() -> Seq<u32> {
    seq![5512, 8000, 11025, 16000, 22050, 32000, 44100, 48000]
}

/// A rate that programs use is set by its number, any other one by that of 44100 Hz.
pub proof fn lemma_a_rate_has_its_number(freq: u32)
    ensures
        freq == 11025 || freq == 22050 || freq == 44100 || freq == 48000 ==> rates()[rate_code(
            freq,
        ) as int] == freq,
        rate_code(freq) < 8,
        rates()[rate_code(freq) as int] == freq || rates()[rate_code(freq) as int] == 44100,
{
}

/// A command names its kind and its stream.
proof fn lemma_stream_command(code: u32, stream: u32, rest: Seq<u8>)
    ensures
        u32_at(stream_command(code, stream) + rest, 0) == code,
        u32_at(stream_command(code, stream) + rest, 4) == stream,
        stream_command(code, stream).len() == 8,
{
    let b = stream_command(code, stream) + rest;
    let none = Seq::<u8>::empty();
    assert(b =~= none + le32(code) + (le32(stream) + rest));
    lemma_read_of_write32(code, none, le32(stream) + rest);
    assert(b =~= le32(code) + le32(stream) + rest);
    lemma_read_of_write32(stream, le32(code), rest);
}

/// The parameters of a stream: 64 KiB of buffer in periods of 4 KiB, no features, and
/// samples of sixteen bits at the given rate and channels.
pub proof fn lemma_stream_parameters(stream: u32, freq: u32, channels: u8)
    ensures
        ({
            let b = params_command(stream, freq, channels);
            &&& b.len() == 24
            &&& u32_at(b, 0) == 0x101
            &&& u32_at(b, 4) == stream
            &&& u32_at(b, 8) == 65536
            &&& u32_at(b, 12) == 4096
            &&& u32_at(b, 16) == 0
            &&& b[20] == channels
            &&& b[21] == 5
            &&& b[22] == rate_code(freq)
            &&& b[23] == 0
        }),
{
    let b = params_command(stream, freq, channels);
    let s = stream_command(0x101, stream);
    let end = seq![channels, 5u8, rate_code(freq), 0u8];
    let (x, y, z) = (le32(65536), le32(4096), le32(0));
    assert(b =~= s + (x + y + z + end));
    lemma_stream_command(0x101, stream, x + y + z + end);
    assert(b =~= s + x + (y + z + end));
    lemma_read_of_write32(65536, s, y + z + end);
    assert(b =~= (s + x) + y + (z + end));
    lemma_read_of_write32(4096, s + x, z + end);
    assert(b =~= (s + x + y) + z + end);
    lemma_read_of_write32(0, s + x + y, end);
}

/// A stream is stopped and released before it is given its parameters, prepared and
/// started, in this order, and all of it is said of the same stream.
pub proof fn lemma_a_stream_is_set_up_in_order(stream: u32, freq: u32, channels: u8)
    ensures
        ({
            let c = setup_commands(stream, freq, channels);
            &&& c.len() == 5
            &&& u32_at(c[0], 0) == 0x105
            &&& u32_at(c[1], 0) == 0x103
            &&& c[2] == params_command(stream, freq, channels)
            &&& u32_at(c[3], 0) == 0x102
            &&& u32_at(c[4], 0) == 0x104
            &&& forall|i: int| 0 <= i < 5 ==> u32_at(#[trigger] c[i], 4) == stream
        }),
{
    let none = Seq::<u8>::empty();
    let c = setup_commands(stream, freq, channels);
    assert(c[0] =~= c[0] + none && c[1] =~= c[1] + none && c[3] =~= c[3] + none && c[4] =~= c[4]
        + none);
    lemma_stream_command(0x105, stream, none);
    lemma_stream_command(0x103, stream, none);
    lemma_stream_command(0x102, stream, none);
    lemma_stream_command(0x104, stream, none);
    lemma_stream_parameters(stream, freq, channels);
}

/// A buffer takes the first bytes of the sound, up to 512 of them.
pub proof fn lemma_a_buffer_takes_the_first_bytes(data: Seq<u8>)
    ensures
        chunk_of(data).len() <= 512,
        chunk_of(data).len() == data.len() || chunk_of(data).len() == 512,
        forall|i: int| 0 <= i < chunk_of(data).len() ==> #[trigger] chunk_of(data)[i] == data[i],
{
}

/// A buffer is a chain of three descriptors, one behind the other on the ring: four
/// bytes that name the stream and the sound itself, both to be read and followed by
/// the next, and eight bytes for the card to write its answer to.
pub proof fn lemma_a_buffer_is_a_chain(s: VirtioSnd, b: TxBuffer, used: u16, data: Seq<u8>)
    requires
        s.is_buffer(b, used, data),
        s.tx is Some,
        s.tx->0.free_head < 256,
    ensures
        b.fills@.len() == 3,
        b.fills@[0].index == s.tx->0.free_head,
        forall|d: int|
            0 <= d < 2 ==> (#[trigger] b.fills@[d]).flags == 1 && b.fills@[d + 1].index == (
            b.fills@[d].index + 1) % 256,
        b.fills@[2].flags == 2,
        b.fills@[0].len == 4,
        b.fills@[1].len == b.data@.len(),
        b.fills@[2].len == 8,
        b.slot == s.tx->0.last_avail_idx % 256,
        b.avail_idx == (s.tx->0.last_avail_idx + 1) % 65536,
{
}

/// Rounding up gives the least multiple that is not smaller.
pub proof fn lemma_rounding_up(x: int, align: int)
    requires
        0 <= x,
        0 < align,
    ensures
        aligned(x, align) % align == 0,
        x <= aligned(x, align) < x + align,
{
    let q = (x + align - 1) / align;
    vstd::arithmetic::div_mod::lemma_fundamental_div_mod(x + align - 1, align);
    assert(x <= q * align < x + align) by (nonlinear_arith)
        requires
            x + align - 1 == align * q + (x + align - 1) % align,
            0 <= (x + align - 1) % align < align,
    ;
    vstd::arithmetic::div_mod::lemma_mod_multiples_basic(q, align);
}

/// The address in a base register is the register without its lowest four bits; in a
/// register of the wide kind, which bits 1 and 2 tell, the next one is above it.
pub proof fn lemma_a_base_register(space: ConfigSpace, bars: Seq<u32>, i: int)
    requires
        0 <= i < bars.len(),
    ensures
        bars[i] & 0x6 != 0x4 ==> bar_address(space, bars, i) == bars[i] & 0xffff_fff0,
        bars[i] & 0x6 == 0x4 && i < 5 ==> bar_address(space, bars, i) == space.words@[5 + i]
            * 0x1_0000_0000 + (bars[i] & 0xffff_fff0),
{
    let v = bars[i];
    assert(v & 0xffff_fff0 == v / 16 * 16 && (v & 0x6 == 0x4 <==> v / 2 % 4 == 2)) by (bit_vector);
}

/// A register block that is found is one that a capability of the vendor describes, and
/// is mapped in whole pages from its base on, up to its end and at least 64 KiB.
pub proof fn lemma_a_register_block_is_mapped_whole(
    space: ConfigSpace,
    bars: Seq<u32>,
    ptr: u8,
    len: int,
)
    requires
        block_at(space, bars, ptr) is Some,
        len == space.at(ptr + 12) + 0x100 * space.at(ptr + 13) + 0x1_0000 * space.at(ptr + 14)
            + 0x100_0000 * space.at(ptr + 15),
    ensures
        ({
            let b = block_at(space, bars, ptr)->0;
            &&& space.at(ptr as int) == 9
            &&& b.typ == space.at(ptr + 3)
            &&& b.offset == space.at(ptr + 8) + 0x100 * space.at(ptr + 9) + 0x1_0000 * space.at(
                ptr + 10,
            ) + 0x100_0000 * space.at(ptr + 11)
            &&& b.map_size % 4096 == 0
            &&& b.map_size >= 0x10000
            &&& b.map_size >= b.offset + len
            &&& b.map_size == 0x10000 || b.map_size < b.offset + len + 4096
        }),
{
}

/// The queues are told apart by their numbers: control, events, playing and recording,
/// of which the last two take three descriptors a request and the others two. A queue
/// starts empty.
pub proof fn lemma_queues_by_number(s: VirtioSnd, qid: u16, off: u16)
    requires
        qid < 4,
    ensures
        ({
            let t = s.with_queue(qid, off);
            let q = if qid == 0 {
                t.ctrl
            } else if qid == 1 {
                t.event
            } else if qid == 2 {
                t.tx
            } else {
                t.rx
            };
            &&& q matches Some(q) && q.id == qid && q.notify_off == off && q.num_free == 256
                && q.level() == 0 && q.chain == (if qid < 2 {
                2u16
            } else {
                3u16
            })
            &&& qid != 0 ==> t.ctrl == s.ctrl
            &&& qid != 1 ==> t.event == s.event
            &&& qid != 2 ==> t.tx == s.tx
            &&& qid != 3 ==> t.rx == s.rx
        }),
{
}

} // verus!
