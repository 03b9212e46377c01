//! Driver core for WS2812B-family addressable LED strips driven over a
//! serial (SPI) bus clocked at three times the strip's native bit rate.
//!
//! Each 8-bit color channel is expanded into a 24-bit waveform (three bus
//! bits per strip bit), so one channel byte becomes exactly three bus bytes.
//! A panel controller buffers the encoded bytes for a whole frame and hands
//! them to a serial-bus sink in a single transfer.

use vstd::prelude::*;

pub mod hex;
pub mod sink;
pub mod wire_protocol;

use crate::sink::BusSink;
use crate::wire_protocol::byte_to_spi_bytes;
use crate::wire_protocol::spi_bytes;

verus! {

/// Stores color as a tuple of (Red, Green, Blue).
#[derive(Clone, Copy, Debug, PartialEq, Eq, Structural)]
pub struct ColorRGB(pub u8, pub u8, pub u8);

/// How an operation can fail: a malformed hex color code is rejected before
/// any buffering, and a failed bus transfer is surfaced unchanged.
#[derive(Clone, Copy, Debug, PartialEq, Eq, Structural)]
pub enum LedError {
    /// A hex color code is not exactly 6 hexadecimal digits.
    InvalidColorFormat,
    /// The bus sink reported a transfer failure; nothing is retried.
    BusTransferError,
}

/// The channel bytes of one color in the order the strip consumes them:
/// green, red, blue for the reference hardware. This permutation is the one
/// place that fixes the strip's wiring.
pub open spec fn spec_wire_order(c: ColorRGB) -> Seq<u8> {
    seq![c.1, c.0, c.2]
}

/// The wire-order channel bytes of a whole frame of colors.
pub open spec fn wire_channel_bytes(colors: Seq<ColorRGB>) -> Seq<u8>
    decreases colors.len(),
{
    if colors.len() == 0 {
        Seq::empty()
    } else {
        spec_wire_order(colors[0]) + wire_channel_bytes(colors.drop_first())
    }
}

/// The bus bytes that encode a sequence of channel bytes, three per channel.
pub open spec fn encode_frame(channels: Seq<u8>) -> Seq<u8>
    decreases channels.len(),
{
    if channels.len() == 0 {
        Seq::empty()
    } else {
        spi_bytes(channels[0]) + encode_frame(channels.drop_first())
    }
}

/// The payload a clear operation transfers: `3 * num_leds` encoded zero
/// channels.
pub open spec fn clear_payload(num_leds: u32) -> Seq<u8> {
    encode_frame(Seq::new(3 * num_leds as nat, |i: int| 0u8))
}

/// The character sequences of a batch of hex color codes.
pub open spec fn code_views(codes: Seq<&str>) -> Seq<Seq<char>> {
    codes.map_values(|s: &str| s@)
}

/// True when every code of a batch is a well-formed hex color.
pub open spec fn all_valid_hex(codes: Seq<Seq<char>>) -> bool {
    forall|i: int| 0 <= i < codes.len() ==> crate::hex::valid_hex_color(#[trigger] codes[i])
}

/// The colors denoted by a batch of well-formed hex color codes.
pub open spec fn colors_of_hex(codes: Seq<Seq<char>>) -> Seq<ColorRGB> {
    codes.map_values(|s: Seq<char>| crate::hex::hex_color(s))
}

/// Reorder a logical (red, green, blue) color into the strip's wire order.
pub fn to_wire_order(color: &ColorRGB) -> (wire: (u8, u8, u8))
    ensures
        wire == (color.1, color.0, color.2),
        seq![wire.0, wire.1, wire.2] == spec_wire_order(*color),
{
    (color.1, color.0, color.2)
}

/// A panel of `num_leds` addressable LEDs behind a serial-bus sink: a frame
/// buffer of encoded bus bytes, empty at rest, and the sink that frames are
/// flushed to in one transfer each.
pub struct LedPanel<S: BusSink> {
    /// stores the encoded bus bytes, three per wire-order channel
    buffer: Vec<u8>,
    spi: S,
    num_leds: u32,
}

impl<S: BusSink> LedPanel<S> {
    /// The encoded bytes currently buffered for the next transfer.
    pub closed spec fn buf(&self) -> Seq<u8> {
        self.buffer@
    }

    /// The configured LED count, fixed at construction.
    pub closed spec fn leds(&self) -> u32 {
        self.num_leds
    }

    /// The bus sink this panel drives.
    pub closed spec fn sink(&self) -> S {
        self.spi
    }

    /// The payloads the sink has transferred so far.
    pub open spec fn log(&self) -> Seq<Seq<u8>> {
        self.sink().log()
    }

    /// A panel over the given bus sink, driving `num_leds` LEDs, with an
    /// empty frame buffer.
    pub fn new(spi: S, num_leds: u32) -> (panel: LedPanel<S>)
        ensures
            panel.buf() == Seq::<u8>::empty(),
            panel.leds() == num_leds,
            panel.sink() == spi,
    {
        LedPanel { buffer: Vec::new(), spi, num_leds }
    }

    /// The number of encoded bytes currently in the frame buffer.
    pub fn buffer_len(&self) -> (n: usize)
        ensures
            n == self.buf().len(),
    {
        self.buffer.len()
    }

    /// The configured LED count.
    pub fn num_leds(&self) -> (n: u32)
        ensures
            n == self.leds(),
    {
        self.num_leds
    }

    /// Shared access to the bus sink.
    pub fn spi(&self) -> (s: &S)
        ensures
            *s == self.sink(),
    {
        &self.spi
    }

    /// Encode one channel byte and append its three bus bytes to the frame
    /// buffer.
    fn push_channel(&mut self, byte: u8)
        ensures
            final(self).buffer@ == old(self).buffer@ + spi_bytes(byte),
            final(self).spi == old(self).spi,
            final(self).num_leds == old(self).num_leds,
    {
        let enc = byte_to_spi_bytes(byte);
        self.buffer.push(enc[0]);
        self.buffer.push(enc[1]);
        self.buffer.push(enc[2]);
        proof {
            assert(self.buffer@ =~= old(self).buffer@ + spi_bytes(byte));
        }
    }

    /// Append the wire-order encodings of the given colors to the frame
    /// buffer.
    fn append_colors(&mut self, colors: &[ColorRGB])
        ensures
            final(self).buffer@ == old(self).buffer@ + encode_frame(wire_channel_bytes(colors@)),
            final(self).spi == old(self).spi,
            final(self).num_leds == old(self).num_leds,
    {
        let mut i: usize = 0;
        while i < colors.len()
            invariant
                i <= colors@.len(),
                self.buffer@ == old(self).buffer@ + encode_frame(
                    wire_channel_bytes(colors@.take(i as int)),
                ),
                self.spi == old(self).spi,
                self.num_leds == old(self).num_leds,
            decreases colors@.len() - i,
        {
            let color = *vstd::slice::slice_index_get(colors, i);
            let (c0, c1, c2) = to_wire_order(&color);
            proof {
                assert(colors@.take(i as int + 1) =~= colors@.take(i as int).push(
                    colors@[i as int],
                ));
                lemma_wire_channel_bytes_push(colors@.take(i as int), colors@[i as int]);
                lemma_encode_frame_concat(
                    wire_channel_bytes(colors@.take(i as int)),
                    spec_wire_order(colors@[i as int]),
                );
                lemma_encode_frame3(c0, c1, c2);
            }
            self.push_channel(c0);
            self.push_channel(c1);
            self.push_channel(c2);
            proof {
                assert(self.buffer@ =~= old(self).buffer@ + encode_frame(
                    wire_channel_bytes(colors@.take(i as int + 1)),
                ));
            }
            i = i + 1;
        }
        proof {
            assert(colors@.take(colors@.len() as int) =~= colors@);
        }
    }

    /// Hand the entire frame buffer to the bus sink in one transfer and
    /// empty the buffer; the buffer is drained even when the transfer fails,
    /// so no stale bytes survive into the next frame.
    pub fn write(&mut self) -> (r: Result<(), LedError>)
        ensures
            final(self).buf() == Seq::<u8>::empty(),
            final(self).leds() == old(self).leds(),
            r is Ok ==> final(self).log() == old(self).log().push(old(self).buf()),
            r is Err ==> r == Err::<(), LedError>(LedError::BusTransferError) && final(self).log()
                == old(self).log(),
    {
        let r = self.spi.transfer(self.buffer.as_slice());
        self.buffer.clear();
        r
    }

    /// Encode the given colors in wire order, append them to the frame
    /// buffer, and flush the whole buffer to the sink in one transfer.
    pub fn set_leds(&mut self, colors: &[ColorRGB]) -> (r: Result<(), LedError>)
        ensures
            final(self).buf() == Seq::<u8>::empty(),
            final(self).leds() == old(self).leds(),
            r is Ok ==> final(self).log() == old(self).log().push(
                old(self).buf() + encode_frame(wire_channel_bytes(colors@)),
            ),
            r is Err ==> r == Err::<(), LedError>(LedError::BusTransferError) && final(self).log()
                == old(self).log(),
    {
        self.append_colors(colors);
        self.write()
    }

    /// Turn every LED off: empty the buffer, append `num_leds` encoded zero
    /// colors (three zero channels per LED), and flush.
    pub fn clear_all_leds(&mut self) -> (r: Result<(), LedError>)
        ensures
            final(self).buf() == Seq::<u8>::empty(),
            final(self).leds() == old(self).leds(),
            r is Ok ==> final(self).log() == old(self).log().push(
                clear_payload(old(self).leds()),
            ),
            r is Err ==> r == Err::<(), LedError>(LedError::BusTransferError) && final(self).log()
                == old(self).log(),
    {
        self.buffer.clear();
        let mut i: u32 = 0;
        while i < self.num_leds
            invariant
                i <= self.num_leds,
                self.buffer@ == encode_frame(Seq::new(3 * i as nat, |j: int| 0u8)),
                self.spi == old(self).spi,
                self.num_leds == old(self).num_leds,
            decreases self.num_leds - i,
        {
            proof {
                let zi = Seq::new(3 * i as nat, |j: int| 0u8);
                let zi1 = Seq::new(3 * (i as nat + 1), |j: int| 0u8);
                assert(zi1 =~= zi + seq![0u8, 0u8, 0u8]);
                lemma_encode_frame_concat(zi, seq![0u8, 0u8, 0u8]);
                lemma_encode_frame3(0, 0, 0);
            }
            self.push_channel(0);
            self.push_channel(0);
            self.push_channel(0);
            proof {
                assert(self.buffer@ =~= encode_frame(Seq::new(3 * (i as nat + 1), |j: int| 0u8)));
            }
            i = i + 1;
        }
        self.write()
    }

    /// Parse the given hex color codes and append their wire-order encodings
    /// to the frame buffer. One malformed code rejects the whole batch
    /// before any buffer mutation.
    pub fn convert_and_push(&mut self, hex_codes: &[&str]) -> (r: Result<(), LedError>)
        ensures
            final(self).leds() == old(self).leds(),
            r is Ok <==> all_valid_hex(code_views(hex_codes@)),
            r is Ok ==> final(self).buf() == old(self).buf() + encode_frame(
                wire_channel_bytes(colors_of_hex(code_views(hex_codes@))),
            ) && final(self).log() == old(self).log(),
            r is Err ==> r == Err::<(), LedError>(LedError::InvalidColorFormat) && *final(self)
                == *old(self),
    {
        let mut colors: Vec<ColorRGB> = Vec::new();
        let mut i: usize = 0;
        while i < hex_codes.len()
            invariant
                i <= hex_codes@.len(),
                forall|j: int| 0 <= j < i ==> crate::hex::valid_hex_color(
                    #[trigger] code_views(hex_codes@)[j],
                ),
                colors@ == colors_of_hex(code_views(hex_codes@).take(i as int)),
                *self == *old(self),
            decreases hex_codes@.len() - i,
        {
            let code: &str = *vstd::slice::slice_index_get(hex_codes, i);
            match crate::hex::hex_to_bin(code) {
                Ok(c) => {
                    colors.push(c);
                    proof {
                        assert(code_views(hex_codes@).take(i as int + 1) =~= code_views(
                            hex_codes@,
                        ).take(i as int).push(code@));
                        assert(colors@ =~= colors_of_hex(
                            code_views(hex_codes@).take(i as int + 1),
                        ));
                    }
                },
                Err(e) => {
                    proof {
                        assert(!crate::hex::valid_hex_color(code_views(hex_codes@)[i as int]));
                    }
                    return Err(e);
                },
            }
            i = i + 1;
        }
        proof {
            assert(code_views(hex_codes@).take(hex_codes@.len() as int) =~= code_views(
                hex_codes@,
            ));
        }
        self.append_colors(colors.as_slice());
        Ok(())
    }

    /// Parse hex color codes, buffer their encodings, and flush to the sink
    /// in one step. Malformed input is rejected before any side effect; a
    /// bus failure still drains the buffer.
    pub fn convert_and_write(&mut self, hex_codes: &[&str]) -> (r: Result<(), LedError>)
        ensures
            final(self).leds() == old(self).leds(),
            r is Ok ==> all_valid_hex(code_views(hex_codes@)) && final(self).buf()
                == Seq::<u8>::empty() && final(self).log() == old(self).log().push(
                old(self).buf() + encode_frame(
                    wire_channel_bytes(colors_of_hex(code_views(hex_codes@))),
                ),
            ),
            r == Err::<(), LedError>(LedError::InvalidColorFormat) <==> !all_valid_hex(
                code_views(hex_codes@),
            ),
            r == Err::<(), LedError>(LedError::InvalidColorFormat) ==> *final(self) == *old(self),
            r == Err::<(), LedError>(LedError::BusTransferError) ==> all_valid_hex(
                code_views(hex_codes@),
            ) && final(self).buf() == Seq::<u8>::empty() && final(self).log() == old(self).log(),
    {
        match self.convert_and_push(hex_codes) {
            Ok(_) => {},
            Err(e) => {
                return Err(e);
            },
        }
        self.write()
    }
}

/// Appending one color appends its three wire-order channel bytes.
pub proof fn lemma_wire_channel_bytes_push(colors: Seq<ColorRGB>, c: ColorRGB)
    ensures
        wire_channel_bytes(colors.push(c)) == wire_channel_bytes(colors) + spec_wire_order(c),
    decreases colors.len(),
{
    if colors.len() == 0 {
        assert(colors.push(c)[0] == c);
        assert(colors.push(c).drop_first() =~= Seq::<ColorRGB>::empty());
        assert(wire_channel_bytes(Seq::<ColorRGB>::empty()) =~= Seq::<u8>::empty());
        assert(colors =~= Seq::<ColorRGB>::empty());
        assert(wire_channel_bytes(colors.push(c)) =~= wire_channel_bytes(colors)
            + spec_wire_order(c));
    } else {
        assert(colors.push(c)[0] == colors[0]);
        assert(colors.push(c).drop_first() =~= colors.drop_first().push(c));
        lemma_wire_channel_bytes_push(colors.drop_first(), c);
        assert(wire_channel_bytes(colors.push(c)) =~= wire_channel_bytes(colors)
            + spec_wire_order(c));
    }
}

/// Encoding distributes over concatenation of channel bytes.
pub proof fn lemma_encode_frame_concat(a: Seq<u8>, b: Seq<u8>)
    ensures
        encode_frame(a + b) == encode_frame(a) + encode_frame(b),
    decreases a.len(),
{
    if a.len() == 0 {
        assert(a + b =~= b);
        assert(encode_frame(a) + encode_frame(b) =~= encode_frame(b));
    } else {
        assert((a + b)[0] == a[0]);
        assert((a + b).drop_first() =~= a.drop_first() + b);
        lemma_encode_frame_concat(a.drop_first(), b);
        assert(encode_frame(a + b) =~= encode_frame(a) + encode_frame(b));
    }
}

/// One channel byte encodes to exactly its three bus bytes.
pub proof fn lemma_encode_frame_one(x: u8)
    ensures
        encode_frame(seq![x]) == spi_bytes(x),
{
    assert(seq![x].drop_first() =~= Seq::<u8>::empty());
    assert(encode_frame(Seq::<u8>::empty()) =~= Seq::<u8>::empty());
    assert(encode_frame(seq![x]) =~= spi_bytes(x));
}

/// Three channel bytes encode to the concatenation of their encodings.
pub proof fn lemma_encode_frame3(x: u8, y: u8, z: u8)
    ensures
        encode_frame(seq![x, y, z]) == spi_bytes(x) + spi_bytes(y) + spi_bytes(z),
{
    assert(seq![x, y, z] =~= seq![x] + (seq![y] + seq![z]));
    lemma_encode_frame_concat(seq![x], seq![y] + seq![z]);
    lemma_encode_frame_concat(seq![y], seq![z]);
    lemma_encode_frame_one(x);
    lemma_encode_frame_one(y);
    lemma_encode_frame_one(z);
    assert(encode_frame(seq![x, y, z]) =~= spi_bytes(x) + spi_bytes(y) + spi_bytes(z));
}

/// An encoded frame is three times as long as its channel bytes.
pub proof fn lemma_encode_frame_len(channels: Seq<u8>)
    ensures
        encode_frame(channels).len() == 3 * channels.len(),
    decreases channels.len(),
{
    if channels.len() == 0 {
    } else {
        lemma_encode_frame_len(channels.drop_first());
    }
}

/// Chunk `k` of an encoded frame is the encoding of channel byte `k`.
pub proof fn lemma_encode_frame_chunk(channels: Seq<u8>, k: int)
    requires
        0 <= k < channels.len(),
    ensures
        encode_frame(channels).subrange(3 * k, 3 * k + 3) == spi_bytes(channels[k]),
    decreases k,
{
    lemma_encode_frame_len(channels);
    if k == 0 {
        assert(encode_frame(channels).subrange(0, 3) =~= spi_bytes(channels[0]));
    } else {
        lemma_encode_frame_chunk(channels.drop_first(), k - 1);
        lemma_encode_frame_len(channels.drop_first());
        assert(encode_frame(channels).subrange(3 * k, 3 * k + 3) =~= encode_frame(
            channels.drop_first(),
        ).subrange(3 * (k - 1), 3 * (k - 1) + 3));
    }
}

/// Law: for a given LED count the clear payload is one fixed byte sequence,
/// `3 * num_leds` repetitions of the encoded zero channel; clearing
/// preserves the LED count, so two clear operations in a row hand the sink
/// identical payloads.
pub proof fn lemma_clear_payload_repeats_zero(num_leds: u32)
    ensures
        clear_payload(num_leds).len() == 9 * num_leds,
        forall|k: int|
            0 <= k < 3 * num_leds ==> #[trigger] clear_payload(num_leds).subrange(3 * k, 3 * k + 3)
                == spi_bytes(0),
{
    let zeros = Seq::new(3 * num_leds as nat, |i: int| 0u8);
    lemma_encode_frame_len(zeros);
    assert forall|k: int| 0 <= k < 3 * num_leds implies #[trigger] clear_payload(
        num_leds,
    ).subrange(3 * k, 3 * k + 3) == spi_bytes(0) by {
        lemma_encode_frame_chunk(zeros, k);
    }
}

/// Law: the payload flushed for a single color is the concatenation of the
/// encodings of its three channels in wire order (green, red, blue).
pub proof fn lemma_single_color_payload(c: ColorRGB)
    ensures
        encode_frame(wire_channel_bytes(seq![c])) == spi_bytes(c.1) + spi_bytes(c.0) + spi_bytes(
            c.2,
        ),
{
    assert(seq![c].drop_first() =~= Seq::<ColorRGB>::empty());
    assert(wire_channel_bytes(Seq::<ColorRGB>::empty()) =~= Seq::<u8>::empty());
    assert(wire_channel_bytes(seq![c]) =~= spec_wire_order(c));
    lemma_encode_frame3(c.1, c.0, c.2);
    assert(spec_wire_order(c) =~= seq![c.1, c.0, c.2]);
}

} // verus!
