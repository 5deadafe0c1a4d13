//! The CRSF packet parser of the `crsf` crate, as the radio logic sees it.

use vstd::arithmetic::power2::pow2;
use vstd::prelude::*;

verus! {

/// Bytes in front of a frame body: address and body length.
pub const HEADER_LENGTH: usize = 2;

/// Shortest legal frame body: type and checksum.
pub const BODY_MIN: usize = 2;

/// Longest legal frame body.
pub const BODY_MAX: usize = 62;

/// Longest frame, and capacity of the parser's buffer.
pub const FRAME_MAX: usize = 64;

/// Frame type of packed stick and switch channels.
pub const TYPE_CHANNELS: u8 = 0x16;

/// Frame type of link statistics.
pub const TYPE_LINK_STATISTICS: u8 = 0x14;

/// Bytes of a channel frame up to the last packed channel: header, type and
/// sixteen channels of eleven bits.
pub const CHANNELS_END: usize = 25;

/// Bytes of a statistics frame up to its last field: header, type and ten fields.
pub const LINK_STATISTICS_END: usize = 13;

/// `crsf::PacketParser`, a buffer of received bytes from which frames are cut.
#[verifier::external_type_specification]
#[verifier::external_body]
pub struct ExPacketParser<const C: usize>(crsf::PacketParser<C>);

/// `crsf::RawPacket`, one frame cut out of the received bytes.
#[verifier::external_type_specification]
#[verifier::external_body]
pub struct ExRawPacket(crsf::RawPacket);

/// The bytes a parser holds, oldest first.
pub uninterp spec fn parser_bytes(parser: crsf::PacketParser<64>) -> Seq<u8>;

/// The bytes of a frame, from its address to its checksum.
pub uninterp spec fn frame_bytes(frame: crsf::RawPacket) -> Seq<u8>;

/// A checksum shifted by one bit, reduced by the polynomial 0xd5.
pub open spec fn crc_shift(crc: u8) -> u8 {
    if crc >= 0x80 {
        ((2 * crc - 0x100) as u8) ^ 0xd5
    } else {
        (2 * crc) as u8
    }
}

/// A checksum shifted by `n` bits.
pub open spec fn crc_shifts(crc: u8, n: nat) -> u8
    decreases n,
{
    if n == 0 {
        crc
    } else {
        crc_shift(crc_shifts(crc, (n - 1) as nat))
    }
}

/// The checksum of a frame's type and payload, CRC-8/DVB-S2: polynomial 0xd5,
/// starting at 0, highest bit first.
pub open spec fn crsf_checksum(covered: Seq<u8>) -> u8
    decreases covered.len(),
{
    if covered.len() == 0 {
        0
    } else {
        crc_shifts(crsf_checksum(covered.drop_last()) ^ covered.last(), 8)
    }
}

/// Whether a byte is a device address, which every frame starts with.
pub open spec fn is_address(byte: u8) -> bool {
    byte == 0xee || byte == 0xea || byte == 0xc8 || byte == 0xec
}

/// Whether a byte is a legal body length.
pub open spec fn is_body_length(byte: u8) -> bool {
    BODY_MIN <= byte <= BODY_MAX
}

/// The received bytes from the first address on.
pub open spec fn synced(s: Seq<u8>) -> Seq<u8>
    decreases s.len(),
{
    if s.len() == 0 || is_address(s[0]) {
        s
    } else {
        synced(s.skip(1))
    }
}

/// What a buffer holds after `bytes` are pushed: those that no longer fit are lost.
pub open spec fn pushed(s: Seq<u8>, bytes: Seq<u8>) -> Seq<u8> {
    if s.len() + bytes.len() <= FRAME_MAX {
        s + bytes
    } else {
        s + bytes.take(FRAME_MAX - s.len())
    }
}

/// A byte string read as one little-endian number.
pub open spec fn le_number(s: Seq<u8>) -> int
    decreases s.len(),
{
    if s.len() == 0 {
        0
    } else {
        s[0] + 0x100 * le_number(s.skip(1))
    }
}

/// Channel `i` of a payload: eleven bits each, packed from the lowest bit up.
pub open spec fn packed_channel(payload: Seq<u8>, i: int) -> int {
    le_number(payload) / pow2((11 * i) as nat) as int % 0x800
}

/// Whether a frame announces a payload that it is too short to hold.
pub open spec fn cut_short(frame: Seq<u8>) -> bool {
    ||| frame[2] == TYPE_CHANNELS && frame.len() < CHANNELS_END
    ||| frame[2] == TYPE_LINK_STATISTICS && frame.len() < LINK_STATISTICS_END
}

/// Content of a complete frame.
#[derive(Clone, Copy, Debug)]
pub enum Decoded {
    /// the sixteen channel values
    Channels([u16; 16]),
    /// link statistics
    LinkStatistics,
    /// a type that is not decoded
    UnknownType,
    /// the checksum does not match
    Damaged,
}

/// The content of a frame whose checksum, computed over type and payload, is
/// `checksum`.
pub open spec fn decodes_to(frame: Seq<u8>, checksum: u8, r: Decoded) -> bool {
    if checksum != frame.last() {
        r is Damaged
    } else if frame[2] == TYPE_CHANNELS {
        &&& r is Channels
        &&& forall|i: int|
            0 <= i < 16 ==> #[trigger] r->Channels_0@[i] == packed_channel(frame.skip(3), i)
    } else if frame[2] == TYPE_LINK_STATISTICS {
        r is LinkStatistics
    } else {
        r is UnknownType
    }
}

/// `crsf::PacketParser::new`: the parser starts out empty.
#[verifier::external_body]
pub(crate) fn new_parser() -> (r: crsf::PacketParser<64>)
    ensures
        parser_bytes(r) == Seq::<u8>::empty(),
{
    crsf::PacketParser::new()
}

/// `crsf::PacketParser::push_bytes`: appends the bytes up to the buffer's
/// capacity and silently drops the rest.
#[verifier::external_body]
pub(crate) fn push_bytes(parser: &mut crsf::PacketParser<64>, bytes: &[u8])
    requires
        parser_bytes(*old(parser)).len() <= FRAME_MAX,
    ensures
        parser_bytes(*final(parser)) == pushed(parser_bytes(*old(parser)), bytes@),
{
    parser.push_bytes(bytes)
}

/// `crsf::PacketParser::next_raw_packet`: drops bytes up to the first address.
/// An illegal body length is reported and its header dropped; an incomplete
/// frame is left in place; a complete one is cut out, together with everything
/// behind it up to the length of the longest frame.
#[verifier::external_body]
pub(crate) fn next_raw_packet(parser: &mut crsf::PacketParser<64>) -> (r: Option<
    Result<crsf::RawPacket, ()>,
>)
    ensures
        ({
            let s = synced(parser_bytes(*old(parser)));
            let rest = parser_bytes(*final(parser));
            match r {
                None => {
                    &&& s.len() < HEADER_LENGTH || (is_body_length(s[1]) && s.len() < HEADER_LENGTH
                        + s[1])
                    &&& rest == s
                },
                Some(Err(_)) => {
                    &&& s.len() >= HEADER_LENGTH
                    &&& !is_body_length(s[1])
                    &&& rest == s.skip(HEADER_LENGTH as int)
                },
                Some(Ok(frame)) => {
                    &&& s.len() >= HEADER_LENGTH
                    &&& is_body_length(s[1])
                    &&& s.len() >= HEADER_LENGTH + s[1]
                    &&& frame_bytes(frame) == s.take(HEADER_LENGTH + s[1])
                    &&& rest == if s.len() <= FRAME_MAX {
                        Seq::<u8>::empty()
                    } else {
                        s.skip(FRAME_MAX as int)
                    }
                },
            }
        }),
{
    parser.next_raw_packet().map(|r| r.map_err(|_| ()))
}

/// `crsf::RawPacket::data`: the bytes of the frame.
pub assume_specification[ crsf::RawPacket::data ](frame: &crsf::RawPacket) -> (r: &[u8])
    ensures
        r@ == frame_bytes(*frame),
;

/// `crsf::Packet::from_raw`: compares the frame's last byte with the CRC-8/DVB-S2
/// checksum of type and payload, then decodes the payload by type. Channel values are
/// stated for a little-endian machine. A frame that is cut short is left out:
/// decoding it reads past its end.
#[verifier::external_body]
pub(crate) fn decode(frame: &crsf::RawPacket) -> (r: Decoded)
    requires
        4 <= frame_bytes(*frame).len() <= FRAME_MAX,
        !cut_short(frame_bytes(*frame)),
    ensures
        decodes_to(
            frame_bytes(*frame),
            crsf_checksum(frame_bytes(*frame).subrange(2, frame_bytes(*frame).len() - 1)),
            r,
        ),
{
    match crsf::Packet::from_raw(frame) {
        Ok(crsf::Packet::RcChannels(channels)) => Decoded::Channels(channels.0),
        Ok(_) => Decoded::LinkStatistics,
        Err(crsf::PacketError::UnknownType { .. }) => Decoded::UnknownType,
        Err(_) => Decoded::Damaged,
    }
}

} // verus!
