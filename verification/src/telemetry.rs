//! Telemetry packets sent from the drone to ground control.
//!
//! A packet is a fixed sequence of big-endian fields behind a four-byte tag.
//! Two layouts exist, [`TelemetryPacket`] here and the longer one in
//! [`crate::telemetry_verbose`]; both ends of the link must agree on which is
//! in use.

use crate::control::{flag_set, with_flag, Flags, ARMED, FAILSAFE, FIFO_OVERFLOW};
use crate::single::Single;
use crate::wire::{
    be16, be16_at, be32, be32_at, get_u16, get_u32, lemma_be16_round_trip, lemma_be32_round_trip,
    put_u16, put_u32,
};
use vstd::prelude::*;

verus! {

/// The tag that every telemetry packet starts with, `TELM`.
pub const TELEMETRY_MAGIC: [u8; 4] = [0x54, 0x45, 0x4c, 0x4d];

/// Length of an encoded packet: tag, three angles, four duties, flags.
pub const TELEMETRY_SIZE: usize = 25;

/// Attitude, motor duties and state flags of one control-loop tick.
#[derive(Clone, Copy, Debug)]
pub struct TelemetryPacket {
    /// roll, in degrees
    pub roll: Single,
    /// pitch, in degrees
    pub pitch: Single,
    /// yaw, in degrees
    pub yaw: Single,
    /// motor duties in PWM ticks: front left, front right, rear left, rear right
    pub motors: (u16, u16, u16, u16),
    /// armed, failsafe and FIFO-overflow flags
    pub flags: Flags,
}

impl TelemetryPacket {
    /// The encoded packet.
    pub open spec fn encoded(self) -> Seq<u8> {
        TELEMETRY_MAGIC@ + be32(self.roll.bits) + be32(self.pitch.bits) + be32(self.yaw.bits)
            + be16(self.motors.0) + be16(self.motors.1) + be16(self.motors.2) + be16(self.motors.3)
            + seq![self.flags.byte]
    }

    /// The packet that the first bytes of a buffer encode.
    pub open spec fn decoded(buf: Seq<u8>) -> Option<TelemetryPacket> {
        if buf.len() >= TELEMETRY_SIZE && buf.subrange(0, 4) == TELEMETRY_MAGIC@ {
            Some(
                TelemetryPacket {
                    roll: Single { bits: be32_at(buf, 4) },
                    pitch: Single { bits: be32_at(buf, 8) },
                    yaw: Single { bits: be32_at(buf, 12) },
                    motors: (
                        be16_at(buf, 16),
                        be16_at(buf, 18),
                        be16_at(buf, 20),
                        be16_at(buf, 22),
                    ),
                    flags: Flags { byte: buf[24] },
                },
            )
        } else {
            None
        }
    }

    /// Equality of the readings: angles compare as numbers.
    pub open spec fn equals(self, other: TelemetryPacket) -> bool {
        &&& self.roll.equals(other.roll)
        &&& self.pitch.equals(other.pitch)
        &&& self.yaw.equals(other.yaw)
        &&& self.motors == other.motors
        &&& self.flags == other.flags
    }

    /// A packet with the given readings and a clear FIFO-overflow flag.
    pub fn new(
        roll: Single,
        pitch: Single,
        yaw: Single,
        motors: (u16, u16, u16, u16),
        armed: bool,
        failsafe: bool,
    ) -> (r: TelemetryPacket)
        ensures
            r.roll == roll,
            r.pitch == pitch,
            r.yaw == yaw,
            r.motors == motors,
            r.flags.byte == (if armed {
                ARMED as int
            } else {
                0
            }) + (if failsafe {
                FAILSAFE as int
            } else {
                0
            }),
    {
        let mut flags: Flags = Flags::new(0);
        flags.set_armed(armed);
        flags.set_failsafe(failsafe);
        TelemetryPacket { roll, pitch, yaw, motors, flags }
    }

    /// Marks the packet as produced right after a FIFO overflow.
    pub fn set_fifo_overflow(&mut self, b: bool)
        ensures
            final(self).flags.byte == with_flag(old(self).flags.byte, FIFO_OVERFLOW, b),
            *final(self) == (TelemetryPacket { flags: final(self).flags, ..*old(self) }),
    {
        self.flags.set_fifo_overflow(b);
    }

    /// Encodes the packet.
    pub fn to_bytes(&self) -> (r: [u8; TELEMETRY_SIZE])
        ensures
            r@ == self.encoded(),
    {
        let mut out: [u8; TELEMETRY_SIZE] = [0;TELEMETRY_SIZE];
        out[0] = TELEMETRY_MAGIC[0];
        out[1] = TELEMETRY_MAGIC[1];
        out[2] = TELEMETRY_MAGIC[2];
        out[3] = TELEMETRY_MAGIC[3];
        assert(out@.subrange(0, 4) =~= TELEMETRY_MAGIC@);
        put_u32(&mut out, 4, self.roll.bits);
        put_u32(&mut out, 8, self.pitch.bits);
        put_u32(&mut out, 12, self.yaw.bits);
        put_u16(&mut out, 16, self.motors.0);
        put_u16(&mut out, 18, self.motors.1);
        put_u16(&mut out, 20, self.motors.2);
        put_u16(&mut out, 22, self.motors.3);
        let ghost head = out@.subrange(0, 24);
        out[24] = self.flags.to_bytes();
        assert(out@ =~= head + seq![self.flags.byte]);
        out
    }

    /// Decodes the packet at the start of `buf`. Fails on a buffer that is too
    /// short or does not start with the tag.
    pub fn from_bytes(buf: &[u8]) -> (r: Option<TelemetryPacket>)
        ensures
            r == TelemetryPacket::decoded(buf@),
    {
        if buf.len() < TELEMETRY_SIZE {
            return None;
        }
        proof {
            assert(buf@.subrange(0, 4) =~= seq![buf@[0], buf@[1], buf@[2], buf@[3]]);
            assert(TELEMETRY_MAGIC@ =~= seq![0x54u8, 0x45, 0x4c, 0x4d]);
        }
        if buf[0] != TELEMETRY_MAGIC[0] || buf[1] != TELEMETRY_MAGIC[1] || buf[2]
            != TELEMETRY_MAGIC[2] || buf[3] != TELEMETRY_MAGIC[3] {
            assert(buf@.subrange(0, 4) != TELEMETRY_MAGIC@) by {
                if buf@.subrange(0, 4) == TELEMETRY_MAGIC@ {
                    assert(buf@.subrange(0, 4)[0] == TELEMETRY_MAGIC@[0]);
                    assert(buf@.subrange(0, 4)[1] == TELEMETRY_MAGIC@[1]);
                    assert(buf@.subrange(0, 4)[2] == TELEMETRY_MAGIC@[2]);
                    assert(buf@.subrange(0, 4)[3] == TELEMETRY_MAGIC@[3]);
                }
            }
            return None;
        }
        assert(buf@.subrange(0, 4) =~= TELEMETRY_MAGIC@);
        Some(
            TelemetryPacket {
                roll: Single { bits: get_u32(buf, 4) },
                pitch: Single { bits: get_u32(buf, 8) },
                yaw: Single { bits: get_u32(buf, 12) },
                motors: (get_u16(buf, 16), get_u16(buf, 18), get_u16(buf, 20), get_u16(buf, 22)),
                flags: Flags::from_bytes(buf[24]),
            },
        )
    }

    pub fn armed(&self) -> (r: bool)
        ensures
            r == flag_set(self.flags.byte, ARMED),
    {
        self.flags.armed()
    }

    pub fn failsafe(&self) -> (r: bool)
        ensures
            r == flag_set(self.flags.byte, FAILSAFE),
    {
        self.flags.failsafe()
    }

    pub fn fifo_overflow(&self) -> (r: bool)
        ensures
            r == flag_set(self.flags.byte, FIFO_OVERFLOW),
    {
        self.flags.fifo_overflow()
    }
}

impl PartialEq for TelemetryPacket {
    fn eq(&self, other: &TelemetryPacket) -> (r: bool) {
        self.roll == other.roll && self.pitch == other.pitch && self.yaw == other.yaw
            && self.motors.0 == other.motors.0 && self.motors.1 == other.motors.1 && self.motors.2
            == other.motors.2 && self.motors.3 == other.motors.3 && self.flags == other.flags
    }
}

impl vstd::std_specs::cmp::PartialEqSpecImpl for TelemetryPacket {
    open spec fn obeys_eq_spec() -> bool {
        true
    }

    open spec fn eq_spec(&self, other: &TelemetryPacket) -> bool {
        self.equals(*other)
    }
}

/// Every encoded packet has the same length.
pub proof fn lemma_encoded_length(p: TelemetryPacket)
    ensures
        p.encoded().len() == TELEMETRY_SIZE,
{
    assert(TELEMETRY_MAGIC@.len() == 4);
}

/// Decoding an encoded packet gives the packet back, whatever follows it in
/// the buffer.
pub proof fn law_decode_of_encode(p: TelemetryPacket, tail: Seq<u8>)
    ensures
        TelemetryPacket::decoded(p.encoded() + tail) == Some(p),
{
    let s = p.encoded() + tail;
    lemma_encoded_length(p);
    assert(TELEMETRY_MAGIC@.len() == 4);
    assert(s.subrange(0, 4) =~= TELEMETRY_MAGIC@);
    assert(s.subrange(4, 8) =~= be32(p.roll.bits));
    assert(s.subrange(8, 12) =~= be32(p.pitch.bits));
    assert(s.subrange(12, 16) =~= be32(p.yaw.bits));
    assert(s.subrange(16, 18) =~= be16(p.motors.0));
    assert(s.subrange(18, 20) =~= be16(p.motors.1));
    assert(s.subrange(20, 22) =~= be16(p.motors.2));
    assert(s.subrange(22, 24) =~= be16(p.motors.3));
    lemma_be32_round_trip(s, 4, p.roll.bits);
    lemma_be32_round_trip(s, 8, p.pitch.bits);
    lemma_be32_round_trip(s, 12, p.yaw.bits);
    lemma_be16_round_trip(s, 16, p.motors.0);
    lemma_be16_round_trip(s, 18, p.motors.1);
    lemma_be16_round_trip(s, 20, p.motors.2);
    lemma_be16_round_trip(s, 22, p.motors.3);
}

/// Encoding a decoded packet gives back the bytes it was read from.
pub proof fn law_encode_of_decode(buf: Seq<u8>)
    requires
        TelemetryPacket::decoded(buf) is Some,
    ensures
        TelemetryPacket::decoded(buf)->0.encoded() == buf.subrange(0, TELEMETRY_SIZE as int),
{
    let p = TelemetryPacket::decoded(buf)->0;
    lemma_be32_round_trip(buf, 4, p.roll.bits);
    lemma_be32_round_trip(buf, 8, p.pitch.bits);
    lemma_be32_round_trip(buf, 12, p.yaw.bits);
    lemma_be16_round_trip(buf, 16, p.motors.0);
    lemma_be16_round_trip(buf, 18, p.motors.1);
    lemma_be16_round_trip(buf, 20, p.motors.2);
    lemma_be16_round_trip(buf, 22, p.motors.3);
    assert(p.encoded() =~= buf.subrange(0, 4) + buf.subrange(4, 8) + buf.subrange(8, 12)
        + buf.subrange(12, 16) + buf.subrange(16, 18) + buf.subrange(18, 20) + buf.subrange(20, 22)
        + buf.subrange(22, 24) + seq![buf[24]]);
    assert(p.encoded() =~= buf.subrange(0, TELEMETRY_SIZE as int));
}

/// Where a packet keeps its readings on the wire: the tag, the attitude as three
/// numbers, the four motors and the flags, one behind the other.
pub proof fn law_layout_of_sent_packet(p: TelemetryPacket, sent: [u8; TELEMETRY_SIZE])
    requires
        call_ensures(TelemetryPacket::to_bytes, (&p,), sent),
    ensures
        sent@.len() == 25,
        sent@[0] == 0x54 && sent@[1] == 0x45 && sent@[2] == 0x4c && sent@[3] == 0x4d,
        be32_at(sent@, 4) == p.roll.bits,
        be32_at(sent@, 8) == p.pitch.bits,
        be32_at(sent@, 12) == p.yaw.bits,
        be16_at(sent@, 16) == p.motors.0,
        be16_at(sent@, 18) == p.motors.1,
        be16_at(sent@, 20) == p.motors.2,
        be16_at(sent@, 22) == p.motors.3,
        sent@[24] == p.flags.byte,
{
    law_decode_of_encode(p, Seq::empty());
    assert(p.encoded() + Seq::<u8>::empty() =~= sent@);
    lemma_encoded_length(p);
    lemma_tag(sent@);
}

/// The tag spelled out.
proof fn lemma_tag(s: Seq<u8>)
    requires
        s.len() >= 4,
    ensures
        s.subrange(0, 4) == TELEMETRY_MAGIC@ <==> s[0] == 0x54 && s[1] == 0x45 && s[2] == 0x4c
            && s[3] == 0x4d,
{
    let head = s.subrange(0, 4);
    assert(TELEMETRY_MAGIC@ =~= seq![0x54u8, 0x45, 0x4c, 0x4d]);
    assert(head[0] == s[0] && head[1] == s[1] && head[2] == s[2] && head[3] == s[3]);
    if s[0] == 0x54 && s[1] == 0x45 && s[2] == 0x4c && s[3] == 0x4d {
        assert(head =~= TELEMETRY_MAGIC@);
    }
}

/// What is read of a buffer: a packet exactly if there are 25 bytes that start with
/// the tag, and then the readings at their places.
pub proof fn law_layout_of_received_packet(buf: &[u8], r: Option<TelemetryPacket>)
    requires
        call_ensures(TelemetryPacket::from_bytes, (buf,), r),
    ensures
        r is Some <==> buf@.len() >= 25 && buf@[0] == 0x54 && buf@[1] == 0x45 && buf@[2] == 0x4c
            && buf@[3] == 0x4d,
        r matches Some(p) ==> {
            &&& p.roll.bits == be32_at(buf@, 4)
            &&& p.pitch.bits == be32_at(buf@, 8)
            &&& p.yaw.bits == be32_at(buf@, 12)
            &&& p.motors.0 == be16_at(buf@, 16)
            &&& p.motors.1 == be16_at(buf@, 18)
            &&& p.motors.2 == be16_at(buf@, 20)
            &&& p.motors.3 == be16_at(buf@, 22)
            &&& p.flags.byte == buf@[24]
        },
{
    if buf@.len() >= 25 {
        lemma_tag(buf@);
    }
}

/// A packet holds what it was made of, armed in the lowest bit of its flags and
/// failsafe in the next; the FIFO-overflow mark is the third bit and touches no
/// other reading.
pub proof fn law_packet_holds_its_readings(
    roll: Single,
    pitch: Single,
    yaw: Single,
    motors: (u16, u16, u16, u16),
    armed: bool,
    failsafe: bool,
    made: TelemetryPacket,
    p: &mut TelemetryPacket,
    overflow: bool,
)
    requires
        call_ensures(TelemetryPacket::new, (roll, pitch, yaw, motors, armed, failsafe), made),
        call_ensures(TelemetryPacket::set_fifo_overflow, (p, overflow), ()),
    ensures
        made.roll == roll && made.pitch == pitch && made.yaw == yaw && made.motors == motors,
        made.flags.byte % 2 == 1 <==> armed,
        made.flags.byte / 2 % 2 == 1 <==> failsafe,
        made.flags.byte < 4,
        final(p).flags.byte / 4 % 2 == 1 <==> overflow,
        final(p).flags.byte % 4 == old(p).flags.byte % 4,
        final(p).flags.byte / 8 == old(p).flags.byte / 8,
        final(p).roll == old(p).roll && final(p).pitch == old(p).pitch,
        final(p).yaw == old(p).yaw && final(p).motors == old(p).motors,
{
}

/// The flags of a packet read from their bits, and two packets are equal if every
/// reading is, the attitude as numbers.
pub proof fn law_packet_is_read_by_its_parts(
    p: TelemetryPacket,
    other: TelemetryPacket,
    armed: bool,
    failsafe: bool,
    overflow: bool,
    equal: bool,
)
    requires
        call_ensures(TelemetryPacket::armed, (&p,), armed),
        call_ensures(TelemetryPacket::failsafe, (&p,), failsafe),
        call_ensures(TelemetryPacket::fifo_overflow, (&p,), overflow),
        call_ensures(TelemetryPacket::eq, (&p, &other), equal),
    ensures
        armed <==> p.flags.byte % 2 == 1,
        failsafe <==> p.flags.byte / 2 % 2 == 1,
        overflow <==> p.flags.byte / 4 % 2 == 1,
        equal <==> p.roll.equals(other.roll) && p.pitch.equals(other.pitch) && p.yaw.equals(
            other.yaw,
        ) && p.motors == other.motors && p.flags.byte == other.flags.byte,
{
}

} // verus!
