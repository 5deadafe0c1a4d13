//! The long telemetry layout: the short one followed by the raw inputs and
//! outputs of the control loop.

use crate::control::{flag_set, with_flag, Flags, ARMED, FAILSAFE, FIFO_OVERFLOW};
use crate::single::{Single, Vector};
use crate::telemetry;
use crate::wire::{be32, be32_at, get_u32, lemma_be32_round_trip, put_u32};
use vstd::prelude::*;

verus! {

/// Length of an encoded packet: the short layout, four vectors and the tick time.
pub const TELEMETRY_SIZE: usize = 77;

/// The readings of the short layout and the loop's raw inputs and outputs.
#[derive(Clone, Copy, Debug)]
pub struct TelemetryPacket {
    /// roll, in degrees
    pub roll: Single,
    /// pitch, in degrees
    pub pitch: Single,
    /// yaw, in degrees
    pub yaw: Single,
    /// motor duties in PWM ticks: front left, front right, rear left, rear right
    pub motors: (u16, u16, u16, u16),
    /// gyro rates in rad/s
    pub gyro: Vector,
    /// rate controller output before mixing: roll, pitch, yaw
    pub torques: Vector,
    /// gyro zero-rate bias estimate in rad/s
    pub gyro_bias: Vector,
    /// time since the previous tick, in seconds
    pub dt: Single,
    /// corrected accelerometer reading in g
    pub accel: Vector,
    /// armed, failsafe and FIFO-overflow flags
    pub flags: Flags,
}

/// The twelve bytes of a vector.
pub open spec fn be_vector(v: Vector) -> Seq<u8> {
    be32(v.x.bits) + be32(v.y.bits) + be32(v.z.bits)
}

/// The vector at offset `at`.
pub open spec fn vector_at(s: Seq<u8>, at: int) -> Vector {
    Vector {
        x: Single { bits: be32_at(s, at) },
        y: Single { bits: be32_at(s, at + 4) },
        z: Single { bits: be32_at(s, at + 8) },
    }
}

/// Reading a vector at an offset gives back what was written there.
proof fn lemma_vector_round_trip(s: Seq<u8>, at: int, v: Vector)
    requires
        0 <= at,
        at + 12 <= s.len(),
    ensures
        s.subrange(at, at + 12) == be_vector(v) <==> vector_at(s, at) == v,
{
    lemma_be32_round_trip(s, at, v.x.bits);
    lemma_be32_round_trip(s, at + 4, v.y.bits);
    lemma_be32_round_trip(s, at + 8, v.z.bits);
    let w = s.subrange(at, at + 12);
    assert(w.subrange(0, 4) =~= s.subrange(at, at + 4));
    assert(w.subrange(4, 8) =~= s.subrange(at + 4, at + 8));
    assert(w.subrange(8, 12) =~= s.subrange(at + 8, at + 12));
    assert(w =~= w.subrange(0, 4) + w.subrange(4, 8) + w.subrange(8, 12));
    let e = be_vector(v);
    assert(e.subrange(0, 4) =~= be32(v.x.bits));
    assert(e.subrange(4, 8) =~= be32(v.y.bits));
    assert(e.subrange(8, 12) =~= be32(v.z.bits));
}

/// Writes a vector behind the first `at` bytes, which stay as they are.
fn put_vector(out: &mut [u8; TELEMETRY_SIZE], at: usize, v: Vector)
    requires
        at + 12 <= TELEMETRY_SIZE,
    ensures
        final(out)@.subrange(0, at + 12) == old(out)@.subrange(0, at as int) + be_vector(v),
{
    put_u32(out, at, v.x.bits);
    put_u32(out, at + 4, v.y.bits);
    put_u32(out, at + 8, v.z.bits);
}

/// Reads the vector at offset `at`.
fn get_vector(buf: &[u8], at: usize) -> (v: Vector)
    requires
        at + 12 <= buf@.len(),
    ensures
        v == vector_at(buf@, at as int),
{
    let _len: usize = buf.len();
    Vector {
        x: Single { bits: get_u32(buf, at) },
        y: Single { bits: get_u32(buf, at + 4) },
        z: Single { bits: get_u32(buf, at + 8) },
    }
}

impl TelemetryPacket {
    /// The part that the short layout carries too.
    pub open spec fn base(self) -> telemetry::TelemetryPacket {
        telemetry::TelemetryPacket {
            roll: self.roll,
            pitch: self.pitch,
            yaw: self.yaw,
            motors: self.motors,
            flags: self.flags,
        }
    }

    /// The encoded packet.
    pub open spec fn encoded(self) -> Seq<u8> {
        self.base().encoded() + be_vector(self.gyro) + be_vector(self.torques) + be_vector(
            self.gyro_bias,
        ) + be32(self.dt.bits) + be_vector(self.accel)
    }

    /// The packet that the first bytes of a buffer encode.
    pub open spec fn decoded(buf: Seq<u8>) -> Option<TelemetryPacket> {
        match telemetry::TelemetryPacket::decoded(buf) {
            Some(base) if buf.len() >= TELEMETRY_SIZE => Some(
                TelemetryPacket {
                    roll: base.roll,
                    pitch: base.pitch,
                    yaw: base.yaw,
                    motors: base.motors,
                    gyro: vector_at(buf, 25),
                    torques: vector_at(buf, 37),
                    gyro_bias: vector_at(buf, 49),
                    dt: Single { bits: be32_at(buf, 61) },
                    accel: vector_at(buf, 65),
                    flags: base.flags,
                },
            ),
            _ => None,
        }
    }

    /// Equality of the readings: single-precision fields compare as numbers.
    pub open spec fn equals(self, other: TelemetryPacket) -> bool {
        &&& self.base().equals(other.base())
        &&& self.gyro.equals(other.gyro)
        &&& self.torques.equals(other.torques)
        &&& self.gyro_bias.equals(other.gyro_bias)
        &&& self.dt.equals(other.dt)
        &&& self.accel.equals(other.accel)
    }

    /// A packet with the given readings and a clear FIFO-overflow flag.
    #[allow(clippy::too_many_arguments)]
    pub fn new(
        roll: Single,
        pitch: Single,
        yaw: Single,
        motors: (u16, u16, u16, u16),
        armed: bool,
        failsafe: bool,
        gyro: Vector,
        torques: Vector,
        gyro_bias: Vector,
        dt: Single,
        accel: Vector,
    ) -> (r: TelemetryPacket)
        ensures
            r == (TelemetryPacket {
                roll,
                pitch,
                yaw,
                motors,
                gyro,
                torques,
                gyro_bias,
                dt,
                accel,
                flags: r.flags,
            }),
            r.flags.byte == (if armed {
                ARMED as int
            } else {
                0
            }) + (if failsafe {
                FAILSAFE as int
            } else {
                0
            }),
    {
        let mut flags: Flags = Flags::new(0);
        flags.set_armed(armed);
        flags.set_failsafe(failsafe);
        TelemetryPacket {
            roll,
            pitch,
            yaw,
            motors,
            gyro,
            torques,
            gyro_bias,
            dt,
            accel,
            flags,
        }
    }

    /// Marks the packet as produced right after a FIFO overflow.
    pub fn set_fifo_overflow(&mut self, b: bool)
        ensures
            final(self).flags.byte == with_flag(old(self).flags.byte, FIFO_OVERFLOW, b),
            *final(self) == (TelemetryPacket { flags: final(self).flags, ..*old(self) }),
    {
        self.flags.set_fifo_overflow(b);
    }

    /// The readings that the short layout carries too.
    fn to_base(&self) -> (r: telemetry::TelemetryPacket)
        ensures
            r == self.base(),
    {
        telemetry::TelemetryPacket {
            roll: self.roll,
            pitch: self.pitch,
            yaw: self.yaw,
            motors: self.motors,
            flags: self.flags,
        }
    }

    /// Encodes the packet.
    pub fn to_bytes(&self) -> (r: [u8; TELEMETRY_SIZE])
        ensures
            r@ == self.encoded(),
    {
        let head: [u8; telemetry::TELEMETRY_SIZE] = self.to_base().to_bytes();
        let mut out: [u8; TELEMETRY_SIZE] = [0;TELEMETRY_SIZE];
        let mut i: usize = 0;
        while i < telemetry::TELEMETRY_SIZE
            invariant
                i <= telemetry::TELEMETRY_SIZE,
                out@.subrange(0, i as int) == head@.subrange(0, i as int),
            decreases telemetry::TELEMETRY_SIZE - i,
        {
            out[i] = head[i];
            i += 1;
            assert(out@.subrange(0, i as int) =~= out@.subrange(0, i - 1).push(out@[i - 1]));
            assert(head@.subrange(0, i as int) =~= head@.subrange(0, i - 1).push(head@[i - 1]));
        }
        assert(head@.subrange(0, 25) =~= head@);
        put_vector(&mut out, 25, self.gyro);
        put_vector(&mut out, 37, self.torques);
        put_vector(&mut out, 49, self.gyro_bias);
        put_u32(&mut out, 61, self.dt.bits);
        put_vector(&mut out, 65, self.accel);
        assert(out@.subrange(0, 77) =~= out@);
        out
    }

    /// Decodes the packet at the start of `buf`. Fails on a buffer that is too
    /// short or does not start with the tag.
    pub fn from_bytes(buf: &[u8]) -> (r: Option<TelemetryPacket>)
        ensures
            r == TelemetryPacket::decoded(buf@),
    {
        if buf.len() < TELEMETRY_SIZE {
            return None;
        }
        match telemetry::TelemetryPacket::from_bytes(buf) {
            None => None,
            Some(base) => Some(
                TelemetryPacket {
                    roll: base.roll,
                    pitch: base.pitch,
                    yaw: base.yaw,
                    motors: base.motors,
                    gyro: get_vector(buf, 25),
                    torques: get_vector(buf, 37),
                    gyro_bias: get_vector(buf, 49),
                    dt: Single { bits: get_u32(buf, 61) },
                    accel: get_vector(buf, 65),
                    flags: base.flags,
                },
            ),
        }
    }

    pub fn armed(&self) -> (r: bool)
        ensures
            r == flag_set(self.flags.byte, ARMED),
    {
        self.flags.armed()
    }

    pub fn failsafe(&self) -> (r: bool)
        ensures
            r == flag_set(self.flags.byte, FAILSAFE),
    {
        self.flags.failsafe()
    }

    pub fn fifo_overflow(&self) -> (r: bool)
        ensures
            r == flag_set(self.flags.byte, FIFO_OVERFLOW),
    {
        self.flags.fifo_overflow()
    }
}

impl PartialEq for TelemetryPacket {
    fn eq(&self, other: &TelemetryPacket) -> (r: bool) {
        self.to_base() == other.to_base() && self.gyro == other.gyro && self.torques
            == other.torques && self.gyro_bias == other.gyro_bias && self.dt == other.dt
            && self.accel == other.accel
    }
}

impl vstd::std_specs::cmp::PartialEqSpecImpl for TelemetryPacket {
    open spec fn obeys_eq_spec() -> bool {
        true
    }

    open spec fn eq_spec(&self, other: &TelemetryPacket) -> bool {
        self.equals(*other)
    }
}

/// Where the parts of an encoded packet lie.
proof fn lemma_parts(
    head: Seq<u8>,
    gyro: Seq<u8>,
    torques: Seq<u8>,
    bias: Seq<u8>,
    dt: Seq<u8>,
    accel: Seq<u8>,
    tail: Seq<u8>,
)
    requires
        head.len() == 25,
        gyro.len() == 12,
        torques.len() == 12,
        bias.len() == 12,
        dt.len() == 4,
        accel.len() == 12,
    ensures
        ({
            let s = head + gyro + torques + bias + dt + accel + tail;
            &&& s.len() >= 77
            &&& s == head + s.subrange(25, s.len() as int)
            &&& s.subrange(25, 37) == gyro
            &&& s.subrange(37, 49) == torques
            &&& s.subrange(49, 61) == bias
            &&& s.subrange(61, 65) == dt
            &&& s.subrange(65, 77) == accel
        }),
{
    let s = head + gyro + torques + bias + dt + accel + tail;
    assert(s =~= head + s.subrange(25, s.len() as int));
    assert(s.subrange(25, 37) =~= gyro);
    assert(s.subrange(37, 49) =~= torques);
    assert(s.subrange(49, 61) =~= bias);
    assert(s.subrange(61, 65) =~= dt);
    assert(s.subrange(65, 77) =~= accel);
}

/// Decoding an encoded packet gives the packet back, whatever follows it in
/// the buffer.
pub proof fn law_decode_of_encode(p: TelemetryPacket, tail: Seq<u8>)
    ensures
        TelemetryPacket::decoded(p.encoded() + tail) == Some(p),
{
    let s = p.encoded() + tail;
    let head = p.base().encoded();
    telemetry::lemma_encoded_length(p.base());
    lemma_parts(
        head,
        be_vector(p.gyro),
        be_vector(p.torques),
        be_vector(p.gyro_bias),
        be32(p.dt.bits),
        be_vector(p.accel),
        tail,
    );
    telemetry::law_decode_of_encode(p.base(), s.subrange(25, s.len() as int));
    lemma_vector_round_trip(s, 25, p.gyro);
    lemma_vector_round_trip(s, 37, p.torques);
    lemma_vector_round_trip(s, 49, p.gyro_bias);
    lemma_be32_round_trip(s, 61, p.dt.bits);
    lemma_vector_round_trip(s, 65, p.accel);
    assert(telemetry::TelemetryPacket::decoded(s) == Some(p.base()));
}

/// Encoding a decoded packet gives back the bytes it was read from.
pub proof fn law_encode_of_decode(buf: Seq<u8>)
    requires
        TelemetryPacket::decoded(buf) is Some,
    ensures
        TelemetryPacket::decoded(buf)->0.encoded() == buf.subrange(0, TELEMETRY_SIZE as int),
{
    let p = TelemetryPacket::decoded(buf)->0;
    telemetry::law_encode_of_decode(buf);
    assert(telemetry::TelemetryPacket::decoded(buf) == Some(p.base()));
    lemma_vector_round_trip(buf, 25, p.gyro);
    lemma_vector_round_trip(buf, 37, p.torques);
    lemma_vector_round_trip(buf, 49, p.gyro_bias);
    lemma_be32_round_trip(buf, 61, p.dt.bits);
    lemma_vector_round_trip(buf, 65, p.accel);
    assert(p.encoded() =~= buf.subrange(0, 25) + buf.subrange(25, 37) + buf.subrange(37, 49)
        + buf.subrange(49, 61) + buf.subrange(61, 65) + buf.subrange(65, 77));
    assert(p.encoded() =~= buf.subrange(0, TELEMETRY_SIZE as int));
}

/// The first bytes of a long packet are the short packet of the same readings.
pub proof fn law_long_layout_extends_short(p: TelemetryPacket)
    ensures
        p.encoded().subrange(0, telemetry::TELEMETRY_SIZE as int) == p.base().encoded(),
        telemetry::TelemetryPacket::decoded(p.encoded()) == Some(p.base()),
{
    let s = p.encoded();
    let head = p.base().encoded();
    telemetry::lemma_encoded_length(p.base());
    assert(s.subrange(0, 25) =~= head);
    let rest = s.subrange(25, s.len() as int);
    assert(s =~= head + rest);
    telemetry::law_decode_of_encode(p.base(), rest);
}

/// Where a long packet keeps its readings on the wire: behind the short layout come
/// the rates, the torques, the bias, the tick time and the acceleration.
pub proof fn law_layout_of_sent_packet(
    p: TelemetryPacket,
    base: telemetry::TelemetryPacket,
    sent: [u8; TELEMETRY_SIZE],
    head: [u8; telemetry::TELEMETRY_SIZE],
)
    requires
        call_ensures(TelemetryPacket::to_bytes, (&p,), sent),
        base.roll == p.roll && base.pitch == p.pitch && base.yaw == p.yaw,
        base.motors == p.motors && base.flags == p.flags,
        call_ensures(telemetry::TelemetryPacket::to_bytes, (&base,), head),
    ensures
        sent@.len() == 77,
        forall|i: int| 0 <= i < 25 ==> #[trigger] sent@[i] == head@[i],
        be32_at(sent@, 25) == p.gyro.x.bits,
        be32_at(sent@, 29) == p.gyro.y.bits,
        be32_at(sent@, 33) == p.gyro.z.bits,
        be32_at(sent@, 37) == p.torques.x.bits,
        be32_at(sent@, 41) == p.torques.y.bits,
        be32_at(sent@, 45) == p.torques.z.bits,
        be32_at(sent@, 49) == p.gyro_bias.x.bits,
        be32_at(sent@, 53) == p.gyro_bias.y.bits,
        be32_at(sent@, 57) == p.gyro_bias.z.bits,
        be32_at(sent@, 61) == p.dt.bits,
        be32_at(sent@, 65) == p.accel.x.bits,
        be32_at(sent@, 69) == p.accel.y.bits,
        be32_at(sent@, 73) == p.accel.z.bits,
{
    law_decode_of_encode(p, Seq::empty());
    assert(p.encoded() + Seq::<u8>::empty() =~= sent@);
    law_long_layout_extends_short(p);
    assert(base == p.base());
    assert forall|i: int| 0 <= i < 25 implies #[trigger] sent@[i] == head@[i] by {
        assert(sent@.subrange(0, 25)[i] == head@[i]);
    }
    telemetry::lemma_encoded_length(base);
}

/// What is read of a buffer: a packet exactly if there are 77 bytes that start with
/// the tag, and then the readings of the short layout and the rest at their places.
pub proof fn law_layout_of_received_packet(
    buf: &[u8],
    r: Option<TelemetryPacket>,
    short: Option<telemetry::TelemetryPacket>,
)
    requires
        call_ensures(TelemetryPacket::from_bytes, (buf,), r),
        call_ensures(telemetry::TelemetryPacket::from_bytes, (buf,), short),
    ensures
        r is Some <==> buf@.len() >= 77 && short is Some,
        r matches Some(p) ==> {
            &&& p.roll == short->0.roll && p.pitch == short->0.pitch && p.yaw == short->0.yaw
            &&& p.motors == short->0.motors && p.flags == short->0.flags
            &&& p.gyro.x.bits == be32_at(buf@, 25)
            &&& p.gyro.y.bits == be32_at(buf@, 29)
            &&& p.gyro.z.bits == be32_at(buf@, 33)
            &&& p.torques.x.bits == be32_at(buf@, 37)
            &&& p.torques.y.bits == be32_at(buf@, 41)
            &&& p.torques.z.bits == be32_at(buf@, 45)
            &&& p.gyro_bias.x.bits == be32_at(buf@, 49)
            &&& p.gyro_bias.y.bits == be32_at(buf@, 53)
            &&& p.gyro_bias.z.bits == be32_at(buf@, 57)
            &&& p.dt.bits == be32_at(buf@, 61)
            &&& p.accel.x.bits == be32_at(buf@, 65)
            &&& p.accel.y.bits == be32_at(buf@, 69)
            &&& p.accel.z.bits == be32_at(buf@, 73)
        },
{
}

/// A packet holds what it was made of, armed in the lowest bit of its flags and
/// failsafe in the next; the FIFO-overflow mark is the third bit and touches no
/// other reading.
pub proof fn law_packet_holds_its_readings(
    attitude: (Single, Single, Single),
    motors: (u16, u16, u16, u16),
    armed: bool,
    failsafe: bool,
    rates: (Vector, Vector, Vector),
    dt: Single,
    accel: Vector,
    made: TelemetryPacket,
    p: &mut TelemetryPacket,
    overflow: bool,
)
    requires
        call_ensures(
            TelemetryPacket::new,
            (
                attitude.0,
                attitude.1,
                attitude.2,
                motors,
                armed,
                failsafe,
                rates.0,
                rates.1,
                rates.2,
                dt,
                accel,
            ),
            made,
        ),
        call_ensures(TelemetryPacket::set_fifo_overflow, (p, overflow), ()),
    ensures
        made.roll == attitude.0 && made.pitch == attitude.1 && made.yaw == attitude.2,
        made.motors == motors && made.dt == dt && made.accel == accel,
        made.gyro == rates.0 && made.torques == rates.1 && made.gyro_bias == rates.2,
        made.flags.byte % 2 == 1 <==> armed,
        made.flags.byte / 2 % 2 == 1 <==> failsafe,
        made.flags.byte < 4,
        final(p).flags.byte / 4 % 2 == 1 <==> overflow,
        final(p).flags.byte % 4 == old(p).flags.byte % 4,
        final(p).flags.byte / 8 == old(p).flags.byte / 8,
        final(p).roll == old(p).roll && final(p).pitch == old(p).pitch,
        final(p).yaw == old(p).yaw && final(p).motors == old(p).motors,
        final(p).gyro == old(p).gyro && final(p).torques == old(p).torques,
        final(p).gyro_bias == old(p).gyro_bias && final(p).dt == old(p).dt,
        final(p).accel == old(p).accel,
{
}

/// The flags of a packet read from their bits, and two packets are equal if every
/// reading is, as numbers.
pub proof fn law_packet_is_read_by_its_parts(
    p: TelemetryPacket,
    other: TelemetryPacket,
    armed: bool,
    failsafe: bool,
    overflow: bool,
    equal: bool,
)
    requires
        call_ensures(TelemetryPacket::armed, (&p,), armed),
        call_ensures(TelemetryPacket::failsafe, (&p,), failsafe),
        call_ensures(TelemetryPacket::fifo_overflow, (&p,), overflow),
        call_ensures(TelemetryPacket::eq, (&p, &other), equal),
    ensures
        armed <==> p.flags.byte % 2 == 1,
        failsafe <==> p.flags.byte / 2 % 2 == 1,
        overflow <==> p.flags.byte / 4 % 2 == 1,
        equal <==> {
            &&& p.roll.equals(other.roll) && p.pitch.equals(other.pitch) && p.yaw.equals(other.yaw)
            &&& p.motors == other.motors && p.flags.byte == other.flags.byte
            &&& p.gyro.equals(other.gyro) && p.torques.equals(other.torques)
            &&& p.gyro_bias.equals(other.gyro_bias) && p.dt.equals(other.dt)
            &&& p.accel.equals(other.accel)
        },
{
}

} // verus!
