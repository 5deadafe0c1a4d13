//! Control input sent from ground control to the drone, and the state flags that
//! packets carry.

use crate::single::Single;
use vstd::prelude::*;

verus! {

/// Weight of the armed flag.
pub const ARMED: u8 = 1;

/// Weight of the failsafe flag.
pub const FAILSAFE: u8 = 2;

/// Weight of the FIFO-overflow flag.
pub const FIFO_OVERFLOW: u8 = 4;

/// Whether the flag of weight `weight` is set in `byte`.
pub open spec fn flag_set(byte: u8, weight: u8) -> bool {
    byte as int / weight as int % 2 == 1
}

/// `byte` with the flag of weight `weight` set to `on` and every other bit kept.
pub open spec fn with_flag(byte: u8, weight: u8, on: bool) -> int {
    let cleared = if flag_set(byte, weight) {
        byte - weight
    } else {
        byte as int
    };
    if on {
        cleared + weight
    } else {
        cleared
    }
}

/// A byte of independent flags.
#[derive(Clone, Copy, Debug, PartialEq, Eq, Structural)]
pub struct Flags {
    pub byte: u8,
}

impl Flags {
    pub fn new(byte: u8) -> (r: Flags)
        ensures
            r.byte == byte,
    {
        Flags { byte }
    }

    /// The byte that stands for the flags on the wire.
    pub fn to_bytes(&self) -> (r: u8)
        ensures
            r == self.byte,
    {
        self.byte
    }

    /// Reads the flags from their byte. Every byte is accepted and kept whole.
    pub fn from_bytes(byte: u8) -> (r: Flags)
        ensures
            r.byte == byte,
    {
        Flags { byte }
    }

    pub fn armed(&self) -> (r: bool)
        ensures
            r == flag_set(self.byte, ARMED),
    {
        self.byte % 2 == 1
    }

    pub fn failsafe(&self) -> (r: bool)
        ensures
            r == flag_set(self.byte, FAILSAFE),
    {
        self.byte / FAILSAFE % 2 == 1
    }

    pub fn fifo_overflow(&self) -> (r: bool)
        ensures
            r == flag_set(self.byte, FIFO_OVERFLOW),
    {
        self.byte / FIFO_OVERFLOW % 2 == 1
    }

    pub fn set_armed(&mut self, on: bool)
        ensures
            final(self).byte == with_flag(old(self).byte, ARMED, on),
    {
        let set: bool = self.armed();
        if on && !set {
            self.byte = self.byte + ARMED;
        } else if !on && set {
            self.byte = self.byte - ARMED;
        }
    }

    pub fn set_failsafe(&mut self, on: bool)
        ensures
            final(self).byte == with_flag(old(self).byte, FAILSAFE, on),
    {
        let set: bool = self.failsafe();
        if on && !set {
            self.byte = self.byte + FAILSAFE;
        } else if !on && set {
            self.byte = self.byte - FAILSAFE;
        }
    }

    pub fn set_fifo_overflow(&mut self, on: bool)
        ensures
            final(self).byte == with_flag(old(self).byte, FIFO_OVERFLOW, on),
    {
        let set: bool = self.fifo_overflow();
        if on && !set {
            self.byte = self.byte + FIFO_OVERFLOW;
        } else if !on && set {
            self.byte = self.byte - FIFO_OVERFLOW;
        }
    }
}

/// Writing a flag changes that flag alone: it reads back as written, and the
/// other two read as before.
pub proof fn law_flags_are_independent(byte: u8, weight: u8, other: u8, on: bool)
    requires
        weight == ARMED || weight == FAILSAFE || weight == FIFO_OVERFLOW,
        other == ARMED || other == FAILSAFE || other == FIFO_OVERFLOW,
    ensures
        0 <= with_flag(byte, weight, on) < 0x100,
        flag_set(with_flag(byte, weight, on) as u8, weight) == on,
        other != weight ==> flag_set(with_flag(byte, weight, on) as u8, other) == flag_set(
            byte,
            other,
        ),
{
    let n = with_flag(byte, weight, on);
    if weight == ARMED {
        assert(n / 2 == byte as int / 2);
        assert(n / 4 == n / 2 / 2 && byte as int / 4 == byte as int / 2 / 2);
    } else if weight == FAILSAFE {
        assert(n % 2 == byte as int % 2);
        assert(n / 4 == byte as int / 4);
    } else {
        assert(n % 4 == byte as int % 4);
        assert(n / 2 % 2 == n % 4 / 2 && byte as int / 2 % 2 == byte as int % 4 / 2);
    }
}

/// Stick positions and arm switch.
#[derive(Clone, Copy, Debug)]
pub struct ControlPacket {
    /// throttle in percent
    pub throttle: u8,
    /// roll stick, between -1 and 1
    pub roll: Single,
    /// pitch stick, between -1 and 1
    pub pitch: Single,
    /// yaw stick, between -1 and 1
    pub yaw: Single,
    pub flags: Flags,
}

impl ControlPacket {
    /// Equality of the input: sticks compare as numbers.
    pub open spec fn equals(self, other: ControlPacket) -> bool {
        &&& self.throttle == other.throttle
        &&& self.roll.equals(other.roll)
        &&& self.pitch.equals(other.pitch)
        &&& self.yaw.equals(other.yaw)
        &&& self.flags == other.flags
    }

    /// The packet with its arm switch as given.
    pub open spec fn with_armed(self, on: bool) -> ControlPacket {
        ControlPacket { flags: Flags { byte: with_flag(self.flags.byte, ARMED, on) as u8 }, ..self }
    }

    pub fn new(throttle: u8, roll: Single, pitch: Single, yaw: Single, armed: bool) -> (r:
        ControlPacket)
        ensures
            r == (ControlPacket {
                throttle,
                roll,
                pitch,
                yaw,
                flags: Flags {
                    byte: if armed {
                        ARMED
                    } else {
                        0
                    },
                },
            }),
    {
        let mut flags: Flags = Flags::new(0);
        flags.set_armed(armed);
        ControlPacket { throttle, roll, pitch, yaw, flags }
    }

    pub fn armed(&self) -> (r: bool)
        ensures
            r == flag_set(self.flags.byte, ARMED),
    {
        self.flags.armed()
    }

    pub fn set_armed(&mut self, on: bool)
        ensures
            *final(self) == old(self).with_armed(on),
            flag_set(final(self).flags.byte, ARMED) == on,
    {
        proof {
            law_flags_are_independent(self.flags.byte, ARMED, ARMED, on);
        }
        self.flags.set_armed(on);
    }
}

impl PartialEq for ControlPacket {
    fn eq(&self, other: &ControlPacket) -> (r: bool) {
        self.throttle == other.throttle && self.roll == other.roll && self.pitch == other.pitch
            && self.yaw == other.yaw && self.flags == other.flags
    }
}

impl vstd::std_specs::cmp::PartialEqSpecImpl for ControlPacket {
    open spec fn obeys_eq_spec() -> bool {
        true
    }

    open spec fn eq_spec(&self, other: &ControlPacket) -> bool {
        self.equals(*other)
    }
}

/// Where the flags stand in their byte: armed in the lowest bit, failsafe in the
/// second and FIFO overflow in the third. The byte goes over the wire as it is.
pub proof fn law_flags_have_their_bits(
    flags: Flags,
    armed: bool,
    failsafe: bool,
    fifo_overflow: bool,
    sent: u8,
    received: Flags,
    made: Flags,
)
    requires
        call_ensures(Flags::armed, (&flags,), armed),
        call_ensures(Flags::failsafe, (&flags,), failsafe),
        call_ensures(Flags::fifo_overflow, (&flags,), fifo_overflow),
        call_ensures(Flags::to_bytes, (&flags,), sent),
        call_ensures(Flags::from_bytes, (sent,), received),
        call_ensures(Flags::new, (sent,), made),
    ensures
        armed <==> flags.byte % 2 == 1,
        failsafe <==> flags.byte / 2 % 2 == 1,
        fifo_overflow <==> flags.byte / 4 % 2 == 1,
        sent == flags.byte,
        received == flags && made == flags,
{
}

/// Writing a flag changes its own bit to what was asked for and no other bit.
pub proof fn law_written_flags_keep_other_bits(
    armed: &mut Flags,
    failsafe: &mut Flags,
    fifo_overflow: &mut Flags,
    on: bool,
)
    requires
        call_ensures(Flags::set_armed, (armed, on), ()),
        call_ensures(Flags::set_failsafe, (failsafe, on), ()),
        call_ensures(Flags::set_fifo_overflow, (fifo_overflow, on), ()),
    ensures
        final(armed).byte % 2 == 1 <==> on,
        final(armed).byte / 2 == old(armed).byte / 2,
        final(failsafe).byte / 2 % 2 == 1 <==> on,
        final(failsafe).byte % 2 == old(failsafe).byte % 2,
        final(failsafe).byte / 4 == old(failsafe).byte / 4,
        final(fifo_overflow).byte / 4 % 2 == 1 <==> on,
        final(fifo_overflow).byte % 4 == old(fifo_overflow).byte % 4,
        final(fifo_overflow).byte / 8 == old(fifo_overflow).byte / 8,
{
}

/// A packet holds what it was made of, with no flag but the arm switch, which reads
/// back as it was set while everything else stays.
pub proof fn law_packet_holds_its_input(
    throttle: u8,
    roll: Single,
    pitch: Single,
    yaw: Single,
    on: bool,
    made: ControlPacket,
    pkt: &mut ControlPacket,
    armed: bool,
)
    requires
        call_ensures(ControlPacket::new, (throttle, roll, pitch, yaw, on), made),
        call_ensures(ControlPacket::armed, (pkt,), armed),
        call_ensures(ControlPacket::set_armed, (pkt, on), ()),
    ensures
        made.throttle == throttle && made.roll == roll && made.pitch == pitch && made.yaw == yaw,
        on ==> made.flags.byte == 1,
        !on ==> made.flags.byte == 0,
        armed <==> old(pkt).flags.byte % 2 == 1,
        final(pkt).flags.byte % 2 == 1 <==> on,
        final(pkt).flags.byte / 2 == old(pkt).flags.byte / 2,
        final(pkt).throttle == old(pkt).throttle,
        final(pkt).roll == old(pkt).roll,
        final(pkt).pitch == old(pkt).pitch,
        final(pkt).yaw == old(pkt).yaw,
{
    law_flags_are_independent(old(pkt).flags.byte, ARMED, ARMED, on);
}

/// Two packets are the same input if throttle and flags are and every stick stands
/// at the same number.
pub proof fn law_equal_packets_are_equal_input(
    a: ControlPacket,
    b: ControlPacket,
    equal: bool,
)
    requires
        call_ensures(ControlPacket::eq, (&a, &b), equal),
    ensures
        equal <==> {
            &&& a.throttle == b.throttle && a.flags.byte == b.flags.byte
            &&& !a.roll.nan() && !b.roll.nan() && a.roll.value() == b.roll.value()
            &&& !a.pitch.nan() && !b.pitch.nan() && a.pitch.value() == b.pitch.value()
            &&& !a.yaw.nan() && !b.yaw.nan() && a.yaw.value() == b.yaw.value()
        },
{
}

} // verus!
