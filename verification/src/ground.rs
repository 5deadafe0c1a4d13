//! Ground control: gamepad input, when to send, and what to make of replies.

use crate::calibrate::CalibrationMode;
use crate::control::{flag_set, law_flags_are_independent, ControlPacket, ARMED, FIFO_OVERFLOW};
use crate::single::Single;
use crate::telemetry;
use crate::telemetry_verbose;
use vstd::prelude::*;

verus! {

/// USB vendor of the RadioMaster.
pub const RADIOMASTER_VENDOR_ID: u16 = 0x1209;

/// USB product of the RadioMaster.
pub const RADIOMASTER_PRODUCT_ID: u16 = 0x4f54;

/// Longest time between two packets, in microseconds.
pub const HEARTBEAT_US: u64 = 100_000;

/// Whether a gamepad is the RadioMaster, whose switch may arm.
pub fn is_radiomaster(vendor: Option<u16>, product: Option<u16>) -> (r: bool)
    ensures
        r == (vendor == Some(RADIOMASTER_VENDOR_ID) && product == Some(RADIOMASTER_PRODUCT_ID)),
{
    match (vendor, product) {
        (Some(v), Some(p)) => v == RADIOMASTER_VENDOR_ID && p == RADIOMASTER_PRODUCT_ID,
        _ => false,
    }
}

/// What a gamepad reports.
#[derive(Clone, Copy, Debug)]
pub enum PadEvent {
    /// left stick up or down, as a throttle in percent
    Throttle(u8),
    /// right stick sideways
    Roll(Single),
    /// right stick up or down
    Pitch(Single),
    /// left stick sideways
    Yaw(Single),
    /// momentary start button
    StartPressed,
    /// select switch on, and whether the gamepad is the RadioMaster
    SelectPressed { radiomaster: bool },
    /// select switch off, and whether the gamepad is the RadioMaster
    SelectReleased { radiomaster: bool },
    Connected,
    Disconnected,
    /// anything else
    Other,
}

/// The control input after a gamepad event. Start toggles the arm switch;
/// select sets it, but on a RadioMaster only. A gamepad that disconnects leaves
/// the drone disarmed and without throttle.
pub open spec fn after_event(pkt: ControlPacket, event: PadEvent) -> ControlPacket {
    match event {
        PadEvent::Throttle(throttle) => ControlPacket { throttle, ..pkt },
        PadEvent::Roll(roll) => ControlPacket { roll, ..pkt },
        PadEvent::Pitch(pitch) => ControlPacket { pitch, ..pkt },
        PadEvent::Yaw(yaw) => ControlPacket { yaw, ..pkt },
        PadEvent::StartPressed => pkt.with_armed(!flag_set(pkt.flags.byte, ARMED)),
        PadEvent::SelectPressed { radiomaster: true } => pkt.with_armed(true),
        PadEvent::SelectReleased { radiomaster: true } => pkt.with_armed(false),
        PadEvent::Disconnected => ControlPacket { throttle: 0, ..pkt }.with_armed(false),
        _ => pkt,
    }
}

/// Applies a gamepad event. Returns true when the connection is to be torn
/// down: the packet is then sent once more, whether or not a send was due.
pub fn apply_event(pkt: &mut ControlPacket, event: PadEvent) -> (r: bool)
    ensures
        *final(pkt) == after_event(*old(pkt), event),
        r == (event is Disconnected),
        event matches PadEvent::Throttle(throttle) ==> final(pkt).throttle == throttle,
        event matches PadEvent::Roll(roll) ==> final(pkt).roll == roll,
        event matches PadEvent::Pitch(pitch) ==> final(pkt).pitch == pitch,
        event matches PadEvent::Yaw(yaw) ==> final(pkt).yaw == yaw,
{
    match event {
        PadEvent::Throttle(throttle) => {
            pkt.throttle = throttle;
            false
        },
        PadEvent::Roll(roll) => {
            pkt.roll = roll;
            false
        },
        PadEvent::Pitch(pitch) => {
            pkt.pitch = pitch;
            false
        },
        PadEvent::Yaw(yaw) => {
            pkt.yaw = yaw;
            false
        },
        PadEvent::StartPressed => {
            let armed: bool = pkt.armed();
            pkt.set_armed(!armed);
            false
        },
        PadEvent::SelectPressed { radiomaster: true } => {
            pkt.set_armed(true);
            false
        },
        PadEvent::SelectReleased { radiomaster: true } => {
            pkt.set_armed(false);
            false
        },
        PadEvent::Disconnected => {
            pkt.throttle = 0;
            pkt.set_armed(false);
            true
        },
        _ => false,
    }
}

/// The control input after a sequence of events.
pub open spec fn after_events(pkt: ControlPacket, events: Seq<PadEvent>) -> ControlPacket
    decreases events.len(),
{
    if events.len() == 0 {
        pkt
    } else {
        after_event(after_events(pkt, events.drop_last()), events.last())
    }
}

/// Nothing arms by accident: from disarmed, an event arms only if it is the start
/// button or the select switch of a RadioMaster.
pub proof fn law_only_arm_controls_arm(pkt: ControlPacket, event: PadEvent)
    requires
        !flag_set(pkt.flags.byte, ARMED),
        flag_set(after_event(pkt, event).flags.byte, ARMED),
    ensures
        event is StartPressed || event == (PadEvent::SelectPressed { radiomaster: true }),
{
    law_flags_are_independent(pkt.flags.byte, ARMED, ARMED, false);
}

/// Without the start button and without a RadioMaster the drone stays disarmed,
/// whatever else comes in.
pub proof fn law_stays_disarmed(pkt: ControlPacket, events: Seq<PadEvent>)
    requires
        !flag_set(pkt.flags.byte, ARMED),
        forall|i: int|
            0 <= i < events.len() ==> !((#[trigger] events[i]) is StartPressed) && events[i] != (
            PadEvent::SelectPressed { radiomaster: true }),
    ensures
        !flag_set(after_events(pkt, events).flags.byte, ARMED),
    decreases events.len(),
{
    if events.len() > 0 {
        let before = events.drop_last();
        let last = events[events.len() - 1];
        assert forall|i: int| 0 <= i < before.len() implies !((#[trigger]
        before[i]) is StartPressed) && before[i] != (PadEvent::SelectPressed {
            radiomaster: true,
        }) by {
            assert(before[i] == events[i]);
        }
        law_stays_disarmed(pkt, before);
        if flag_set(after_event(after_events(pkt, before), last).flags.byte, ARMED) {
            law_only_arm_controls_arm(after_events(pkt, before), last);
        }
    }
}

/// A gamepad that disconnects leaves the drone disarmed and without throttle.
pub proof fn law_disconnect_disarms(pkt: ControlPacket)
    ensures
        !flag_set(after_event(pkt, PadEvent::Disconnected).flags.byte, ARMED),
        after_event(pkt, PadEvent::Disconnected).throttle == 0,
{
    law_flags_are_independent(pkt.flags.byte, ARMED, ARMED, false);
}

/// Two presses of the start button leave the arm switch where it was.
pub proof fn law_start_toggles(pkt: ControlPacket)
    ensures
        flag_set(after_event(pkt, PadEvent::StartPressed).flags.byte, ARMED) == !flag_set(
            pkt.flags.byte,
            ARMED,
        ),
        after_event(after_event(pkt, PadEvent::StartPressed), PadEvent::StartPressed) == pkt,
{
    law_flags_are_independent(
        pkt.flags.byte,
        ARMED,
        ARMED,
        !flag_set(pkt.flags.byte, ARMED),
    );
}

/// Time since `then`, none if the clock went backwards.
pub open spec fn elapsed(then: u64, now: u64) -> int {
    if now >= then {
        now - then
    } else {
        0
    }
}

/// Decides when control input is sent: on any change, and otherwise as a heartbeat.
#[derive(Clone, Copy, Debug)]
pub struct SendPolicy {
    pub last_sent: Option<ControlPacket>,
    /// when it was sent, in microseconds
    pub last_send_at: u64,
}

impl SendPolicy {
    /// Whether `pkt` is to be sent now.
    pub open spec fn is_due(self, pkt: ControlPacket, now: u64) -> bool {
        ||| elapsed(self.last_send_at, now) >= HEARTBEAT_US
        ||| !(self.last_sent matches Some(last) && last.equals(pkt))
    }

    /// Nothing sent yet on a connection made now.
    pub fn new(now: u64) -> (r: SendPolicy)
        ensures
            r == (SendPolicy { last_sent: None, last_send_at: now }),
    {
        SendPolicy { last_sent: None, last_send_at: now }
    }

    fn since_send(&self, now: u64) -> (r: u64)
        ensures
            r == elapsed(self.last_send_at, now),
    {
        if now >= self.last_send_at {
            now - self.last_send_at
        } else {
            0
        }
    }

    /// How long to wait for input at most: up to the next heartbeat.
    pub fn wait(&self, now: u64) -> (r: u64)
        ensures
            r == if elapsed(self.last_send_at, now) >= HEARTBEAT_US {
                0
            } else {
                HEARTBEAT_US - elapsed(self.last_send_at, now)
            },
    {
        let since: u64 = self.since_send(now);
        if since >= HEARTBEAT_US {
            0
        } else {
            HEARTBEAT_US - since
        }
    }

    /// Whether `pkt` is to be sent now.
    pub fn send_due(&self, pkt: &ControlPacket, now: u64) -> (r: bool)
        ensures
            r == self.is_due(*pkt, now),
    {
        if self.since_send(now) >= HEARTBEAT_US {
            return true;
        }
        match self.last_sent {
            Some(last) => !(last == *pkt),
            None => true,
        }
    }

    /// Notes that `pkt` has been sent.
    pub fn sent(&mut self, pkt: ControlPacket, now: u64)
        ensures
            *final(self) == (SendPolicy { last_sent: Some(pkt), last_send_at: now }),
    {
        self.last_sent = Some(pkt);
        self.last_send_at = now;
    }
}

/// The heartbeat holds: whoever waits as long as told, finds a send due
/// whatever the sticks did. `waited` is when the wait is over.
pub proof fn law_heartbeat_is_never_missed(
    policy: SendPolicy,
    pkt: ControlPacket,
    now: u64,
    waited: u64,
)
    requires
        policy.last_send_at <= now,
        waited >= now + (if elapsed(policy.last_send_at, now) >= HEARTBEAT_US {
            0
        } else {
            HEARTBEAT_US - elapsed(policy.last_send_at, now)
        }),
    ensures
        policy.is_due(pkt, waited),
{
}

/// Right after a send nothing is due until a stick or switch moves, as long as
/// the sticks are numbers.
pub proof fn law_no_repeat_before_heartbeat(pkt: ControlPacket, sent_at: u64, now: u64)
    requires
        !pkt.roll.nan() && !pkt.pitch.nan() && !pkt.yaw.nan(),
        now < sent_at + HEARTBEAT_US,
    ensures
        !(SendPolicy { last_sent: Some(pkt), last_send_at: sent_at }).is_due(pkt, now),
{
}

/// A telemetry line to log.
#[derive(Clone, Copy, Debug)]
pub struct TelemetryReport {
    pub packet: telemetry::TelemetryPacket,
    /// log it as a warning
    pub warn: bool,
}

/// Watches telemetry replies and reports those that bring something new.
#[derive(Clone, Copy, Debug)]
pub struct TelemetryMonitor {
    pub last: Option<telemetry::TelemetryPacket>,
}

impl TelemetryMonitor {
    pub fn new() -> (r: TelemetryMonitor)
        ensures
            r.last is None,
    {
        TelemetryMonitor { last: None }
    }

    /// Takes in a datagram of `length` bytes in `buf`. Only whole packets from
    /// the drone count; of those, one that differs from the one before is
    /// reported, as a warning after a FIFO overflow.
    pub fn receive(
        &mut self,
        length: usize,
        from_drone: bool,
        buf: &[u8; telemetry::TELEMETRY_SIZE],
    ) -> (r: Option<TelemetryReport>)
        ensures
            ({
                let packet = if length == telemetry::TELEMETRY_SIZE && from_drone {
                    telemetry::TelemetryPacket::decoded(buf@)
                } else {
                    None
                };
                match packet {
                    Some(t) => {
                        &&& final(self).last == Some(t)
                        &&& r == if old(self).last matches Some(last) && last.equals(t) {
                            None
                        } else {
                            Some(
                                TelemetryReport {
                                    packet: t,
                                    warn: flag_set(t.flags.byte, FIFO_OVERFLOW),
                                },
                            )
                        }
                    },
                    None => r is None && final(self).last == old(self).last,
                }
            }),
    {
        if length != telemetry::TELEMETRY_SIZE || !from_drone {
            return None;
        }
        match telemetry::TelemetryPacket::from_bytes(buf) {
            Some(t) => {
                let seen: bool = match self.last {
                    Some(last) => last == t,
                    None => false,
                };
                self.last = Some(t);
                if seen {
                    None
                } else {
                    Some(TelemetryReport { packet: t, warn: t.fifo_overflow() })
                }
            },
            None => None,
        }
    }
}

/// A line of the longer telemetry to log.
#[derive(Clone, Copy, Debug)]
pub struct VerboseReport {
    pub packet: telemetry_verbose::TelemetryPacket,
    /// log it as a warning
    pub warn: bool,
}

/// Watches replies of the longer telemetry in the same way.
#[derive(Clone, Copy, Debug)]
pub struct VerboseMonitor {
    pub last: Option<telemetry_verbose::TelemetryPacket>,
}

impl VerboseMonitor {
    pub fn new() -> (r: VerboseMonitor)
        ensures
            r.last is None,
    {
        VerboseMonitor { last: None }
    }

    /// Takes in a datagram, see [`TelemetryMonitor::receive`].
    pub fn receive(
        &mut self,
        length: usize,
        from_drone: bool,
        buf: &[u8; telemetry_verbose::TELEMETRY_SIZE],
    ) -> (r: Option<VerboseReport>)
        ensures
            ({
                let packet = if length == telemetry_verbose::TELEMETRY_SIZE && from_drone {
                    telemetry_verbose::TelemetryPacket::decoded(buf@)
                } else {
                    None
                };
                match packet {
                    Some(t) => {
                        &&& final(self).last == Some(t)
                        &&& r == if old(self).last matches Some(last) && last.equals(t) {
                            None
                        } else {
                            Some(
                                VerboseReport {
                                    packet: t,
                                    warn: flag_set(t.flags.byte, FIFO_OVERFLOW),
                                },
                            )
                        }
                    },
                    None => r is None && final(self).last == old(self).last,
                }
            }),
    {
        if length != telemetry_verbose::TELEMETRY_SIZE || !from_drone {
            return None;
        }
        match telemetry_verbose::TelemetryPacket::from_bytes(buf) {
            Some(t) => {
                let seen: bool = match self.last {
                    Some(last) => last == t,
                    None => false,
                };
                self.last = Some(t);
                if seen {
                    None
                } else {
                    Some(VerboseReport { packet: t, warn: t.fifo_overflow() })
                }
            },
            None => None,
        }
    }
}

/// What the calibration client does after a wait for a reply.
#[derive(Clone, Copy, Debug, PartialEq, Eq, Structural)]
pub enum ClientAction {
    /// go on waiting
    Wait,
    /// show the prompt, then go on waiting
    Prompt(CalibrationMode),
    /// calibration was saved
    Complete,
    /// calibration was not saved
    Failed,
}

/// What a wait for a reply brought.
#[derive(Clone, Copy, Debug, PartialEq, Eq, Structural)]
pub enum Reply {
    /// nothing in time, or a datagram of another size
    Nothing,
    /// a datagram of the right size, and what it says if that makes sense
    Datagram(Option<CalibrationMode>),
}

/// Follows a calibration session from ground control.
#[derive(Clone, Copy, Debug, PartialEq, Eq, Structural)]
pub struct CalibrateClient {
    /// the drone has answered
    pub started: bool,
}

impl CalibrateClient {
    pub fn new() -> (r: CalibrateClient)
        ensures
            !r.started,
    {
        CalibrateClient { started: false }
    }

    /// Whether the start request is to be sent (again): until the drone answers,
    /// in case one got lost.
    pub fn start_due(&self) -> (r: bool)
        ensures
            r == !self.started,
    {
        !self.started
    }

    /// Takes in what a wait brought.
    pub fn on_reply(&mut self, reply: Reply) -> (r: ClientAction)
        ensures
            final(self).started == (old(self).started || reply is Datagram),
            r == match reply {
                Reply::Nothing => ClientAction::Wait,
                Reply::Datagram(None) => ClientAction::Wait,
                Reply::Datagram(Some(CalibrationMode::Ended)) => ClientAction::Complete,
                Reply::Datagram(Some(CalibrationMode::Failed)) => ClientAction::Failed,
                Reply::Datagram(Some(mode)) => ClientAction::Prompt(mode),
            },
    {
        match reply {
            Reply::Nothing => ClientAction::Wait,
            Reply::Datagram(mode) => {
                self.started = true;
                match mode {
                    None => ClientAction::Wait,
                    Some(CalibrationMode::Ended) => ClientAction::Complete,
                    Some(CalibrationMode::Failed) => ClientAction::Failed,
                    Some(pose) => ClientAction::Prompt(pose),
                }
            },
        }
    }
}

/// A stick moves its own axis and nothing else, armed or not: after the event the
/// axis stands where the stick stands, and every other part of the input, the arm
/// switch included, is what it was.
pub proof fn law_sticks_move_their_own_axis(pkt: &mut ControlPacket, event: PadEvent, r: bool)
    requires
        call_ensures(apply_event, (pkt, event), r),
        event is Throttle || event is Roll || event is Pitch || event is Yaw,
    ensures
        event matches PadEvent::Throttle(throttle) ==> final(pkt).throttle == throttle,
        event matches PadEvent::Roll(roll) ==> final(pkt).roll == roll,
        event matches PadEvent::Pitch(pitch) ==> final(pkt).pitch == pitch,
        event matches PadEvent::Yaw(yaw) ==> final(pkt).yaw == yaw,
        !(event is Throttle) ==> final(pkt).throttle == old(pkt).throttle,
        !(event is Roll) ==> final(pkt).roll == old(pkt).roll,
        !(event is Pitch) ==> final(pkt).pitch == old(pkt).pitch,
        !(event is Yaw) ==> final(pkt).yaw == old(pkt).yaw,
        final(pkt).flags == old(pkt).flags,
        !r,
{
}

/// The arm controls move the lowest bit of the flags and nothing else: start turns
/// it round, the select switch of a RadioMaster sets and clears it, and so does a
/// disconnect clear it, which also takes the throttle away and alone ends the
/// connection.
pub proof fn law_arm_controls_move_the_arm_switch(
    pkt: &mut ControlPacket,
    event: PadEvent,
    r: bool,
)
    requires
        call_ensures(apply_event, (pkt, event), r),
        event is StartPressed || event == (PadEvent::SelectPressed { radiomaster: true }) || event
            == (PadEvent::SelectReleased { radiomaster: true }) || event is Disconnected,
    ensures
        event is StartPressed ==> final(pkt).flags.byte % 2 != old(pkt).flags.byte % 2,
        event is SelectPressed ==> final(pkt).flags.byte % 2 == 1,
        event is SelectReleased || event is Disconnected ==> final(pkt).flags.byte % 2 == 0,
        final(pkt).flags.byte / 2 == old(pkt).flags.byte / 2,
        event is Disconnected ==> final(pkt).throttle == 0,
        !(event is Disconnected) ==> final(pkt).throttle == old(pkt).throttle,
        final(pkt).roll == old(pkt).roll,
        final(pkt).pitch == old(pkt).pitch,
        final(pkt).yaw == old(pkt).yaw,
        r == (event is Disconnected),
{
    law_flags_are_independent(old(pkt).flags.byte, ARMED, ARMED, true);
    law_flags_are_independent(old(pkt).flags.byte, ARMED, ARMED, false);
}

/// Anything else changes nothing, the select switch of another gamepad included.
pub proof fn law_other_events_change_nothing(pkt: &mut ControlPacket, event: PadEvent, r: bool)
    requires
        call_ensures(apply_event, (pkt, event), r),
        event is Connected || event is Other || event == (PadEvent::SelectPressed {
            radiomaster: false,
        }) || event == (PadEvent::SelectReleased { radiomaster: false }),
    ensures
        *final(pkt) == *old(pkt),
        !r,
{
}

/// Only a gamepad with both identifiers of the RadioMaster is one.
pub proof fn law_radiomaster_has_both_identifiers(
    vendor: Option<u16>,
    product: Option<u16>,
    r: bool,
)
    requires
        call_ensures(is_radiomaster, (vendor, product), r),
    ensures
        r <==> vendor == Some(0x1209u16) && product == Some(0x4f54u16),
{
}

/// A packet goes out at once when nothing has been sent yet, when a stick or switch
/// has moved, and a tenth of a second after the last one; and at no other time.
pub proof fn law_sends_on_change_or_heartbeat(
    policy: SendPolicy,
    pkt: ControlPacket,
    now: u64,
    due: bool,
)
    requires
        call_ensures(SendPolicy::send_due, (&policy, &pkt, now), due),
    ensures
        policy.last_sent is None ==> due,
        now - policy.last_send_at >= 100_000 ==> due,
        policy.last_sent matches Some(last) ==> {
            let moved = last.throttle != pkt.throttle || !last.roll.equals(pkt.roll)
                || !last.pitch.equals(pkt.pitch) || !last.yaw.equals(pkt.yaw) || last.flags.byte
                != pkt.flags.byte;
            &&& moved ==> due
            &&& !moved && now - policy.last_send_at < 100_000 ==> !due
        },
{
}

/// The wait ends with the next heartbeat, and a connection starts out with nothing
/// sent. What has been sent is remembered with its time.
pub proof fn law_wait_ends_with_the_heartbeat(
    policy: &mut SendPolicy,
    now: u64,
    wait: u64,
    fresh: SendPolicy,
    pkt: ControlPacket,
)
    requires
        call_ensures(SendPolicy::wait, (policy, now), wait),
        call_ensures(SendPolicy::new, (now,), fresh),
        call_ensures(SendPolicy::sent, (policy, pkt, now), ()),
    ensures
        old(policy).last_send_at <= now ==> wait <= 100_000,
        old(policy).last_send_at <= now < old(policy).last_send_at + 100_000 ==> now + wait
            == old(policy).last_send_at + 100_000,
        now >= old(policy).last_send_at + 100_000 ==> wait == 0,
        now < old(policy).last_send_at ==> wait == 100_000,
        fresh.last_sent is None && fresh.last_send_at == now,
        final(policy).last_sent == Some(pkt) && final(policy).last_send_at == now,
{
}

/// Telemetry counts only as a whole packet of 25 bytes from the drone. Of those, a
/// packet is reported unless the one before read the same, with a warning exactly
/// when its FIFO-overflow flag is set, and it is the one before from then on.
/// Anything else is ignored.
pub proof fn law_new_telemetry_is_reported(
    monitor: &mut TelemetryMonitor,
    length: usize,
    from_drone: bool,
    buf: &[u8; telemetry::TELEMETRY_SIZE],
    r: Option<TelemetryReport>,
    packet: Option<telemetry::TelemetryPacket>,
    read: &[u8],
)
    requires
        call_ensures(TelemetryMonitor::receive, (monitor, length, from_drone, buf), r),
        read@ == buf@,
        call_ensures(telemetry::TelemetryPacket::from_bytes, (read,), packet),
    ensures
        length != 25 || !from_drone || packet is None ==> r is None && final(monitor).last
            == old(monitor).last,
        length == 25 && from_drone ==> (packet matches Some(t) ==> {
            &&& final(monitor).last == Some(t)
            &&& r matches Some(report) ==> report.packet == t && report.warn == (t.flags.byte / 4
                % 2 == 1)
            &&& old(monitor).last is None ==> r is Some
            &&& old(monitor).last matches Some(last) ==> (r is None <==> last.roll.equals(t.roll)
                && last.pitch.equals(t.pitch) && last.yaw.equals(t.yaw) && last.motors == t.motors
                && last.flags == t.flags)
        }),
{
}

/// The longer telemetry, of 77 bytes, is reported in the same way.
pub proof fn law_new_long_telemetry_is_reported(
    monitor: &mut VerboseMonitor,
    length: usize,
    from_drone: bool,
    buf: &[u8; telemetry_verbose::TELEMETRY_SIZE],
    r: Option<VerboseReport>,
    packet: Option<telemetry_verbose::TelemetryPacket>,
    read: &[u8],
)
    requires
        call_ensures(VerboseMonitor::receive, (monitor, length, from_drone, buf), r),
        read@ == buf@,
        call_ensures(telemetry_verbose::TelemetryPacket::from_bytes, (read,), packet),
    ensures
        length != 77 || !from_drone || packet is None ==> r is None && final(monitor).last
            == old(monitor).last,
        length == 77 && from_drone ==> (packet matches Some(t) ==> {
            &&& final(monitor).last == Some(t)
            &&& r matches Some(report) ==> report.packet == t && report.warn == (t.flags.byte / 4
                % 2 == 1)
            &&& old(monitor).last is None ==> r is Some
            &&& old(monitor).last matches Some(last) ==> (r is None <==> last.roll.equals(t.roll)
                && last.pitch.equals(t.pitch) && last.yaw.equals(t.yaw) && last.motors == t.motors
                && last.flags == t.flags && last.gyro.equals(t.gyro) && last.torques.equals(
                t.torques,
            ) && last.gyro_bias.equals(t.gyro_bias) && last.dt.equals(t.dt) && last.accel.equals(
                t.accel,
            ))
        }),
{
}

/// The start request goes out until the drone has answered, and a session ends with
/// the drone's word that it ended or failed. Every other pose is shown as a prompt;
/// silence and replies without a meaning go by.
pub proof fn law_client_follows_the_drone(
    client: &mut CalibrateClient,
    reply: Reply,
    r: ClientAction,
    due: bool,
    fresh: CalibrateClient,
)
    requires
        call_ensures(CalibrateClient::on_reply, (client, reply), r),
        call_ensures(CalibrateClient::start_due, (client,), due),
        call_ensures(CalibrateClient::new, (), fresh),
    ensures
        !fresh.started,
        due <==> !old(client).started,
        reply is Datagram ==> final(client).started,
        reply is Nothing ==> final(client).started == old(client).started,
        r is Complete <==> reply == Reply::Datagram(Some(CalibrationMode::Ended)),
        r is Failed <==> reply == Reply::Datagram(Some(CalibrationMode::Failed)),
        r is Wait <==> reply is Nothing || reply == Reply::Datagram(None),
        r matches ClientAction::Prompt(mode) ==> reply == Reply::Datagram(Some(mode)),
{
}

} // verus!
