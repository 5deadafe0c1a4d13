//! Control input from the radio receiver.
//!
//! The receiver sends CRSF frames over a serial line. [`FrameReader`] decides
//! how much to read next, keeps the read boundaries aligned with the frames and
//! turns channel frames into [`Controls`].

use crate::crsf_parser::{
    crsf_checksum, cut_short, decode, is_address, is_body_length, new_parser, next_raw_packet,
    packed_channel, parser_bytes, push_bytes, pushed, synced, Decoded,
    BODY_MAX, BODY_MIN, CHANNELS_END, FRAME_MAX, HEADER_LENGTH, LINK_STATISTICS_END, TYPE_CHANNELS,
    TYPE_LINK_STATISTICS,
};
use vstd::prelude::*;

verus! {

/// Speed of the receiver's serial line in baud.
pub const BAUD_RATE: u32 = 420_000;

/// Lowest value a stick channel takes.
pub const CHANNEL_MIN: u16 = 172;

/// Value of a centred stick channel.
pub const CHANNEL_MID: u16 = 992;

/// Highest value a stick channel takes.
pub const CHANNEL_MAX: u16 = 1811;

/// Full deflection of an axis away from its centre, in channel steps.
pub const AXIS_SPAN: u16 = 820;

/// Full travel of the throttle, in channel steps.
pub const THROTTLE_SPAN: u16 = 1639;

/// Midpoint between the low and the middle switch position.
pub const LOW_MID_THRESHOLD: u16 = 591;

/// Midpoint between the middle and the high switch position.
pub const MID_HIGH_THRESHOLD: u16 = 1392;

/// Position of a three-way switch.
#[derive(Clone, Copy, Debug, PartialEq, Eq, Structural)]
pub enum ThreeToggle {
    Low,
    Mid,
    High,
}

impl From<u16> for ThreeToggle {
    fn from(raw: u16) -> (r: ThreeToggle) {
        if raw < LOW_MID_THRESHOLD {
            ThreeToggle::Low
        } else if raw < MID_HIGH_THRESHOLD {
            ThreeToggle::Mid
        } else {
            ThreeToggle::High
        }
    }
}

impl vstd::std_specs::convert::FromSpecImpl<u16> for ThreeToggle {
    open spec fn obeys_from_spec() -> bool {
        true
    }

    open spec fn from_spec(raw: u16) -> ThreeToggle {
        if raw < LOW_MID_THRESHOLD {
            ThreeToggle::Low
        } else if raw < MID_HIGH_THRESHOLD {
            ThreeToggle::Mid
        } else {
            ThreeToggle::High
        }
    }
}

/// Deflection of an axis from its centre, limited to full deflection.
pub open spec fn axis_offset(raw: u16) -> int {
    let d = raw - CHANNEL_MID;
    if d < -AXIS_SPAN {
        -AXIS_SPAN
    } else if d > AXIS_SPAN {
        AXIS_SPAN as int
    } else {
        d
    }
}

/// Height of the throttle above its lowest position, limited to full travel.
pub open spec fn throttle_offset(raw: u16) -> int {
    if raw < CHANNEL_MIN {
        0
    } else if raw > CHANNEL_MAX {
        THROTTLE_SPAN as int
    } else {
        raw - CHANNEL_MIN
    }
}

/// Deflection of an axis in steps of `1 / AXIS_SPAN` of full deflection.
pub fn normalize_axis(raw: u16) -> (r: i16)
    ensures
        r == axis_offset(raw),
        -AXIS_SPAN <= r <= AXIS_SPAN,
{
    if raw < CHANNEL_MID - AXIS_SPAN {
        -820
    } else if raw > CHANNEL_MID + AXIS_SPAN {
        820
    } else {
        raw as i16 - CHANNEL_MID as i16
    }
}

/// Throttle position in steps of `1 / THROTTLE_SPAN` of full travel.
pub fn normalize_throttle(raw: u16) -> (r: u16)
    ensures
        r == throttle_offset(raw),
        r <= THROTTLE_SPAN,
{
    if raw < CHANNEL_MIN {
        0
    } else if raw > CHANNEL_MAX {
        THROTTLE_SPAN
    } else {
        raw - CHANNEL_MIN
    }
}

/// Sticks and switches of one channel frame. Axes are in steps of
/// `1 / AXIS_SPAN`, the throttle in steps of `1 / THROTTLE_SPAN`.
#[derive(Clone, Copy, Debug, PartialEq, Eq, Structural)]
pub struct Controls {
    pub roll: i16,
    pub pitch: i16,
    pub throttle: u16,
    pub yaw: i16,
    /// switch A
    pub armed: bool,
    pub sb: ThreeToggle,
    pub sc: ThreeToggle,
    pub sd: bool,
}

/// The controls that a set of channels stands for: roll, pitch, throttle and
/// yaw first, then switches A to D.
pub open spec fn controls_of(ch: Seq<u16>) -> Controls {
    Controls {
        roll: axis_offset(ch[0]) as i16,
        pitch: axis_offset(ch[1]) as i16,
        throttle: throttle_offset(ch[2]) as u16,
        yaw: axis_offset(ch[3]) as i16,
        armed: ch[4] > CHANNEL_MID,
        sb: vstd::std_specs::convert::FromSpec::from_spec(ch[5]),
        sc: vstd::std_specs::convert::FromSpec::from_spec(ch[6]),
        sd: ch[7] > CHANNEL_MID,
    }
}

impl From<[u16; 16]> for Controls {
    fn from(ch: [u16; 16]) -> (r: Controls) {
        Controls {
            roll: normalize_axis(ch[0]),
            pitch: normalize_axis(ch[1]),
            throttle: normalize_throttle(ch[2]),
            yaw: normalize_axis(ch[3]),
            armed: ch[4] > CHANNEL_MID,
            sb: ThreeToggle::from(ch[5]),
            sc: ThreeToggle::from(ch[6]),
            sd: ch[7] > CHANNEL_MID,
        }
    }
}

impl vstd::std_specs::convert::FromSpecImpl<[u16; 16]> for Controls {
    open spec fn obeys_from_spec() -> bool {
        true
    }

    open spec fn from_spec(ch: [u16; 16]) -> Controls {
        controls_of(ch@)
    }
}

/// How much to read from the serial line next.
#[derive(Clone, Copy, Debug, PartialEq, Eq, Structural)]
pub enum ReadRequest {
    /// a frame header, then the body that it announces
    Header,
    /// a single byte
    Byte,
}

/// What one round of reading brought.
#[derive(Clone, Copy, Debug, PartialEq, Eq, Structural)]
pub enum Outcome {
    /// no intact frame
    Silent,
    /// an intact frame that carries no controls
    Framed,
    /// new control input; `changed` when a channel differs from the last time
    Controls { controls: Controls, changed: bool },
}

/// Result of one round, and whether frame alignment was lost in it.
#[derive(Clone, Copy, Debug, PartialEq, Eq, Structural)]
pub struct Report {
    pub outcome: Outcome,
    pub lost_alignment: bool,
}

/// Synchronising only drops bytes, and leaves an address in front.
pub proof fn lemma_synced_length(s: Seq<u8>)
    ensures
        synced(s).len() <= s.len(),
        synced(s).len() > 0 ==> is_address(synced(s)[0]),
    decreases s.len(),
{
    if s.len() != 0 && !is_address(s[0]) {
        lemma_synced_length(s.skip(1));
    }
}

/// The first complete frame in a string of received bytes: headers with an
/// illegal body length are passed over.
pub open spec fn first_frame(s: Seq<u8>) -> Option<Seq<u8>>
    decreases s.len(),
{
    let t = synced(s);
    if t.len() < HEADER_LENGTH {
        None
    } else if !is_body_length(t[1]) {
        proof {
            lemma_synced_length(s);
        }
        first_frame(t.skip(HEADER_LENGTH as int))
    } else if t.len() < HEADER_LENGTH + t[1] {
        None
    } else {
        Some(t.take(HEADER_LENGTH + t[1]))
    }
}

/// What is kept of received bytes that hold no complete frame: the start of
/// a frame still to come.
pub open spec fn unfinished(s: Seq<u8>) -> Seq<u8>
    decreases s.len(),
{
    let t = synced(s);
    if t.len() < HEADER_LENGTH {
        t
    } else if !is_body_length(t[1]) {
        proof {
            lemma_synced_length(s);
        }
        unfinished(t.skip(HEADER_LENGTH as int))
    } else {
        t
    }
}

/// Whether a frame is intact: long enough for its type and with a matching
/// checksum.
pub open spec fn intact(frame: Seq<u8>) -> bool {
    &&& !cut_short(frame)
    &&& crsf_checksum(frame.subrange(2, frame.len() - 1)) == frame.last()
}

/// The channel values of an intact channel frame.
pub open spec fn channels_of(frame: Seq<u8>) -> Seq<u16> {
    Seq::new(16, |i: int| packed_channel(frame.skip(3), i) as u16)
}

/// What a complete frame amounts to, and the channels known after it, given
/// those known before.
pub open spec fn frame_outcome(frame: Seq<u8>, before: Option<Seq<u16>>) -> (
    Outcome,
    Option<Seq<u16>>,
) {
    if !intact(frame) {
        (Outcome::Silent, before)
    } else if frame[2] == TYPE_CHANNELS {
        (
            Outcome::Controls {
                controls: controls_of(channels_of(frame)),
                changed: before != Some(channels_of(frame)),
            },
            Some(channels_of(frame)),
        )
    } else {
        (Outcome::Framed, before)
    }
}

/// What a reader carries from round to round.
#[verifier::ext_equal]
pub struct ReaderState {
    /// received bytes that no frame has used up yet
    pub bytes: Seq<u8>,
    /// whether the next read starts at a frame boundary
    pub at_boundary: bool,
    /// the channels of the last channel frame
    pub last: Option<Seq<u16>>,
}

/// One round: the state after `received` has come in, and what it brought.
pub open spec fn stepped(before: ReaderState, received: Seq<u8>) -> (ReaderState, Outcome) {
    let s = before.bytes + received;
    match first_frame(s) {
        None => (
            ReaderState { bytes: unfinished(s), at_boundary: false, last: before.last },
            Outcome::Silent,
        ),
        Some(f) => {
            let (outcome, last) = frame_outcome(f, before.last);
            (
                ReaderState { bytes: Seq::empty(), at_boundary: !(outcome is Silent), last },
                outcome,
            )
        },
    }
}

/// Compares two sets of channel values.
fn same_channels(a: &[u16; 16], b: &[u16; 16]) -> (r: bool)
    ensures
        r == (a@ == b@),
{
    let mut i: usize = 0;
    while i < 16
        invariant
            i <= 16,
            forall|j: int| 0 <= j < i ==> a@[j] == b@[j],
        decreases 16 - i,
    {
        if a[i] != b[i] {
            return false;
        }
        i += 1;
    }
    assert(a@ =~= b@);
    true
}

/// Splits the receiver's byte stream into frames.
pub struct FrameReader {
    parser: crsf::PacketParser<64>,
    aligned: bool,
    last: Option<[u16; 16]>,
}

impl FrameReader {
    /// The received bytes that no frame has used up yet.
    pub closed spec fn bytes(self) -> Seq<u8> {
        parser_bytes(self.parser)
    }

    /// Whether the next read starts at a frame boundary.
    pub closed spec fn at_boundary(self) -> bool {
        self.aligned
    }

    /// The channels of the last channel frame.
    pub closed spec fn last_channels(self) -> Option<Seq<u16>> {
        match self.last {
            Some(ch) => Some(ch@),
            None => None,
        }
    }

    /// What the reader carries from round to round.
    pub open spec fn state(self) -> ReaderState {
        ReaderState {
            bytes: self.bytes(),
            at_boundary: self.at_boundary(),
            last: self.last_channels(),
        }
    }

    /// Between two rounds no complete frame is pending, and at a boundary
    /// nothing at all.
    pub open spec fn settled(self) -> bool {
        &&& first_frame(self.bytes()) is None
        &&& unfinished(self.bytes()) == self.bytes()
        &&& self.bytes().len() < FRAME_MAX
        &&& self.at_boundary() ==> self.bytes().len() == 0
    }

    /// A reader that scans byte by byte for the first frame.
    pub fn new() -> (r: FrameReader)
        ensures
            r.settled(),
            r.bytes().len() == 0,
            !r.at_boundary(),
            r.last_channels() is None,
    {
        FrameReader { parser: new_parser(), aligned: false, last: None }
    }

    /// What to read next: whole frames while aligned, single bytes otherwise.
    pub fn next_read(&self) -> (r: ReadRequest)
        ensures
            r == if self.at_boundary() {
                ReadRequest::Header
            } else {
                ReadRequest::Byte
            },
    {
        if self.aligned {
            ReadRequest::Header
        } else {
            ReadRequest::Byte
        }
    }

    /// The body length that a header announces, if it is a legal one.
    pub fn body_length(header: [u8; 2]) -> (r: Option<usize>)
        ensures
            r == if is_body_length(header@[1]) {
                Some(header@[1] as usize)
            } else {
                None
            },
    {
        let len: usize = header[1] as usize;
        if BODY_MIN <= len && len <= BODY_MAX {
            Some(len)
        } else {
            None
        }
    }

    /// Takes note of a decoded frame.
    pub fn accept(&mut self, decoded: Decoded) -> (r: Outcome)
        ensures
            final(self).bytes() == old(self).bytes(),
            final(self).at_boundary() == old(self).at_boundary(),
            match decoded {
                Decoded::Channels(ch) => {
                    &&& final(self).last_channels() == Some(ch@)
                    &&& r == (Outcome::Controls {
                        controls: controls_of(ch@),
                        changed: old(self).last_channels() != Some(ch@),
                    })
                },
                Decoded::LinkStatistics | Decoded::UnknownType => {
                    &&& final(self).last_channels() == old(self).last_channels()
                    &&& r == Outcome::Framed
                },
                Decoded::Damaged => {
                    &&& final(self).last_channels() == old(self).last_channels()
                    &&& r == Outcome::Silent
                },
            },
    {
        match decoded {
            Decoded::Channels(ch) => {
                let controls: Controls = Controls::from(ch);
                let changed: bool = match &self.last {
                    Some(last) => !same_channels(last, &ch),
                    None => true,
                };
                self.last = Some(ch);
                Outcome::Controls { controls, changed }
            },
            Decoded::LinkStatistics | Decoded::UnknownType => Outcome::Framed,
            Decoded::Damaged => Outcome::Silent,
        }
    }

    /// Whether a frame is too short for the payload that its type announces.
    fn is_cut_short(frame: &[u8]) -> (r: bool)
        requires
            frame@.len() >= 3,
        ensures
            r == cut_short(frame@),
    {
        (frame[2] == TYPE_CHANNELS && frame.len() < CHANNELS_END) || (frame[2]
            == TYPE_LINK_STATISTICS && frame.len() < LINK_STATISTICS_END)
    }

    /// One round: takes in what was read and hands out what it completes.
    ///
    /// `received` is a header with its body, a header alone when its length is
    /// not legal, a single byte, or nothing when the read failed. No received
    /// byte is lost: at a boundary the buffer has room for the longest frame,
    /// elsewhere for one more byte. A frame that is cut short counts as damaged.
    pub fn step(&mut self, received: &[u8]) -> (r: Report)
        requires
            old(self).settled(),
            received@.len() <= if old(self).at_boundary() {
                FRAME_MAX as int
            } else {
                1
            },
        ensures
            final(self).settled(),
            (final(self).state(), r.outcome) == stepped(old(self).state(), received@),
            r.lost_alignment == (old(self).at_boundary() && r.outcome is Silent),
    {
        let was_aligned: bool = self.aligned;
        push_bytes(&mut self.parser, received);
        let ghost s = old(self).bytes() + received@;
        let ghost before = old(self).last_channels();
        let mut outcome: Outcome = Outcome::Silent;
        let ghost mut cut = false;
        loop
            invariant
                self.aligned == was_aligned,
                self.bytes().len() <= FRAME_MAX,
                !cut ==> {
                    &&& first_frame(self.bytes()) == first_frame(s)
                    &&& unfinished(self.bytes()) == unfinished(s)
                    &&& outcome == Outcome::Silent
                    &&& self.last_channels() == before
                },
                cut ==> {
                    &&& self.bytes().len() == 0
                    &&& first_frame(s) is Some
                    &&& (outcome, self.last_channels()) == frame_outcome(first_frame(s)->0, before)
                },
            ensures
                self.aligned == was_aligned,
                first_frame(self.bytes()) is None,
                unfinished(self.bytes()) == self.bytes(),
                self.bytes().len() < FRAME_MAX,
                !cut ==> {
                    &&& first_frame(s) is None
                    &&& self.bytes() == unfinished(s)
                    &&& outcome == Outcome::Silent
                    &&& self.last_channels() == before
                },
                cut ==> {
                    &&& self.bytes().len() == 0
                    &&& first_frame(s) is Some
                    &&& (outcome, self.last_channels()) == frame_outcome(first_frame(s)->0, before)
                },
            decreases self.bytes().len(),
        {
            let ghost pending = self.bytes();
            proof {
                lemma_synced_length(pending);
            }
            match next_raw_packet(&mut self.parser) {
                None => {
                    break;
                },
                Some(Err(_)) => {},
                Some(Ok(frame)) => {
                    proof {
                        cut = true;
                    }
                    let data: &[u8] = frame.data();
                    if !Self::is_cut_short(data) {
                        let decoded: Decoded = decode(&frame);
                        proof {
                            if let Decoded::Channels(ch) = decoded {
                                assert(ch@ =~= channels_of(data@));
                            }
                        }
                        outcome = self.accept(decoded);
                    }
                },
            }
        }
        self.aligned = match outcome {
            Outcome::Silent => false,
            _ => true,
        };
        assert(self.state() =~= stepped(old(self).state(), received@).0);
        Report { outcome, lost_alignment: was_aligned && !self.aligned }
    }
}

/// Nothing that a read delivers is ever dropped for want of room, as long as
/// reads keep to what the reader asked for.
pub proof fn law_reads_always_fit(reader: FrameReader, received: Seq<u8>)
    requires
        reader.settled(),
        received.len() <= if reader.at_boundary() {
            FRAME_MAX as int
        } else {
            1
        },
    ensures
        pushed(reader.bytes(), received) == reader.bytes() + received,
{
}

/// A frame that arrives whole at a boundary is the one that is cut out.
pub proof fn law_whole_frame_is_found(frame: Seq<u8>)
    requires
        whole_frame(frame),
    ensures
        first_frame(frame) == Some(frame),
{
    assert(synced(frame) == frame);
    assert(frame.take(frame.len() as int) =~= frame);
}

/// A frame that arrives in pieces is kept until it is complete: every proper
/// part of it from its start on is left untouched.
pub proof fn law_partial_frame_is_kept(frame: Seq<u8>, n: int)
    requires
        whole_frame(frame),
        0 <= n < frame.len(),
    ensures
        first_frame(frame.take(n)) is None,
        unfinished(frame.take(n)) == frame.take(n),
{
    let part = frame.take(n);
    if n > 0 {
        assert(part[0] == frame[0]);
    }
    assert(synced(part) == part);
    if n > 1 {
        assert(part[1] == frame[1]);
    }
}

/// The state after a sequence of reads.
pub open spec fn state_after(before: ReaderState, reads: Seq<Seq<u8>>) -> ReaderState
    decreases reads.len(),
{
    if reads.len() == 0 {
        before
    } else {
        stepped(state_after(before, reads.drop_last()), reads.last()).0
    }
}

/// What the last of a sequence of reads brought.
pub open spec fn last_outcome(before: ReaderState, reads: Seq<Seq<u8>>) -> Outcome
    recommends
        reads.len() > 0,
{
    stepped(state_after(before, reads.drop_last()), reads.last()).1
}

/// Whether a byte string is one whole frame.
pub open spec fn whole_frame(frame: Seq<u8>) -> bool {
    &&& HEADER_LENGTH <= frame.len()
    &&& is_address(frame[0])
    &&& is_body_length(frame[1])
    &&& frame.len() == HEADER_LENGTH + frame[1]
}

/// From a boundary on, an undamaged stream is read without loss: every frame is
/// answered in the round in which it arrives, by what it says, and the reader
/// stays at a boundary however long the stream is.
pub proof fn law_intact_stream_is_read_completely(before: ReaderState, frames: Seq<Seq<u8>>)
    requires
        before.at_boundary,
        before.bytes.len() == 0,
        forall|i: int|
            0 <= i < frames.len() ==> whole_frame(#[trigger] frames[i]) && intact(frames[i]),
    ensures
        state_after(before, frames).at_boundary,
        state_after(before, frames).bytes.len() == 0,
        frames.len() > 0 ==> last_outcome(before, frames) == frame_outcome(
            frames.last(),
            state_after(before, frames.drop_last()).last,
        ).0,
        frames.len() > 0 && frames.last()[2] == TYPE_CHANNELS ==> {
            &&& last_outcome(before, frames) matches Outcome::Controls { controls, .. }
                && controls == controls_of(channels_of(frames.last()))
            &&& state_after(before, frames).last == Some(channels_of(frames.last()))
        },
    decreases frames.len(),
{
    if frames.len() > 0 {
        let rest = frames.drop_last();
        let frame = frames[frames.len() - 1];
        assert forall|i: int| 0 <= i < rest.len() implies whole_frame(#[trigger] rest[i])
            && intact(rest[i]) by {
            assert(rest[i] == frames[i]);
        }
        law_intact_stream_is_read_completely(before, rest);
        assert(whole_frame(frame) && intact(frame));
        lemma_whole_frame_step(state_after(before, rest), frame);
        lemma_intact_outcome(frame, state_after(before, rest).last);
    }
}

/// A whole frame that meets an empty buffer is answered at once.
proof fn lemma_whole_frame_step(before: ReaderState, frame: Seq<u8>)
    requires
        before.bytes.len() == 0,
        whole_frame(frame),
    ensures
        stepped(before, frame).1 == frame_outcome(frame, before.last).0,
        stepped(before, frame).0.last == frame_outcome(frame, before.last).1,
        stepped(before, frame).0.bytes.len() == 0,
        stepped(before, frame).0.at_boundary == !(frame_outcome(frame, before.last).0 is Silent),
{
    assert(before.bytes + frame =~= frame);
    law_whole_frame_is_found(frame);
}

/// An intact frame is never answered with silence.
proof fn lemma_intact_outcome(frame: Seq<u8>, last: Option<Seq<u16>>)
    requires
        intact(frame),
    ensures
        !(frame_outcome(frame, last).0 is Silent),
        frame[2] == TYPE_CHANNELS ==> {
            &&& frame_outcome(frame, last).0 matches Outcome::Controls { controls, .. }
                && controls == controls_of(channels_of(frame))
            &&& frame_outcome(frame, last).1 == Some(channels_of(frame))
        },
{
}

/// Without alignment a frame is found byte by byte: it stays silent up to its
/// last byte, which brings what the frame says, and with an intact frame the
/// reader is aligned again. `n` bytes have been read.
pub proof fn law_scan_finds_frame(before: ReaderState, frame: Seq<u8>, n: nat)
    requires
        before.bytes.len() == 0,
        whole_frame(frame),
        n <= frame.len(),
    ensures
        ({
            let reads = Seq::new(n, |i: int| seq![frame[i]]);
            let after = state_after(before, reads);
            if n < frame.len() {
                &&& after.bytes == frame.take(n as int)
                &&& after.last == before.last
                &&& n > 0 ==> last_outcome(before, reads) == Outcome::Silent
            } else {
                &&& after.bytes.len() == 0
                &&& (last_outcome(before, reads), after.last) == frame_outcome(frame, before.last)
                &&& after.at_boundary == intact(frame)
            }
        }),
    decreases n,
{
    let reads = Seq::new(n, |i: int| seq![frame[i]]);
    if n == 0 {
        assert(frame.take(0) =~= before.bytes);
    } else {
        let m = (n - 1) as nat;
        law_scan_finds_frame(before, frame, m);
        assert(reads.drop_last() =~= Seq::new(m, |i: int| seq![frame[i]]));
        assert(frame.take(m as int) + seq![frame[m as int]] =~= frame.take(n as int));
        if n < frame.len() {
            law_partial_frame_is_kept(frame, n as int);
        } else {
            assert(frame.take(n as int) =~= frame);
            law_whole_frame_is_found(frame);
        }
    }
}

/// An axis reads as its distance from the centre at 992, up to 820 steps to either
/// side; what lies beyond reads as full deflection.
pub proof fn law_axis_is_distance_from_centre(raw: u16, r: i16)
    requires
        call_ensures(normalize_axis, (raw,), r),
    ensures
        172 <= raw <= 1812 ==> r == raw - 992,
        raw < 172 ==> r == -820,
        raw > 1812 ==> r == 820,
{
}

/// The throttle reads as its height above 172, up to 1811, where it is 1639 steps;
/// what lies beyond reads as none or as full.
pub proof fn law_throttle_is_height_above_lowest(raw: u16, r: u16)
    requires
        call_ensures(normalize_throttle, (raw,), r),
    ensures
        172 <= raw <= 1811 ==> r == raw - 172,
        raw < 172 ==> r == 0,
        raw > 1811 ==> r == 1639,
{
}

/// A three-way switch is low up to 590, in the middle up to 1391, and high above:
/// halfway between its positions.
pub proof fn law_switch_positions_part_halfway(raw: u16, r: ThreeToggle)
    requires
        call_ensures(<ThreeToggle as From<u16>>::from, (raw,), r),
    ensures
        r == ThreeToggle::Low <==> raw < 591,
        r == ThreeToggle::Mid <==> 591 <= raw < 1392,
        r == ThreeToggle::High <==> raw >= 1392,
{
}

/// Every control has a channel of its own: roll the first, pitch the second,
/// throttle the third, yaw the fourth and switches A to D the next four. Axes read
/// as their distance from 992, the throttle as its height above 172, two-way
/// switches as whether they are past 992, three-way ones by where they stand.
pub proof fn law_controls_read_their_channels(ch: [u16; 16], r: Controls)
    requires
        call_ensures(<Controls as From<[u16; 16]>>::from, (ch,), r),
    ensures
        172 <= ch@[0] <= 1812 ==> r.roll == ch@[0] - 992,
        ch@[0] < 172 ==> r.roll == -820,
        ch@[0] > 1812 ==> r.roll == 820,
        172 <= ch@[1] <= 1812 ==> r.pitch == ch@[1] - 992,
        ch@[1] < 172 ==> r.pitch == -820,
        ch@[1] > 1812 ==> r.pitch == 820,
        172 <= ch@[2] <= 1811 ==> r.throttle == ch@[2] - 172,
        ch@[2] < 172 ==> r.throttle == 0,
        ch@[2] > 1811 ==> r.throttle == 1639,
        172 <= ch@[3] <= 1812 ==> r.yaw == ch@[3] - 992,
        ch@[3] < 172 ==> r.yaw == -820,
        ch@[3] > 1812 ==> r.yaw == 820,
        r.armed <==> ch@[4] > 992,
        r.sb == ThreeToggle::Low <==> ch@[5] < 591,
        r.sb == ThreeToggle::High <==> ch@[5] >= 1392,
        r.sc == ThreeToggle::Low <==> ch@[6] < 591,
        r.sc == ThreeToggle::High <==> ch@[6] >= 1392,
        r.sd <==> ch@[7] > 992,
{
}

/// No control depends on another one's channel: two sets of channels that agree on
/// a control's channel agree on that control, whatever the others hold.
pub proof fn law_controls_do_not_mix_channels(
    ch: [u16; 16],
    other: [u16; 16],
    r: Controls,
    s: Controls,
)
    requires
        call_ensures(<Controls as From<[u16; 16]>>::from, (ch,), r),
        call_ensures(<Controls as From<[u16; 16]>>::from, (other,), s),
    ensures
        ch@[0] == other@[0] ==> r.roll == s.roll,
        ch@[1] == other@[1] ==> r.pitch == s.pitch,
        ch@[2] == other@[2] ==> r.throttle == s.throttle,
        ch@[3] == other@[3] ==> r.yaw == s.yaw,
        ch@[4] == other@[4] ==> r.armed == s.armed,
        ch@[5] == other@[5] ==> r.sb == s.sb,
        ch@[6] == other@[6] ==> r.sc == s.sc,
        ch@[7] == other@[7] ==> r.sd == s.sd,
{
}

/// A reader starts with nothing read and no alignment, asks for a header exactly
/// while it is aligned, and accepts bodies of 2 to 62 bytes.
pub proof fn law_reader_asks_by_alignment(
    fresh: FrameReader,
    reader: FrameReader,
    header: [u8; 2],
    request: ReadRequest,
    length: Option<usize>,
)
    requires
        call_ensures(FrameReader::new, (), fresh),
        call_ensures(FrameReader::next_read, (&reader,), request),
        call_ensures(FrameReader::body_length, (header,), length),
    ensures
        fresh.bytes().len() == 0 && !fresh.at_boundary() && fresh.last_channels() is None,
        request == ReadRequest::Header <==> reader.at_boundary(),
        length is Some <==> 2 <= header@[1] <= 62,
        length matches Some(n) ==> n == header@[1],
{
}

/// Channels are taken in as they come: the controls are those that the channels
/// stand for, they count as changed unless the last channels were the very same,
/// and they are the last channels from then on. No other frame touches the last
/// channels; a damaged one goes unanswered.
pub proof fn law_channels_are_taken_in(
    reader: &mut FrameReader,
    decoded: Decoded,
    r: Outcome,
    controls: Controls,
)
    requires
        call_ensures(FrameReader::accept, (reader, decoded), r),
        decoded matches Decoded::Channels(ch) ==> call_ensures(
            <Controls as From<[u16; 16]>>::from,
            (ch,),
            controls,
        ),
    ensures
        decoded matches Decoded::Channels(ch) ==> {
            &&& final(reader).last_channels() == Some(ch@)
            &&& r matches Outcome::Controls { controls: c, changed } && c == controls && changed
                == (old(reader).last_channels() != Some(ch@))
        },
        !(decoded is Channels) ==> final(reader).last_channels() == old(reader).last_channels(),
        decoded is Damaged <==> r is Silent,
        decoded is Channels <==> r is Controls,
        final(reader).bytes() == old(reader).bytes(),
        final(reader).at_boundary() == old(reader).at_boundary(),
{
}

/// A frame is answered in the round that completes it, read at once or byte by
/// byte. With a matching checksum the reader is at a boundary after it: a channel
/// frame that is long enough brings the controls of its sixteen packed channels and
/// any other frame none. With another checksum, or cut short, it brings nothing and
/// the reader is not aligned.
pub proof fn law_complete_frame_is_answered(
    reader: &mut FrameReader,
    received: &[u8],
    frame: Seq<u8>,
    r: Report,
    ch: [u16; 16],
    controls: Controls,
)
    requires
        call_ensures(FrameReader::step, (reader, received), r),
        old(reader).bytes() + received@ == frame,
        frame.len() >= 4,
        frame[0] == 0xc8 || frame[0] == 0xea || frame[0] == 0xec || frame[0] == 0xee,
        frame[1] <= 62,
        frame.len() == 2 + frame[1],
        forall|i: int| 0 <= i < 16 ==> #[trigger] ch@[i] == packed_channel(frame.skip(3), i),
        call_ensures(<Controls as From<[u16; 16]>>::from, (ch,), controls),
    ensures
        ({
            let whole = (frame[2] == 0x16 ==> frame.len() >= 25) && (frame[2] == 0x14
                ==> frame.len() >= 13);
            let sound = crsf_checksum(frame.subrange(2, frame.len() - 1))
                == frame[frame.len() - 1];
            &&& whole && sound && frame[2] == 0x16 ==> {
                &&& r.outcome matches Outcome::Controls { controls: c, changed } && c == controls
                    && changed == (old(reader).last_channels() != Some(ch@))
                &&& final(reader).last_channels() == Some(ch@)
            }
            &&& whole && sound && frame[2] != 0x16 ==> r.outcome == Outcome::Framed
            &&& !(whole && sound) ==> r.outcome == Outcome::Silent
            &&& r.lost_alignment == (old(reader).at_boundary() && !(whole && sound))
            &&& final(reader).at_boundary() == (whole && sound)
            &&& final(reader).bytes().len() == 0
            &&& !(whole && sound && frame[2] == 0x16) ==> final(reader).last_channels()
                == old(reader).last_channels()
        }),
{
    law_whole_frame_is_found(frame);
    assert(ch@ =~= channels_of(frame));
}

/// Noise is passed over: with nothing pending, a byte that is no address is dropped
/// and an address is kept; behind an address, a length that is not legal drops both.
/// Nothing is answered.
pub proof fn law_noise_is_passed_over(reader: &mut FrameReader, byte: &[u8], r: Report)
    requires
        call_ensures(FrameReader::step, (reader, byte), r),
        old(reader).settled(),
        byte@.len() == 1,
        old(reader).bytes().len() <= 1,
        old(reader).bytes().len() == 1 ==> !(2 <= byte@[0] <= 62),
    ensures
        r.outcome == Outcome::Silent,
        final(reader).last_channels() == old(reader).last_channels(),
        !final(reader).at_boundary(),
        old(reader).bytes().len() == 0 && (byte@[0] == 0xc8 || byte@[0] == 0xea || byte@[0] == 0xec
            || byte@[0] == 0xee) ==> final(reader).bytes() == byte@,
        old(reader).bytes().len() == 0 && !(byte@[0] == 0xc8 || byte@[0] == 0xea || byte@[0]
            == 0xec || byte@[0] == 0xee) ==> final(reader).bytes().len() == 0,
        old(reader).bytes().len() == 1 ==> final(reader).bytes().len() == 0,
{
    let before = old(reader).bytes();
    let s = before + byte@;
    reveal_with_fuel(synced, 3);
    reveal_with_fuel(first_frame, 3);
    reveal_with_fuel(unfinished, 3);
    if before.len() == 0 {
        assert(s =~= byte@);
    } else {
        lemma_synced_length(before);
        assert(synced(before) == before);
        assert(s[0] == before[0] && s[1] == byte@[0]);
        assert(synced(s) == s);
        assert(s.skip(2).len() == 0);
    }
}

/// Nothing is answered before a frame is complete, and nothing read is lost: a
/// byte that does not complete a frame brings nothing, keeps the last channels, and
/// stays with those before it if together they begin a frame.
pub proof fn law_unfinished_frame_is_kept(
    reader: &mut FrameReader,
    received: &[u8],
    r: Report,
    frame: Seq<u8>,
)
    requires
        call_ensures(FrameReader::step, (reader, received), r),
        old(reader).settled(),
        frame.len() >= 4,
        frame[0] == 0xc8 || frame[0] == 0xea || frame[0] == 0xec || frame[0] == 0xee,
        frame[1] <= 62,
        frame.len() == 2 + frame[1],
        old(reader).bytes().len() + received@.len() < frame.len(),
        old(reader).bytes() + received@ == frame.take(
            (old(reader).bytes().len() + received@.len()) as int,
        ),
    ensures
        r.outcome == Outcome::Silent,
        r.lost_alignment == old(reader).at_boundary(),
        final(reader).bytes() == old(reader).bytes() + received@,
        final(reader).last_channels() == old(reader).last_channels(),
        !final(reader).at_boundary(),
{
    law_partial_frame_is_kept(frame, (old(reader).bytes().len() + received@.len()) as int);
}

/// Bytes in front of the first address do not matter: with nothing pending, a read
/// that starts with some is answered like the rest of it alone.
pub proof fn law_bytes_before_an_address_do_not_matter(
    reader: &mut FrameReader,
    received: &[u8],
    r: Report,
    other: &mut FrameReader,
    rest: &[u8],
    s: Report,
    noise: Seq<u8>,
)
    requires
        old(reader).state() == old(other).state(),
        old(reader).bytes().len() == 0,
        call_ensures(FrameReader::step, (reader, received), r),
        call_ensures(FrameReader::step, (other, rest), s),
        received@ == noise + rest@,
        forall|i: int|
            0 <= i < noise.len() ==> (#[trigger] noise[i]) != 0xc8 && noise[i] != 0xea && noise[i]
                != 0xec && noise[i] != 0xee,
    ensures
        r == s,
        final(reader).bytes() == final(other).bytes(),
        final(reader).at_boundary() == final(other).at_boundary(),
        final(reader).last_channels() == final(other).last_channels(),
{
    lemma_noise_is_synced_away(noise, rest@);
    assert(old(reader).bytes() + received@ =~= noise + rest@);
    assert(old(other).bytes() + rest@ =~= rest@);
    assert(final(reader).state() =~= final(other).state());
}

/// Noise is dropped up to what follows it.
proof fn lemma_noise_is_synced_away(noise: Seq<u8>, rest: Seq<u8>)
    requires
        forall|i: int| 0 <= i < noise.len() ==> !is_address(#[trigger] noise[i]),
    ensures
        synced(noise + rest) == synced(rest),
        first_frame(noise + rest) == first_frame(rest),
        unfinished(noise + rest) == unfinished(rest),
    decreases noise.len(),
{
    if noise.len() == 0 {
        assert(noise + rest =~= rest);
    } else {
        let s = noise + rest;
        assert(s[0] == noise[0]);
        assert(s.skip(1) =~= noise.skip(1) + rest);
        assert forall|i: int| 0 <= i < noise.skip(1).len() implies !is_address(
            #[trigger] noise.skip(1)[i],
        ) by {
            assert(noise.skip(1)[i] == noise[i + 1]);
        }
        lemma_noise_is_synced_away(noise.skip(1), rest);
        assert(synced(s) == synced(s.skip(1)));
    }
}

/// A header with a length that is not legal does not matter either: with nothing
/// pending, a read that starts with one is answered like what follows it.
pub proof fn law_illegal_header_does_not_matter(
    reader: &mut FrameReader,
    received: &[u8],
    r: Report,
    other: &mut FrameReader,
    rest: &[u8],
    s: Report,
    address: u8,
    length: u8,
)
    requires
        old(reader).state() == old(other).state(),
        old(reader).bytes().len() == 0,
        call_ensures(FrameReader::step, (reader, received), r),
        call_ensures(FrameReader::step, (other, rest), s),
        received@ == seq![address, length] + rest@,
        address == 0xc8 || address == 0xea || address == 0xec || address == 0xee,
        !(2 <= length <= 62),
    ensures
        r == s,
        final(reader).bytes() == final(other).bytes(),
        final(reader).at_boundary() == final(other).at_boundary(),
        final(reader).last_channels() == final(other).last_channels(),
{
    let whole = seq![address, length] + rest@;
    assert(old(reader).bytes() + received@ =~= whole);
    assert(old(other).bytes() + rest@ =~= rest@);
    assert(synced(whole) == whole);
    assert(whole.skip(2) =~= rest@);
    assert(final(reader).state() =~= final(other).state());
}

/// What follows a complete frame in the same read is dropped with it: the read is
/// answered like the frame alone.
pub proof fn law_bytes_behind_a_frame_are_dropped(
    reader: &mut FrameReader,
    received: &[u8],
    r: Report,
    other: &mut FrameReader,
    frame: &[u8],
    s: Report,
    tail: Seq<u8>,
)
    requires
        old(reader).state() == old(other).state(),
        old(reader).bytes().len() == 0,
        call_ensures(FrameReader::step, (reader, received), r),
        call_ensures(FrameReader::step, (other, frame), s),
        received@ == frame@ + tail,
        frame@.len() >= 4,
        frame@[0] == 0xc8 || frame@[0] == 0xea || frame@[0] == 0xec || frame@[0] == 0xee,
        frame@[1] <= 62,
        frame@.len() == 2 + frame@[1],
    ensures
        r == s,
        final(reader).bytes().len() == 0 && final(other).bytes().len() == 0,
        final(reader).at_boundary() == final(other).at_boundary(),
        final(reader).last_channels() == final(other).last_channels(),
{
    let whole = frame@ + tail;
    law_whole_frame_is_found(frame@);
    assert(old(reader).bytes() + received@ =~= whole);
    assert(old(other).bytes() + frame@ =~= frame@);
    assert(whole[0] == frame@[0] && whole[1] == frame@[1]);
    assert(synced(whole) == whole);
    assert(whole.take(frame@.len() as int) =~= frame@);
    assert(final(reader).state() =~= final(other).state());
}

} // verus!
