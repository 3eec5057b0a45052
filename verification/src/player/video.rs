//! Video playback: which packets are decoded, and when a decoded frame is
//! shown.
//!
//! Moments are nanoseconds on a clock that only runs forward, counted from any
//! fixed point before playback.

use vstd::prelude::*;

verus! {

/// How many packets may wait for the decoder.
pub const PACKET_QUEUE_CAPACITY: usize = 128;

/// The unit of a stream's presentation timestamps, as a fraction of a second.
#[derive(Clone, Copy, Debug, PartialEq, Eq, Structural)]
pub struct TimeBase {
    pub numerator: i32,
    pub denominator: i32,
}

/// Relates the presentation timestamps of a stream to the clock.
#[derive(Clone, Copy, Debug, PartialEq, Eq, Structural)]
pub struct StreamClock {
    /// The unit of the timestamps.
    pub time_base: TimeBase,
    /// The moment at which playback started.
    pub playback_start_time: u128,
    /// The first timestamp since then.
    pub first_pts: Option<i64>,
}

/// The difference of two timestamps, held to the range of one.
pub open spec fn saturated_difference(pts: i64, first: i64) -> int {
    if pts - first > i64::MAX {
        i64::MAX as int
    } else if pts - first < i64::MIN {
        i64::MIN as int
    } else {
        pts - first
    }
}

impl StreamClock {
    /// A clock on which playback starts now.
    pub open spec fn started(time_base: TimeBase, now: u128) -> StreamClock {
        StreamClock { time_base, playback_start_time: now, first_pts: None }
    }

    /// The clock once a frame has come. A frame without a timestamp leaves it
    /// as it is.
    pub open spec fn after_frame(self, pts: Option<i64>) -> StreamClock {
        match (self.first_pts, pts) {
            (None, Some(pts)) => StreamClock { first_pts: Some(pts), ..self },
            _ => self,
        }
    }

    /// The timestamp of a frame, counted from the first one.
    pub open spec fn relative(self, pts: Option<i64>) -> Option<int> {
        match (self.after_frame(pts).first_pts, pts) {
            (Some(first), Some(pts)) => Some(saturated_difference(pts, first)),
            _ => None,
        }
    }

    /// A clock for a stream, on which playback starts now.
    pub fn new(time_base: TimeBase, now: u128) -> (clock: StreamClock)
        ensures
            clock == StreamClock::started(time_base, now),
            clock.time_base == time_base,
            clock.playback_start_time == now,
            clock.first_pts is None,
    {
        StreamClock { time_base, playback_start_time: now, first_pts: None }
    }

    /// The timestamp of a frame counted from the first one since playback
    /// started, in units of the time base. The first one is remembered.
    pub fn relative_pts(&mut self, pts: Option<i64>) -> (relative: Option<i64>)
        ensures
            *final(self) == old(self).after_frame(pts),
            match relative {
                Some(units) => old(self).relative(pts) == Some(units as int),
                None => old(self).relative(pts) is None,
            },
            final(self).time_base == old(self).time_base,
            final(self).playback_start_time == old(self).playback_start_time,
            match (old(self).first_pts, pts) {
                (Some(first), _) => final(self).first_pts == Some(first),
                (None, pts) => final(self).first_pts == pts,
            },
            match (old(self).first_pts, pts) {
                (_, None) => relative is None,
                (None, Some(_)) => relative == Some(0i64),
                (Some(first), Some(pts)) => relative matches Some(units) && units == if pts - first
                    > i64::MAX {
                    i64::MAX as int
                } else if pts - first < i64::MIN {
                    i64::MIN as int
                } else {
                    pts - first
                },
            },
    {
        let pts: i64 = match pts {
            Some(pts) => pts,
            None => return None,
        };
        let first: i64 = match self.first_pts {
            Some(first) => first,
            None => {
                self.first_pts = Some(pts);
                pts
            },
        };
        match pts.checked_sub(first) {
            Some(units) => Some(units),
            None => if pts < first {
                Some(i64::MIN)
            } else {
                Some(i64::MAX)
            },
        }
    }

    /// The moment that lies `since_start` after the start of playback, if the
    /// clock reaches that far.
    pub fn convert_pts_to_instant(&self, since_start: u128) -> (due: Option<u128>)
        ensures
            match due {
                Some(due) => due == self.playback_start_time + since_start,
                None => self.playback_start_time + since_start > u128::MAX,
            },
    {
        self.playback_start_time.checked_add(since_start)
    }

    /// The wait before a frame that lies `since_start` after the start of
    /// playback: until the moment it is due. There is none for a frame that
    /// lies nowhere, or further than the clock reaches.
    pub open spec fn delay(self, since_start: Option<u128>, now: u128) -> Option<u128> {
        match since_start {
            Some(offset) if self.playback_start_time + offset <= u128::MAX => wait(
                Some((self.playback_start_time + offset) as u128),
                now,
            ),
            _ => None,
        }
    }

    /// How long to wait before a frame is shown that lies `since_start` after
    /// the start of playback. `None` stands for a frame without a timestamp, or
    /// with one that no moment of the clock belongs to: it is shown without a
    /// wait.
    pub fn frame_delay(&self, since_start: Option<u128>, now: u128) -> (delay: Option<u128>)
        ensures
            delay == self.delay(since_start, now),
            match since_start {
                Some(offset) => if self.playback_start_time + offset <= u128::MAX {
                    delay matches Some(delay) && now + delay == if now
                        < self.playback_start_time + offset {
                        self.playback_start_time + offset
                    } else {
                        now as int
                    }
                } else {
                    delay is None
                },
                None => delay is None,
            },
    {
        match since_start {
            Some(offset) => playback_delay(self.convert_pts_to_instant(offset), now),
            None => None,
        }
    }

    /// Playback starts anew, now.
    pub fn reset(&mut self, now: u128)
        ensures
            *final(self) == StreamClock::started(old(self).time_base, now),
            final(self).time_base == old(self).time_base,
            final(self).playback_start_time == now,
            final(self).first_pts is None,
    {
        self.playback_start_time = now;
        self.first_pts = None;
    }
}

/// How long to wait before a frame is shown: until it is due, not at all if
/// that has passed. A frame that is due at no moment is shown without a wait.
pub fn playback_delay(due: Option<u128>, now: u128) -> (delay: Option<u128>)
    ensures
        delay == wait(due, now),
        match due {
            Some(due) => delay matches Some(delay) && now + delay == if now < due {
                due
            } else {
                now
            },
            None => delay is None,
        },
{
    match due {
        Some(due) => Some(due.saturating_sub(now)),
        None => None,
    }
}

/// The wait from `now` until `due`.
pub open spec fn wait(due: Option<u128>, now: u128) -> Option<u128> {
    match due {
        Some(due) => Some(if due > now { (due - now) as u128 } else { 0 }),
        None => None,
    }
}

/// What the demultiplexer says of a packet.
#[derive(Clone, Copy, Debug, PartialEq, Eq, Structural)]
pub struct PacketFlags {
    /// The packet is damaged.
    pub corrupt: bool,
    /// The packet can be decoded without the ones before it.
    pub key: bool,
}

/// Decides on the packets and frames of a video stream.
#[derive(Clone, Copy, Debug, PartialEq, Eq, Structural)]
pub struct VideoPlaybackThread {
    /// No packet has been decoded yet.
    pub waiting_for_key_frame: bool,
    /// When frames are due.
    pub clock: StreamClock,
}

/// Whether a packet is decoded: it is not damaged, and decoding has begun or
/// can begin with it.
pub open spec fn admits(waiting_for_key_frame: bool, packet: PacketFlags) -> bool {
    !packet.corrupt && (waiting_for_key_frame ==> packet.key)
}

impl VideoPlaybackThread {
    /// Playback of a stream from its first key frame on.
    pub fn start(time_base: TimeBase, now: u128) -> (playback: VideoPlaybackThread)
        ensures
            playback.waiting_for_key_frame,
            playback.clock == StreamClock::started(time_base, now),
            playback.clock.time_base == time_base,
            playback.clock.playback_start_time == now,
            playback.clock.first_pts is None,
    {
        VideoPlaybackThread { waiting_for_key_frame: true, clock: StreamClock::new(time_base, now) }
    }

    /// Whether a packet reached the queue, from what came of sending it.
    pub fn receive_packet<E>(sent: Result<(), E>) -> (queued: bool)
        ensures
            queued == (sent is Ok),
    {
        match sent {
            Ok(_) => true,
            Err(_) => false,
        }
    }

    /// The playback after a packet that was taken off the queue.
    pub open spec fn after_packet(self, packet: PacketFlags, now: u128) -> VideoPlaybackThread {
        if self.waiting_for_key_frame && admits(true, packet) {
            VideoPlaybackThread {
                waiting_for_key_frame: false,
                clock: StreamClock::started(self.clock.time_base, now),
            }
        } else {
            self
        }
    }

    /// Decides whether a packet that was taken off the queue is decoded. The
    /// first that is starts the clock.
    pub fn admit_packet(&mut self, packet: PacketFlags, now: u128) -> (decode: bool)
        ensures
            decode == admits(old(self).waiting_for_key_frame, packet),
            *final(self) == old(self).after_packet(packet, now),
            decode <==> !packet.corrupt && (packet.key || !old(self).waiting_for_key_frame),
            if old(self).waiting_for_key_frame && packet.key && !packet.corrupt {
                &&& !final(self).waiting_for_key_frame
                &&& final(self).clock.time_base == old(self).clock.time_base
                &&& final(self).clock.playback_start_time == now
                &&& final(self).clock.first_pts is None
            } else {
                *final(self) == *old(self)
            },
    {
        if packet.corrupt {
            return false;
        }
        if self.waiting_for_key_frame {
            if !packet.key {
                return false;
            }
            self.waiting_for_key_frame = false;
            self.clock.reset(now);
        }
        true
    }
}

/// A packet is decoded exactly when it is not damaged and either is a key
/// packet or comes after decoding has begun. The one that decoding begins with
/// starts the clock at its moment; no other packet changes anything.
pub proof fn law_packets_are_admitted(
    playback: VideoPlaybackThread,
    packet: PacketFlags,
    now: u128,
)
    ensures
        admits(playback.waiting_for_key_frame, packet) <==> !packet.corrupt && (packet.key
            || !playback.waiting_for_key_frame),
        ({
            let next = playback.after_packet(packet, now);
            if playback.waiting_for_key_frame && packet.key && !packet.corrupt {
                &&& !next.waiting_for_key_frame
                &&& next.clock.time_base == playback.clock.time_base
                &&& next.clock.playback_start_time == now
                &&& next.clock.first_pts is None
            } else {
                next == playback
            }
        }),
{
}

/// A clock starts at the given moment, in the given unit and without a
/// timestamp. Of the timestamps after that only the first one is remembered,
/// and no frame moves the start.
pub proof fn law_first_timestamp_is_remembered(
    clock: StreamClock,
    time_base: TimeBase,
    now: u128,
    pts: Option<i64>,
)
    ensures
        StreamClock::started(time_base, now).time_base == time_base,
        StreamClock::started(time_base, now).playback_start_time == now,
        StreamClock::started(time_base, now).first_pts is None,
        clock.after_frame(pts).time_base == clock.time_base,
        clock.after_frame(pts).playback_start_time == clock.playback_start_time,
        clock.first_pts is Some ==> clock.after_frame(pts).first_pts == clock.first_pts,
        clock.first_pts is None ==> clock.after_frame(pts).first_pts == pts,
{
}

/// On every clock, whatever its unit and start: the first timestamp counts as
/// zero, every later one as its difference from the first, and one that is out
/// of range as the end of the range on its side. A frame without a timestamp
/// counts as nothing.
pub proof fn law_timestamps_are_differences(clock: StreamClock, first: i64, pts: i64)
    ensures
        clock.relative(None) is None,
        clock.first_pts is None ==> clock.relative(Some(pts)) == Some(0int),
        clock.first_pts == Some(first) && i64::MIN <= pts - first <= i64::MAX ==> clock.relative(
            Some(pts),
        ) == Some(pts - first),
        clock.first_pts == Some(first) && pts - first > i64::MAX ==> clock.relative(Some(pts))
            == Some(i64::MAX as int),
        clock.first_pts == Some(first) && pts - first < i64::MIN ==> clock.relative(Some(pts))
            == Some(i64::MIN as int),
{
}

/// On every clock, whatever its unit, start and first timestamp: a frame that
/// lies `offset` after the start is shown at that moment, or at once where
/// that has passed. A frame that lies further than the clock reaches, or
/// nowhere, has no wait.
pub proof fn law_frames_are_shown_when_due(clock: StreamClock, offset: u128, now: u128)
    ensures
        clock.playback_start_time + offset <= u128::MAX ==> clock.delay(Some(offset), now) is Some,
        clock.playback_start_time + offset <= u128::MAX && now <= clock.playback_start_time + offset
            ==> now + clock.delay(Some(offset), now)->0 == clock.playback_start_time + offset,
        clock.playback_start_time + offset <= u128::MAX && now >= clock.playback_start_time + offset
            ==> clock.delay(Some(offset), now)->0 == 0,
        clock.playback_start_time + offset > u128::MAX ==> clock.delay(Some(offset), now) is None,
        clock.delay(None, now) is None,
{
}

/// A later look at the clock takes off the wait exactly what has passed, down
/// to nothing.
pub proof fn law_waiting_uses_up_the_wait(
    clock: StreamClock,
    offset: u128,
    now: u128,
    passed: u128,
)
    requires
        clock.playback_start_time + offset <= u128::MAX,
        now + passed <= u128::MAX,
    ensures
        clock.delay(Some(offset), now) is Some,
        clock.delay(Some(offset), (now + passed) as u128) is Some,
        passed <= clock.delay(Some(offset), now)->0 ==> clock.delay(
            Some(offset),
            (now + passed) as u128,
        )->0 + passed == clock.delay(Some(offset), now)->0,
        passed >= clock.delay(Some(offset), now)->0 ==> clock.delay(
            Some(offset),
            (now + passed) as u128,
        )->0 == 0,
{
}

/// One step of a playback.
#[derive(Clone, Copy, Debug, PartialEq, Eq, Structural)]
pub enum Step {
    /// A packet is taken off the queue, at a moment.
    Packet { packet: PacketFlags, now: u128 },
    /// A frame comes out of the decoder, and its timestamp is counted.
    Frame { pts: Option<i64> },
}

impl VideoPlaybackThread {
    /// The playback after a step.
    pub open spec fn after_step(self, step: Step) -> VideoPlaybackThread {
        match step {
            Step::Packet { packet, now } => self.after_packet(packet, now),
            Step::Frame { pts } => VideoPlaybackThread {
                clock: self.clock.after_frame(pts),
                ..self
            },
        }
    }
}

/// A playback after a run of packets and frames.
pub open spec fn after_steps(playback: VideoPlaybackThread, steps: Seq<Step>) -> VideoPlaybackThread
    decreases steps.len(),
{
    if steps.len() == 0 {
        playback
    } else {
        after_steps(playback, steps.drop_last()).after_step(steps.last())
    }
}

/// Step `i` of a run is a packet that is decoded.
pub open spec fn is_decoded(playback: VideoPlaybackThread, steps: Seq<Step>, i: int) -> bool {
    steps[i] matches Step::Packet { packet, .. } && admits(
        after_steps(playback, steps.take(i)).waiting_for_key_frame,
        packet,
    )
}

/// The step is a packet that is not damaged.
pub open spec fn is_intact(step: Step) -> bool {
    step matches Step::Packet { packet, .. } && !packet.corrupt
}

/// The step is a packet from which decoding can begin.
pub open spec fn is_intact_key(step: Step) -> bool {
    step matches Step::Packet { packet, .. } && packet.key && !packet.corrupt
}

/// The step is a frame that has a timestamp.
pub open spec fn is_timed(step: Step) -> bool {
    step matches Step::Frame { pts } && pts is Some
}

/// What the steps of a playback are, and what one of them does: a packet is
/// decided on, and a frame has its timestamp counted by the clock and changes
/// nothing else.
pub proof fn law_one_step(
    playback: VideoPlaybackThread,
    packet: PacketFlags,
    now: u128,
    pts: Option<i64>,
)
    ensures
        is_intact(Step::Packet { packet, now }) <==> !packet.corrupt,
        is_intact_key(Step::Packet { packet, now }) <==> !packet.corrupt && packet.key,
        !is_timed(Step::Packet { packet, now }),
        !is_intact(Step::Frame { pts }),
        !is_intact_key(Step::Frame { pts }),
        is_timed(Step::Frame { pts }) <==> pts is Some,
        playback.after_step(Step::Packet { packet, now }) == playback.after_packet(packet, now),
        playback.after_step(Step::Frame { pts }).waiting_for_key_frame
            == playback.waiting_for_key_frame,
        playback.after_step(Step::Frame { pts }).clock == playback.clock.after_frame(pts),
{
}

/// A run is its steps one after the other.
pub proof fn law_runs_are_made_of_steps(
    playback: VideoPlaybackThread,
    steps: Seq<Step>,
    step: Step,
)
    ensures
        after_steps(playback, Seq::empty()) == playback,
        after_steps(playback, steps.push(step)) == after_steps(playback, steps).after_step(step),
{
    assert(steps.push(step).drop_last() =~= steps);
}

proof fn lemma_last_step(playback: VideoPlaybackThread, steps: Seq<Step>, n: int)
    requires
        0 < n <= steps.len(),
    ensures
        after_steps(playback, steps.take(n)) == after_steps(
            playback,
            steps.take(n - 1),
        ).after_step(steps[n - 1]),
{
    assert(steps.take(n).drop_last() =~= steps.take(n - 1));
}

proof fn lemma_waiting(playback: VideoPlaybackThread, steps: Seq<Step>, n: int)
    requires
        playback.waiting_for_key_frame,
        0 <= n <= steps.len(),
    ensures
        after_steps(playback, steps.take(n)).waiting_for_key_frame <==> forall|j: int|
            0 <= j < n ==> !is_intact_key(#[trigger] steps[j]),
    decreases n,
{
    if n > 0 {
        lemma_waiting(playback, steps, n - 1);
        lemma_last_step(playback, steps, n);
    }
}

/// From the start on, exactly those packets are decoded that are not damaged
/// and have an undamaged key packet before them or are one themselves. What
/// frames come in between does not matter.
pub proof fn law_decoding_begins_with_a_key_frame(
    playback: VideoPlaybackThread,
    steps: Seq<Step>,
    i: int,
)
    requires
        playback.waiting_for_key_frame,
        0 <= i < steps.len(),
    ensures
        is_decoded(playback, steps, i) <==> is_intact(steps[i]) && exists|j: int|
            0 <= j <= i && is_intact_key(#[trigger] steps[j]),
{
    lemma_waiting(playback, steps, i);
}

proof fn lemma_not_waiting_stays(playback: VideoPlaybackThread, steps: Seq<Step>, i: int, j: int)
    requires
        0 <= i <= j <= steps.len(),
        !after_steps(playback, steps.take(i)).waiting_for_key_frame,
    ensures
        !after_steps(playback, steps.take(j)).waiting_for_key_frame,
    decreases j - i,
{
    if i < j {
        lemma_not_waiting_stays(playback, steps, i, j - 1);
        lemma_last_step(playback, steps, j);
    }
}

/// Once a packet has been decoded, every later one is unless it is damaged.
pub proof fn law_decoding_goes_on(
    playback: VideoPlaybackThread,
    steps: Seq<Step>,
    i: int,
    j: int,
)
    requires
        0 <= i < j < steps.len(),
        is_decoded(playback, steps, i),
    ensures
        is_decoded(playback, steps, j) <==> is_intact(steps[j]),
{
    lemma_last_step(playback, steps, i + 1);
    lemma_not_waiting_stays(playback, steps, i + 1, j);
}

/// While a playback waits, its clock keeps its time base and its start.
proof fn lemma_start_kept_while_waiting(playback: VideoPlaybackThread, steps: Seq<Step>, n: int)
    requires
        playback.waiting_for_key_frame,
        0 <= n <= steps.len(),
        forall|j: int| 0 <= j < n ==> !is_intact_key(#[trigger] steps[j]),
    ensures
        after_steps(playback, steps.take(n)).waiting_for_key_frame,
        after_steps(playback, steps.take(n)).clock.time_base == playback.clock.time_base,
        after_steps(playback, steps.take(n)).clock.playback_start_time
            == playback.clock.playback_start_time,
    decreases n,
{
    if n > 0 {
        lemma_start_kept_while_waiting(playback, steps, n - 1);
        lemma_last_step(playback, steps, n);
    }
}

/// Packets start the clock once, at the moment of the first decoded packet:
/// before it playback waits and its start stays as it was, with it the clock
/// begins anew, and after it no packet changes anything.
pub proof fn law_first_decoded_packet_starts_the_clock(
    playback: VideoPlaybackThread,
    steps: Seq<Step>,
    key: int,
)
    requires
        playback.waiting_for_key_frame,
        0 <= key < steps.len(),
        is_intact_key(steps[key]),
        forall|j: int| 0 <= j < key ==> !is_intact_key(#[trigger] steps[j]),
    ensures
        after_steps(playback, steps.take(key)).waiting_for_key_frame,
        after_steps(playback, steps.take(key)).clock.time_base == playback.clock.time_base,
        after_steps(playback, steps.take(key)).clock.playback_start_time
            == playback.clock.playback_start_time,
        after_steps(playback, steps.take(key + 1)) == (VideoPlaybackThread {
            waiting_for_key_frame: false,
            clock: StreamClock::started(playback.clock.time_base, steps[key]->now),
        }),
        forall|j: int|
            key < j < steps.len() && (#[trigger] steps[j]) is Packet ==> after_steps(
                playback,
                steps.take(j + 1),
            ) == after_steps(playback, steps.take(j)),
{
    lemma_start_kept_while_waiting(playback, steps, key);
    lemma_last_step(playback, steps, key + 1);
    assert forall|j: int| key < j < steps.len() && (#[trigger] steps[j]) is Packet implies
        after_steps(playback, steps.take(j + 1)) == after_steps(playback, steps.take(j)) by {
        lemma_not_waiting_stays(playback, steps, key + 1, j);
        lemma_last_step(playback, steps, j + 1);
    }
}

proof fn lemma_untimed(playback: VideoPlaybackThread, steps: Seq<Step>, i: int, j: int)
    requires
        0 <= i <= j <= steps.len(),
        !after_steps(playback, steps.take(i)).waiting_for_key_frame,
        forall|k: int| i <= k < j ==> !is_timed(#[trigger] steps[k]),
    ensures
        after_steps(playback, steps.take(j)) == after_steps(playback, steps.take(i)),
    decreases j - i,
{
    if i < j {
        lemma_untimed(playback, steps, i, j - 1);
        lemma_last_step(playback, steps, j);
    }
}

proof fn lemma_settled(playback: VideoPlaybackThread, steps: Seq<Step>, i: int, j: int)
    requires
        0 <= i <= j <= steps.len(),
        !after_steps(playback, steps.take(i)).waiting_for_key_frame,
        after_steps(playback, steps.take(i)).clock.first_pts is Some,
    ensures
        after_steps(playback, steps.take(j)) == after_steps(playback, steps.take(i)),
    decreases j - i,
{
    if i < j {
        lemma_settled(playback, steps, i, j - 1);
        lemma_last_step(playback, steps, j);
    }
}

/// However packets and frames alternate, two steps settle the clock of a
/// playback: the first undamaged key packet gives its start, and the first
/// frame with a timestamp after that packet gives its first timestamp. In
/// between the clock has a start and no timestamp, and from then on nothing
/// changes it.
pub proof fn law_key_packet_and_first_timestamp_settle_the_clock(
    playback: VideoPlaybackThread,
    steps: Seq<Step>,
    key: int,
    first: int,
)
    requires
        playback.waiting_for_key_frame,
        0 <= key < first < steps.len(),
        is_intact_key(steps[key]),
        forall|j: int| 0 <= j < key ==> !is_intact_key(#[trigger] steps[j]),
        is_timed(steps[first]),
        forall|j: int| key < j < first ==> !is_timed(#[trigger] steps[j]),
    ensures
        forall|n: int|
            key < n <= first ==> (#[trigger] after_steps(playback, steps.take(n))).clock
                == StreamClock::started(playback.clock.time_base, steps[key]->now),
        forall|n: int|
            first < n <= steps.len() ==> (#[trigger] after_steps(playback, steps.take(n))).clock
                == (StreamClock {
                time_base: playback.clock.time_base,
                playback_start_time: steps[key]->now,
                first_pts: steps[first]->pts,
            }),
        after_steps(playback, steps).clock == (StreamClock {
            time_base: playback.clock.time_base,
            playback_start_time: steps[key]->now,
            first_pts: steps[first]->pts,
        }),
{
    law_first_decoded_packet_starts_the_clock(playback, steps, key);
    assert forall|n: int| key < n <= first implies (#[trigger] after_steps(
        playback,
        steps.take(n),
    )).clock == StreamClock::started(playback.clock.time_base, steps[key]->now) by {
        lemma_untimed(playback, steps, key + 1, n);
    }
    lemma_untimed(playback, steps, key + 1, first);
    lemma_last_step(playback, steps, first + 1);
    assert forall|n: int| first < n <= steps.len() implies (#[trigger] after_steps(
        playback,
        steps.take(n),
    )).clock == (StreamClock {
        time_base: playback.clock.time_base,
        playback_start_time: steps[key]->now,
        first_pts: steps[first]->pts,
    }) by {
        lemma_settled(playback, steps, first + 1, n);
    }
    assert(steps.take(steps.len() as int) =~= steps);
}

/// In a playback, timestamps count from the first frame that has one after the
/// first undamaged key packet: that frame lies at zero, and every later one
/// lies as far behind it as its timestamp says, whatever packets come in
/// between.
pub proof fn law_playback_counts_from_the_first_timestamp(
    playback: VideoPlaybackThread,
    steps: Seq<Step>,
    key: int,
    first: int,
    pts: i64,
)
    requires
        playback.waiting_for_key_frame,
        0 <= key < first < steps.len(),
        is_intact_key(steps[key]),
        forall|j: int| 0 <= j < key ==> !is_intact_key(#[trigger] steps[j]),
        is_timed(steps[first]),
        forall|j: int| key < j < first ==> !is_timed(#[trigger] steps[j]),
    ensures
        after_steps(playback, steps.take(first)).clock.relative(steps[first]->pts) == Some(0int),
        after_steps(playback, steps).clock.relative(Some(pts)) == Some(
            saturated_difference(pts, steps[first]->pts->0),
        ),
{
    law_key_packet_and_first_timestamp_settle_the_clock(playback, steps, key, first);
}

/// In a playback every frame with a timestamp is shown when it is due: at the
/// moment of the first undamaged key packet plus the time that lies between
/// the first timestamp after that packet and its own, or at once where that
/// has passed. `offset` is the time that the difference of the two timestamps
/// stands for.
pub proof fn law_playback_shows_frames_when_due(
    playback: VideoPlaybackThread,
    steps: Seq<Step>,
    key: int,
    first: int,
    pts: i64,
    offset: u128,
    now: u128,
)
    requires
        playback.waiting_for_key_frame,
        0 <= key < first < steps.len(),
        is_intact_key(steps[key]),
        forall|j: int| 0 <= j < key ==> !is_intact_key(#[trigger] steps[j]),
        is_timed(steps[first]),
        forall|j: int| key < j < first ==> !is_timed(#[trigger] steps[j]),
        i64::MIN <= pts - steps[first]->pts->0 <= i64::MAX,
        steps[key]->now + offset <= u128::MAX,
    ensures
        after_steps(playback, steps).clock.relative(Some(pts)) == Some(
            pts - steps[first]->pts->0,
        ),
        after_steps(playback, steps).clock.delay(Some(offset), now) is Some,
        now + after_steps(playback, steps).clock.delay(Some(offset), now)->0 == if now
            < steps[key]->now + offset {
            steps[key]->now + offset
        } else {
            now as int
        },
{
    law_key_packet_and_first_timestamp_settle_the_clock(playback, steps, key, first);
    law_frames_are_shown_when_due(after_steps(playback, steps).clock, offset, now);
}

/// A clock after a run of frames.
pub open spec fn after_frames(clock: StreamClock, frames: Seq<Option<i64>>) -> StreamClock
    decreases frames.len(),
{
    if frames.len() == 0 {
        clock
    } else {
        after_frames(clock, frames.drop_last()).after_frame(frames.last())
    }
}

proof fn lemma_first_pts(clock: StreamClock, frames: Seq<Option<i64>>, first: int)
    requires
        clock.first_pts is None,
        0 <= first < frames.len(),
        frames[first] is Some,
        forall|j: int| 0 <= j < first ==> #[trigger] frames[j] is None,
    ensures
        after_frames(clock, frames) == (StreamClock { first_pts: frames[first], ..clock }),
    decreases frames.len(),
{
    let earlier = frames.drop_last();
    if first < earlier.len() {
        lemma_first_pts(clock, earlier, first);
    } else {
        lemma_no_pts(clock, earlier);
    }
}

proof fn lemma_no_pts(clock: StreamClock, frames: Seq<Option<i64>>)
    requires
        forall|j: int| 0 <= j < frames.len() ==> #[trigger] frames[j] is None,
    ensures
        after_frames(clock, frames) == clock,
    decreases frames.len(),
{
    if frames.len() > 0 {
        lemma_no_pts(clock, frames.drop_last());
    }
}

/// After playback starts, timestamps count from the first frame that has one:
/// that frame lies at zero, and every later one lies as far behind it as its
/// timestamp says.
pub proof fn law_timestamps_count_from_the_first(
    clock: StreamClock,
    frames: Seq<Option<i64>>,
    first: int,
    pts: i64,
)
    requires
        clock.first_pts is None,
        0 <= first < frames.len(),
        frames[first] is Some,
        forall|j: int| 0 <= j < first ==> #[trigger] frames[j] is None,
    ensures
        after_frames(clock, frames.take(first)).relative(frames[first]) == Some(0int),
        after_frames(clock, frames).relative(Some(pts)) == Some(
            saturated_difference(pts, frames[first]->0),
        ),
{
    lemma_no_pts(clock, frames.take(first));
    lemma_first_pts(clock, frames, first);
}

/// Two frames of one playback lie as far apart as their timestamps, unless a
/// difference to the first one is out of range.
pub proof fn law_frames_keep_their_distance(clock: StreamClock, first: i64, one: i64, other: i64)
    requires
        clock.first_pts == Some(first),
        i64::MIN <= one - first <= i64::MAX,
        i64::MIN <= other - first <= i64::MAX,
    ensures
        clock.relative(Some(other))->0 - clock.relative(Some(one))->0 == other - one,
{
}

/// Frames are not put out of order: a later timestamp never lies before an
/// earlier one, in range or not.
pub proof fn law_frames_keep_their_order(clock: StreamClock, first: i64, one: i64, other: i64)
    requires
        clock.first_pts == Some(first),
        one <= other,
    ensures
        clock.relative(Some(one))->0 <= clock.relative(Some(other))->0,
{
}

/// Waiting ends when the frame is due, or at once where that has passed, and a
/// frame that is due later never waits less.
pub proof fn law_frames_wait_until_they_are_due(due: u128, later: u128, now: u128)
    requires
        due <= later,
    ensures
        now + wait(Some(due), now)->0 == if due > now {
            due
        } else {
            now
        },
        wait(Some(due), now) is Some,
        wait(None, now) is None,
        wait(Some(due), now)->0 <= wait(Some(later), now)->0,
{
}

/// On one clock a frame that lies further from the start never waits less.
pub proof fn law_larger_offsets_never_wait_less(
    clock: StreamClock,
    one: u128,
    other: u128,
    now: u128,
)
    requires
        one <= other,
        clock.playback_start_time + other <= u128::MAX,
    ensures
        clock.delay(Some(one), now) is Some,
        clock.delay(Some(other), now) is Some,
        clock.delay(Some(one), now)->0 <= clock.delay(Some(other), now)->0,
{
}

/// A frame at the start of playback is shown without a wait from then on.
pub proof fn law_start_of_playback_does_not_wait(time_base: TimeBase, start: u128, now: u128)
    requires
        start <= now,
    ensures
        StreamClock::started(time_base, start).delay(Some(0), now) == Some(0u128),
{
}

/// Turns units of a time base into time, and keeps their order from zero on.
/// Units that it has no time for give `None`.
pub open spec fn keeps_order(time_of: spec_fn(int) -> Option<u128>) -> bool {
    forall|a: int, b: int|
        0 <= a <= b && (#[trigger] time_of(a)) is Some && (#[trigger] time_of(b)) is Some
            ==> time_of(a)->0 <= time_of(b)->0
}

/// The wait before a frame with a timestamp, where `time_of` turns units of
/// the time base into time.
pub open spec fn pts_delay(
    clock: StreamClock,
    time_of: spec_fn(int) -> Option<u128>,
    pts: i64,
    now: u128,
) -> Option<u128> {
    match clock.relative(Some(pts)) {
        Some(units) => clock.delay(time_of(units), now),
        None => None,
    }
}

/// From the first frame of a playback on, a later timestamp never has a
/// shorter wait, however units of the time base are turned into time, as long
/// as that keeps their order.
pub proof fn law_later_frames_never_wait_less(
    clock: StreamClock,
    time_of: spec_fn(int) -> Option<u128>,
    first: i64,
    one: i64,
    other: i64,
    now: u128,
)
    requires
        clock.first_pts == Some(first),
        keeps_order(time_of),
        first <= one <= other,
        pts_delay(clock, time_of, one, now) is Some,
        pts_delay(clock, time_of, other, now) is Some,
    ensures
        pts_delay(clock, time_of, one, now)->0 <= pts_delay(clock, time_of, other, now)->0,
{
    let a = saturated_difference(one, first);
    let b = saturated_difference(other, first);
    assert(0 <= a <= b);
    assert(time_of(a)->0 <= time_of(b)->0);
}

} // verus!
