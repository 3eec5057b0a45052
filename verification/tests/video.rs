use fridge_monitor::player::video::{
    playback_delay, PacketFlags, StreamClock, TimeBase, VideoPlaybackThread, PACKET_QUEUE_CAPACITY,
};

const MILLISECONDS: TimeBase = TimeBase { numerator: 1, denominator: 1000 };
const KEY: PacketFlags = PacketFlags { corrupt: false, key: true };
const PLAIN: PacketFlags = PacketFlags { corrupt: false, key: false };
const BAD_KEY: PacketFlags = PacketFlags { corrupt: true, key: true };
const BAD: PacketFlags = PacketFlags { corrupt: true, key: false };

#[test]
fn decoding_begins_with_a_key_packet() {
    let mut playback = VideoPlaybackThread::start(MILLISECONDS, 0);
    let decoded: Vec<bool> = [PLAIN, BAD_KEY, BAD, KEY, PLAIN, BAD, BAD_KEY, KEY, PLAIN]
        .iter()
        .map(|packet| playback.admit_packet(*packet, 1))
        .collect();
    assert_eq!(
        decoded,
        vec![false, false, false, true, true, false, false, true, true]
    );
}

#[test]
fn first_decoded_packet_starts_the_clock() {
    let mut playback = VideoPlaybackThread::start(MILLISECONDS, 5);
    assert!(playback.waiting_for_key_frame);
    assert_eq!(playback.clock.playback_start_time, 5);
    playback.admit_packet(PLAIN, 10);
    assert_eq!(playback.clock.playback_start_time, 5);
    playback.clock.relative_pts(Some(77));
    playback.admit_packet(KEY, 20);
    assert!(!playback.waiting_for_key_frame);
    assert_eq!(playback.clock, StreamClock::new(MILLISECONDS, 20));
    playback.clock.relative_pts(Some(88));
    playback.admit_packet(KEY, 30);
    assert_eq!(playback.clock.playback_start_time, 20);
    assert_eq!(playback.clock.first_pts, Some(88));
}

#[test]
fn key_packet_and_first_timestamp_settle_the_clock() {
    let mut playback = VideoPlaybackThread::start(MILLISECONDS, 5);
    assert!(!playback.admit_packet(PLAIN, 10));
    playback.clock.relative_pts(Some(77));
    assert!(!playback.admit_packet(BAD_KEY, 15));
    assert!(playback.admit_packet(KEY, 20));
    playback.clock.relative_pts(None);
    assert!(playback.admit_packet(PLAIN, 25));
    assert_eq!(playback.clock, StreamClock::new(MILLISECONDS, 20));

    assert_eq!(playback.clock.relative_pts(Some(900)), Some(0));
    let settled =
        StreamClock { time_base: MILLISECONDS, playback_start_time: 20, first_pts: Some(900) };
    assert_eq!(playback.clock, settled);

    assert!(playback.admit_packet(KEY, 30));
    assert_eq!(playback.clock, settled);
    assert_eq!(playback.clock.relative_pts(Some(940)), Some(40));
    assert!(!playback.admit_packet(BAD, 35));
    assert_eq!(playback.clock.relative_pts(None), None);
    assert!(playback.admit_packet(PLAIN, 40));
    assert_eq!(playback.clock.relative_pts(Some(890)), Some(-10));
    assert_eq!(playback.clock, settled);
    assert!(!playback.waiting_for_key_frame);
}

#[test]
fn frames_do_not_decide_which_packets_are_decoded() {
    let mut playback = VideoPlaybackThread::start(MILLISECONDS, 0);
    let mut decoded: Vec<bool> = Vec::new();
    for packet in [PLAIN, BAD_KEY, KEY, BAD, PLAIN, KEY] {
        playback.clock.relative_pts(Some(7));
        decoded.push(playback.admit_packet(packet, 1));
        playback.clock.relative_pts(None);
    }
    assert_eq!(decoded, vec![false, false, true, false, true, true]);
}

#[test]
fn timestamps_count_from_the_first() {
    let mut clock = StreamClock::new(MILLISECONDS, 0);
    assert_eq!(clock.relative_pts(None), None);
    assert_eq!(clock.first_pts, None);
    assert_eq!(clock.relative_pts(Some(1000)), Some(0));
    assert_eq!(clock.relative_pts(Some(1040)), Some(40));
    assert_eq!(clock.relative_pts(None), None);
    assert_eq!(clock.relative_pts(Some(990)), Some(-10));
    assert_eq!(clock.first_pts, Some(1000));
    assert_eq!(clock.time_base, MILLISECONDS);
}

#[test]
fn reset_forgets_the_first_timestamp() {
    let mut clock = StreamClock::new(MILLISECONDS, 3);
    clock.relative_pts(Some(1000));
    clock.reset(9);
    assert_eq!(clock, StreamClock::new(MILLISECONDS, 9));
    assert_eq!(clock.relative_pts(Some(2000)), Some(0));
}

#[test]
fn differences_stay_in_range() {
    let mut clock = StreamClock::new(MILLISECONDS, 0);
    clock.relative_pts(Some(i64::MIN));
    assert_eq!(clock.relative_pts(Some(i64::MAX)), Some(i64::MAX));
    clock.reset(0);
    clock.relative_pts(Some(i64::MAX));
    assert_eq!(clock.relative_pts(Some(i64::MIN)), Some(i64::MIN));
}

#[test]
fn frames_are_due_after_the_start() {
    let clock = StreamClock::new(MILLISECONDS, 100);
    assert_eq!(clock.convert_pts_to_instant(0), Some(100));
    assert_eq!(clock.convert_pts_to_instant(40), Some(140));
    assert_eq!(clock.convert_pts_to_instant(u128::MAX - 100), Some(u128::MAX));
    assert_eq!(clock.convert_pts_to_instant(u128::MAX - 99), None);
}

#[test]
fn frames_wait_until_they_are_due() {
    assert_eq!(playback_delay(Some(140), 100), Some(40));
    assert_eq!(playback_delay(Some(140), 140), Some(0));
    assert_eq!(playback_delay(Some(140), 200), Some(0));
    assert_eq!(playback_delay(None, 200), None);
    assert!(playback_delay(Some(150), 120) >= playback_delay(Some(140), 120));
}

#[test]
fn packets_are_queued_when_they_were_sent() {
    assert!(VideoPlaybackThread::receive_packet::<&str>(Ok(())));
    assert!(!VideoPlaybackThread::receive_packet(Err("closed")));
    assert_eq!(PACKET_QUEUE_CAPACITY, 128);
}

#[test]
fn frames_keep_distance_and_order() {
    let mut clock = StreamClock::new(MILLISECONDS, 0);
    clock.relative_pts(Some(500));
    let one = clock.relative_pts(Some(620)).unwrap();
    let other = clock.relative_pts(Some(700)).unwrap();
    assert_eq!(other - one, 80);

    clock.reset(0);
    clock.relative_pts(Some(-2));
    let one = clock.relative_pts(Some(i64::MAX - 1)).unwrap();
    let other = clock.relative_pts(Some(i64::MAX)).unwrap();
    assert_eq!(one, i64::MAX);
    assert_eq!(other, i64::MAX);
}

#[test]
fn frame_delay_runs_to_the_due_moment() {
    let clock = StreamClock::new(MILLISECONDS, 100);
    assert_eq!(clock.frame_delay(Some(40), 100), Some(40));
    assert_eq!(clock.frame_delay(Some(40), 125), Some(15));
    assert_eq!(clock.frame_delay(Some(40), 140), Some(0));
    assert_eq!(clock.frame_delay(Some(40), 500), Some(0));
    assert_eq!(clock.frame_delay(Some(40), 0), Some(140));
}

#[test]
fn frames_that_are_never_due_do_not_wait() {
    let clock = StreamClock::new(MILLISECONDS, 100);
    assert_eq!(clock.frame_delay(None, 0), None);
    assert_eq!(clock.frame_delay(Some(u128::MAX - 99), 0), None);
    assert_eq!(clock.frame_delay(Some(u128::MAX - 100), 0), Some(u128::MAX));
}

#[test]
fn larger_offsets_never_wait_less() {
    let clock = StreamClock::new(MILLISECONDS, 100);
    let delays: Vec<Option<u128>> =
        [0, 10, 20, 30].iter().map(|offset| clock.frame_delay(Some(*offset), 115)).collect();
    assert_eq!(delays, vec![Some(0), Some(0), Some(5), Some(15)]);
}

#[test]
fn start_of_playback_does_not_wait() {
    let clock = StreamClock::new(MILLISECONDS, 100);
    assert_eq!(clock.frame_delay(Some(0), 100), Some(0));
    assert_eq!(clock.frame_delay(Some(0), 170), Some(0));
}

#[test]
fn later_frames_never_wait_less() {
    let mut clock = StreamClock::new(MILLISECONDS, 0);
    clock.relative_pts(Some(1000));
    let delays: Vec<Option<u128>> = [1000, 1040, 1040, 1080]
        .iter()
        .map(|pts| {
            let units = clock.relative_pts(Some(*pts)).unwrap();
            clock.frame_delay(Some(units as u128 * 1_000_000), 20_000_000)
        })
        .collect();
    assert_eq!(
        delays,
        vec![Some(0), Some(20_000_000), Some(20_000_000), Some(60_000_000)]
    );
}
