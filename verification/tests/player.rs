use fridge_monitor::player::{Action, Event, Phase, Player};

fn player() -> Player {
    Player::start("rtmp://127.0.0.1:1935/live/predict".to_string())
}

fn streaming(best_audio: Option<usize>) -> Player {
    let mut player = player();
    player.handle(Event::InputOpened { best_video: Some(0) });
    player.handle(Event::VideoStarted { best_audio });
    player
}

#[test]
fn rtsp_is_read_over_tcp() {
    let player = Player::start("rtsp://192.168.8.41:8554/fridge/cabinet-a".to_string());
    assert_eq!(player.open_option(), Some(("rtsp_transport", "tcp")));
}

#[test]
fn other_inputs_take_no_option() {
    assert_eq!(player().open_option(), None);
    assert_eq!(Player::start("RTSP://host".to_string()).open_option(), None);
    assert_eq!(Player::start(String::new()).open_option(), None);
}

#[test]
fn failed_input_is_reported() {
    let mut player = player();
    let action = player.handle(Event::InputFailed { error: "Connection refused".to_string() });
    match action {
        Action::Report { message } => assert_eq!(
            message,
            "failed to open input rtmp://127.0.0.1:1935/live/predict: Connection refused"
        ),
        _ => panic!("an error should be reported"),
    }
    assert_eq!(player.phase, Phase::Stopped);
}

#[test]
fn input_without_video_is_reported() {
    let mut player = player();
    match player.handle(Event::InputOpened { best_video: None }) {
        Action::Report { message } => assert_eq!(
            message,
            "input rtmp://127.0.0.1:1935/live/predict has no video stream"
        ),
        _ => panic!("an error should be reported"),
    }
    assert_eq!(player.phase, Phase::Stopped);
}

#[test]
fn nothing_follows_a_report() {
    let mut player = player();
    player.handle(Event::InputOpened { best_video: None });
    for event in [
        Event::InputFailed { error: "again".to_string() },
        Event::InputOpened { best_video: Some(1) },
        Event::VideoStarted { best_audio: Some(1) },
        Event::AudioStarted,
        Event::AudioFailed { error: "again".to_string() },
        Event::Packet { stream: 0 },
        Event::InputEnded,
    ] {
        assert!(matches!(player.handle(event), Action::Ignore));
        assert_eq!(player.phase, Phase::Stopped);
    }
}

#[test]
fn video_starts_first_then_audio() {
    let mut player = player();
    assert!(matches!(
        player.handle(Event::InputOpened { best_video: Some(3) }),
        Action::StartVideo { stream: 3 }
    ));
    assert_eq!(player.phase, Phase::StartingVideo { video: 3 });
    assert!(matches!(
        player.handle(Event::VideoStarted { best_audio: Some(5) }),
        Action::StartAudio { stream: 5 }
    ));
    assert_eq!(player.phase, Phase::StartingAudio { video: 3, candidate: 5 });
    assert!(matches!(player.handle(Event::AudioStarted), Action::ReadPacket));
    assert_eq!(player.phase, Phase::Streaming { video: 3, audio: Some(5) });
}

#[test]
fn input_without_audio_plays() {
    let mut player = player();
    player.handle(Event::InputOpened { best_video: Some(0) });
    assert!(matches!(
        player.handle(Event::VideoStarted { best_audio: None }),
        Action::ReadPacket
    ));
    assert_eq!(player.phase, Phase::Streaming { video: 0, audio: None });
}

#[test]
fn failed_audio_leaves_the_video() {
    let mut player = streaming(Some(1));
    match player.handle(Event::AudioFailed { error: "no device".to_string() }) {
        Action::WarnAndRead { message } => {
            assert_eq!(message, "failed to start audio playback: no device")
        }
        _ => panic!("a warning should be given"),
    }
    assert!(matches!(player.handle(Event::Packet { stream: 1 }), Action::ReadPacket));
    assert!(matches!(player.handle(Event::Packet { stream: 0 }), Action::PlayVideo));
}

#[test]
fn packets_go_to_the_decoder_of_their_stream() {
    let mut player = streaming(Some(1));
    player.handle(Event::AudioStarted);
    assert!(matches!(player.handle(Event::Packet { stream: 0 }), Action::PlayVideo));
    assert!(matches!(player.handle(Event::Packet { stream: 1 }), Action::PlayAudio));
    assert!(matches!(player.handle(Event::Packet { stream: 2 }), Action::ReadPacket));
    assert_eq!(player.phase, Phase::Streaming { video: 0, audio: Some(1) });
}

#[test]
fn stream_for_both_plays_as_audio() {
    let mut player = streaming(Some(0));
    player.handle(Event::AudioStarted);
    assert!(matches!(player.handle(Event::Packet { stream: 0 }), Action::PlayAudio));
}

#[test]
fn playback_stops_with_the_input() {
    let mut player = streaming(None);
    assert!(matches!(player.handle(Event::InputEnded), Action::Stop));
    assert!(matches!(player.handle(Event::Packet { stream: 0 }), Action::Ignore));
}

#[test]
fn events_out_of_turn_change_nothing() {
    let mut player = player();
    assert!(matches!(player.handle(Event::Packet { stream: 0 }), Action::Ignore));
    assert!(matches!(player.handle(Event::AudioStarted), Action::Ignore));
    assert!(matches!(player.handle(Event::InputEnded), Action::Ignore));
    assert_eq!(player.phase, Phase::Opening);
}

#[test]
fn only_started_streams_play() {
    let mut player = player();
    let mut started = Vec::new();
    let mut played = Vec::new();
    for event in [
        Event::Packet { stream: 2 },
        Event::InputOpened { best_video: Some(2) },
        Event::Packet { stream: 2 },
        Event::VideoStarted { best_audio: Some(4) },
        Event::Packet { stream: 4 },
        Event::AudioStarted,
        Event::Packet { stream: 4 },
        Event::Packet { stream: 3 },
        Event::Packet { stream: 2 },
    ] {
        let packet = match &event {
            Event::Packet { stream } => Some(*stream),
            _ => None,
        };
        match player.handle(event) {
            Action::StartVideo { stream } | Action::StartAudio { stream } => started.push(stream),
            Action::PlayVideo | Action::PlayAudio => played.push(packet.unwrap()),
            _ => {}
        }
    }
    assert_eq!(started, vec![2, 4]);
    assert_eq!(played, vec![4, 2]);
}
