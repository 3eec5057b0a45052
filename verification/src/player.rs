//! The player: what it does from opening a stream to its last packet.
//!
//! Opening, decoding and playing are done outside. [`Player`] decides: it is
//! told what happened and answers with what to do next.

pub mod video;

use crate::text::{has_part, has_prefix, join3, starts_with};
use vstd::prelude::*;
use vstd::seq_lib::lemma_seq_contains_after_push;
use vstd::string::StringExecFns;

verus! {

/// How far a player has come. Streams are named by their index in the input.
#[derive(Clone, Copy, Debug, PartialEq, Eq, Structural)]
pub enum Phase {
    /// The input is being opened.
    Opening,
    /// The decoder of the video stream is being started.
    StartingVideo { video: usize },
    /// The video plays; the decoder of the audio stream is being started.
    StartingAudio { video: usize, candidate: usize },
    /// Packets are being handed out.
    Streaming { video: usize, audio: Option<usize> },
    /// Nothing is left to do.
    Stopped,
}

/// What happened to the input.
pub enum Event {
    /// It could not be opened.
    InputFailed { error: String },
    /// It was opened; the stream that suits best for video, if there is one.
    InputOpened { best_video: Option<usize> },
    /// The video plays; the stream that suits best for audio, if there is one.
    VideoStarted { best_audio: Option<usize> },
    /// The audio plays.
    AudioStarted,
    /// The audio cannot be played.
    AudioFailed { error: String },
    /// A packet of a stream was read.
    Packet { stream: usize },
    /// There are no more packets.
    InputEnded,
}

/// What to do next.
pub enum Action {
    /// Start the video decoder on a stream.
    StartVideo { stream: usize },
    /// Start the audio decoder on a stream.
    StartAudio { stream: usize },
    /// Read the next packet.
    ReadPacket,
    /// Say that there will be no audio, then read the next packet.
    WarnAndRead { message: String },
    /// Hand the packet to the video decoder, then read the next one.
    PlayVideo,
    /// Hand the packet to the audio decoder, then read the next one.
    PlayAudio,
    /// Report an error and stop.
    Report { message: String },
    /// Stop.
    Stop,
    /// Nothing: the event does not fit what the player waits for.
    Ignore,
}

/// An event as its meaning.
pub enum EventView {
    InputFailed { error: Seq<char> },
    InputOpened { best_video: Option<usize> },
    VideoStarted { best_audio: Option<usize> },
    AudioStarted,
    AudioFailed { error: Seq<char> },
    Packet { stream: usize },
    InputEnded,
}

/// An action as its meaning.
pub enum ActionView {
    StartVideo { stream: usize },
    StartAudio { stream: usize },
    ReadPacket,
    WarnAndRead { message: Seq<char> },
    PlayVideo,
    PlayAudio,
    Report { message: Seq<char> },
    Stop,
    Ignore,
}

impl View for Event {
    type V = EventView;

    open spec fn view(&self) -> EventView {
        match *self {
            Event::InputFailed { error } => EventView::InputFailed { error: error@ },
            Event::InputOpened { best_video } => EventView::InputOpened { best_video },
            Event::VideoStarted { best_audio } => EventView::VideoStarted { best_audio },
            Event::AudioStarted => EventView::AudioStarted,
            Event::AudioFailed { error } => EventView::AudioFailed { error: error@ },
            Event::Packet { stream } => EventView::Packet { stream },
            Event::InputEnded => EventView::InputEnded,
        }
    }
}

impl View for Action {
    type V = ActionView;

    open spec fn view(&self) -> ActionView {
        match *self {
            Action::StartVideo { stream } => ActionView::StartVideo { stream },
            Action::StartAudio { stream } => ActionView::StartAudio { stream },
            Action::ReadPacket => ActionView::ReadPacket,
            Action::WarnAndRead { message } => ActionView::WarnAndRead { message: message@ },
            Action::PlayVideo => ActionView::PlayVideo,
            Action::PlayAudio => ActionView::PlayAudio,
            Action::Report { message } => ActionView::Report { message: message@ },
            Action::Stop => ActionView::Stop,
            Action::Ignore => ActionView::Ignore,
        }
    }
}

/// The decisions of one playback.
pub struct Player {
    pub url: String,
    pub phase: Phase,
}

/// A player as its meaning.
pub struct PlayerView {
    pub url: Seq<char>,
    pub phase: Phase,
}

impl View for Player {
    type V = PlayerView;

    open spec fn view(&self) -> PlayerView {
        PlayerView { url: self.url@, phase: self.phase }
    }
}

/// The message on an input that could not be opened.
pub open spec fn open_failure(url: Seq<char>, error: Seq<char>) -> Seq<char> {
    "failed to open input "@ + url + ": "@ + error
}

/// The message on an input without video.
pub open spec fn no_video(url: Seq<char>) -> Seq<char> {
    "input "@ + url + " has no video stream"@
}

/// The message on audio that cannot be played.
pub open spec fn no_audio(error: Seq<char>) -> Seq<char> {
    "failed to start audio playback: "@ + error
}

/// Where a packet goes: to the audio if it belongs to the audio stream, else
/// to the video if it belongs to the video stream, else nowhere.
pub open spec fn packet_action(video: usize, audio: Option<usize>, stream: usize) -> ActionView {
    if audio == Some(stream) {
        ActionView::PlayAudio
    } else if stream == video {
        ActionView::PlayVideo
    } else {
        ActionView::ReadPacket
    }
}

impl PlayerView {
    /// The phase after an event, and what to do.
    pub open spec fn step(self, event: EventView) -> (Phase, ActionView) {
        match (self.phase, event) {
            (Phase::Opening, EventView::InputFailed { error }) => (
                Phase::Stopped,
                ActionView::Report { message: open_failure(self.url, error) },
            ),
            (Phase::Opening, EventView::InputOpened { best_video: None }) => (
                Phase::Stopped,
                ActionView::Report { message: no_video(self.url) },
            ),
            (Phase::Opening, EventView::InputOpened { best_video: Some(video) }) => (
                Phase::StartingVideo { video },
                ActionView::StartVideo { stream: video },
            ),
            (Phase::StartingVideo { video }, EventView::VideoStarted { best_audio: None }) => (
                Phase::Streaming { video, audio: None },
                ActionView::ReadPacket,
            ),
            (Phase::StartingVideo { video }, EventView::VideoStarted { best_audio: Some(audio) }) => (
                Phase::StartingAudio { video, candidate: audio },
                ActionView::StartAudio { stream: audio },
            ),
            (Phase::StartingAudio { video, candidate }, EventView::AudioStarted) => (
                Phase::Streaming { video, audio: Some(candidate) },
                ActionView::ReadPacket,
            ),
            (Phase::StartingAudio { video, candidate: _ }, EventView::AudioFailed { error }) => (
                Phase::Streaming { video, audio: None },
                ActionView::WarnAndRead { message: no_audio(error) },
            ),
            (Phase::Streaming { video, audio }, EventView::Packet { stream }) => (
                Phase::Streaming { video, audio },
                packet_action(video, audio, stream),
            ),
            (Phase::Streaming { video: _, audio: _ }, EventView::InputEnded) => (
                Phase::Stopped,
                ActionView::Stop,
            ),
            _ => (self.phase, ActionView::Ignore),
        }
    }
}

impl Player {
    /// A player of the input at `url`, which is to be opened next.
    pub fn start(url: String) -> (player: Player)
        ensures
            player@.url == url@,
            player@.phase == Phase::Opening,
            player.url@ == url@,
            player.phase == Phase::Opening,
    {
        Player { url, phase: Phase::Opening }
    }

    /// The option to open the input with, as name and value: RTSP inputs are
    /// read over TCP, others take none.
    pub fn open_option(&self) -> (option: Option<(&'static str, &'static str)>)
        ensures
            match option {
                Some((name, value)) => has_prefix(self@.url, "rtsp://"@) && name@
                    == "rtsp_transport"@ && value@ == "tcp"@,
                None => !has_prefix(self@.url, "rtsp://"@),
            },
    {
        if starts_with(self.url.as_str(), "rtsp://") {
            Some(("rtsp_transport", "tcp"))
        } else {
            None
        }
    }

    /// Takes note of an event and says what to do. An event that does not fit
    /// the phase changes nothing.
    pub fn handle(&mut self, event: Event) -> (action: Action)
        ensures
            final(self)@.url == old(self)@.url,
            (final(self)@.phase, action@) == old(self)@.step(event@),
            final(self).url@ == old(self).url@,
            match (old(self).phase, event) {
                (Phase::Opening, Event::InputFailed { error }) => {
                    &&& final(self).phase == Phase::Stopped
                    &&& action matches Action::Report { message }
                    &&& message@ == "failed to open input "@ + old(self).url@ + ": "@ + error@
                },
                (Phase::Opening, Event::InputOpened { best_video: None }) => {
                    &&& final(self).phase == Phase::Stopped
                    &&& action matches Action::Report { message }
                    &&& message@ == "input "@ + old(self).url@ + " has no video stream"@
                },
                (Phase::Opening, Event::InputOpened { best_video: Some(video) }) => {
                    &&& final(self).phase == (Phase::StartingVideo { video })
                    &&& action == (Action::StartVideo { stream: video })
                },
                (Phase::StartingVideo { video }, Event::VideoStarted { best_audio: None }) => {
                    &&& final(self).phase == (Phase::Streaming { video, audio: None })
                    &&& action is ReadPacket
                },
                (Phase::StartingVideo { video }, Event::VideoStarted { best_audio: Some(audio) }) => {
                    &&& final(self).phase == (Phase::StartingAudio { video, candidate: audio })
                    &&& action == (Action::StartAudio { stream: audio })
                },
                (Phase::StartingAudio { video, candidate }, Event::AudioStarted) => {
                    &&& final(self).phase == (Phase::Streaming { video, audio: Some(candidate) })
                    &&& action is ReadPacket
                },
                (Phase::StartingAudio { video, candidate: _ }, Event::AudioFailed { error }) => {
                    &&& final(self).phase == (Phase::Streaming { video, audio: None })
                    &&& action matches Action::WarnAndRead { message }
                    &&& message@ == "failed to start audio playback: "@ + error@
                },
                (Phase::Streaming { video, audio }, Event::Packet { stream }) => {
                    &&& final(self).phase == old(self).phase
                    &&& action is PlayAudio <==> audio == Some(stream)
                    &&& action is PlayVideo <==> stream == video && audio != Some(stream)
                    &&& action is ReadPacket <==> stream != video && audio != Some(stream)
                },
                (Phase::Streaming { video: _, audio: _ }, Event::InputEnded) => {
                    &&& final(self).phase == Phase::Stopped
                    &&& action is Stop
                },
                _ => {
                    &&& final(self).phase == old(self).phase
                    &&& action is Ignore
                },
            },
    {
        match (self.phase, event) {
            (Phase::Opening, Event::InputFailed { error }) => {
                self.phase = Phase::Stopped;
                let mut message = join3("failed to open input ", self.url.as_str(), ": ");
                message.append(error.as_str());
                Action::Report { message }
            },
            (Phase::Opening, Event::InputOpened { best_video: None }) => {
                self.phase = Phase::Stopped;
                Action::Report { message: join3("input ", self.url.as_str(), " has no video stream") }
            },
            (Phase::Opening, Event::InputOpened { best_video: Some(video) }) => {
                self.phase = Phase::StartingVideo { video };
                Action::StartVideo { stream: video }
            },
            (Phase::StartingVideo { video }, Event::VideoStarted { best_audio: None }) => {
                self.phase = Phase::Streaming { video, audio: None };
                Action::ReadPacket
            },
            (Phase::StartingVideo { video }, Event::VideoStarted { best_audio: Some(audio) }) => {
                self.phase = Phase::StartingAudio { video, candidate: audio };
                Action::StartAudio { stream: audio }
            },
            (Phase::StartingAudio { video, candidate }, Event::AudioStarted) => {
                self.phase = Phase::Streaming { video, audio: Some(candidate) };
                Action::ReadPacket
            },
            (Phase::StartingAudio { video, candidate: _ }, Event::AudioFailed { error }) => {
                self.phase = Phase::Streaming { video, audio: None };
                let mut message = String::from_str("failed to start audio playback: ");
                message.append(error.as_str());
                Action::WarnAndRead { message }
            },
            (Phase::Streaming { video, audio }, Event::Packet { stream }) => {
                if let Some(audio) = audio {
                    if stream == audio {
                        return Action::PlayAudio;
                    }
                }
                if stream == video {
                    Action::PlayVideo
                } else {
                    Action::ReadPacket
                }
            },
            (Phase::Streaming { video: _, audio: _ }, Event::InputEnded) => {
                self.phase = Phase::Stopped;
                Action::Stop
            },
            _ => Action::Ignore,
        }
    }
}

/// A player after a run of events.
pub open spec fn after_events(player: PlayerView, events: Seq<EventView>) -> PlayerView
    decreases events.len(),
{
    if events.len() == 0 {
        player
    } else {
        let before = after_events(player, events.drop_last());
        PlayerView { url: before.url, phase: before.step(events.last()).0 }
    }
}

/// What a player does on event `i` of a run.
pub open spec fn action_on(player: PlayerView, events: Seq<EventView>, i: int) -> ActionView {
    after_events(player, events.take(i)).step(events[i]).1
}

proof fn lemma_stopped_stays(player: PlayerView, events: Seq<EventView>, i: int, j: int)
    requires
        0 <= i <= j <= events.len(),
        after_events(player, events.take(i)).phase == Phase::Stopped,
    ensures
        after_events(player, events.take(j)).phase == Phase::Stopped,
    decreases j - i,
{
    if i < j {
        lemma_stopped_stays(player, events, i, j - 1);
        assert(events.take(j).drop_last() =~= events.take(j - 1));
    }
}

/// A report or the end of the input is the last thing a player acts on: after
/// it, every event is ignored. So a playback reports at most one error.
pub proof fn law_nothing_follows_a_report(
    player: PlayerView,
    events: Seq<EventView>,
    i: int,
    j: int,
)
    requires
        0 <= i < j < events.len(),
        action_on(player, events, i) is Report || action_on(player, events, i) is Stop,
    ensures
        action_on(player, events, j) is Ignore,
{
    assert(events.take(i + 1).drop_last() =~= events.take(i));
    assert(events.take(i + 1).last() == events[i]);
    lemma_stopped_stays(player, events, i + 1, j);
}

/// The decoders of these streams were asked to be started.
spec fn started(actions: Seq<ActionView>, video: usize, audio: Option<usize>) -> bool {
    &&& actions.contains(ActionView::StartVideo { stream: video })
    &&& audio matches Some(stream) ==> actions.contains(ActionView::StartAudio { stream })
}

/// What a player does on each event of a run.
pub open spec fn actions(player: PlayerView, events: Seq<EventView>) -> Seq<ActionView> {
    Seq::new(events.len(), |i: int| action_on(player, events, i))
}

proof fn lemma_actions_extend(player: PlayerView, events: Seq<EventView>)
    requires
        events.len() > 0,
    ensures
        forall|action: ActionView| #[trigger]
            actions(player, events).contains(action) <==> actions(
                player,
                events.drop_last(),
            ).contains(action) || action == action_on(player, events, events.len() - 1),
{
    let shorter = events.drop_last();
    let last = action_on(player, events, events.len() - 1);
    assert forall|i: int| 0 <= i < shorter.len() implies action_on(player, shorter, i) == action_on(
        player,
        events,
        i,
    ) by {
        assert(shorter.take(i) =~= events.take(i));
    }
    assert(actions(player, events) =~= actions(player, shorter).push(last));
    assert forall|action: ActionView| #[trigger]
        actions(player, events).contains(action) <==> actions(player, shorter).contains(action)
            || action == last by {
        lemma_seq_contains_after_push(actions(player, shorter), last, action);
    }
}

/// The streams of a player's phase are ones whose decoders it asked to be
/// started.
proof fn lemma_phase_streams_started(player: PlayerView, events: Seq<EventView>)
    requires
        player.phase == Phase::Opening,
    ensures
        match after_events(player, events).phase {
            Phase::Opening | Phase::Stopped => true,
            Phase::StartingVideo { video } => started(actions(player, events), video, None),
            Phase::StartingAudio { video, candidate: audio } => started(
                actions(player, events),
                video,
                Some(audio),
            ),
            Phase::Streaming { video, audio } => started(actions(player, events), video, audio),
        },
    decreases events.len(),
{
    if events.len() > 0 {
        lemma_phase_streams_started(player, events.drop_last());
        lemma_actions_extend(player, events);
        assert(events.take(events.len() - 1) =~= events.drop_last());
    }
}

/// A packet is handed to a decoder only if it belongs to the stream for which
/// that decoder was asked to be started, earlier in the same playback.
pub proof fn law_only_started_streams_play(player: PlayerView, events: Seq<EventView>, i: int)
    requires
        player.phase == Phase::Opening,
        0 <= i < events.len(),
    ensures
        action_on(player, events, i) is PlayVideo ==> events[i] is Packet && actions(
            player,
            events.take(i),
        ).contains(ActionView::StartVideo { stream: events[i]->stream }),
        action_on(player, events, i) is PlayAudio ==> events[i] is Packet && actions(
            player,
            events.take(i),
        ).contains(ActionView::StartAudio { stream: events[i]->stream }),
{
    lemma_phase_streams_started(player, events.take(i));
}

/// While packets are handed out, each goes to the decoder of its own stream
/// and to no other, and the player keeps handing them out until the input
/// ends. A stream that serves for both plays as audio.
pub proof fn law_packets_reach_their_decoder(
    url: Seq<char>,
    video: usize,
    audio: Option<usize>,
    stream: usize,
)
    ensures
        ({
            let playing = PlayerView { url, phase: Phase::Streaming { video, audio } };
            let (phase, action) = playing.step(EventView::Packet { stream });
            &&& phase == playing.phase
            &&& action is PlayAudio <==> audio == Some(stream)
            &&& action is PlayVideo <==> stream == video && audio != Some(stream)
            &&& action is ReadPacket <==> stream != video && audio != Some(stream)
        }),
{
}

/// While packets are handed out, nothing but the end of the input makes a
/// player change: its streams stay the ones it started.
pub proof fn law_streaming_goes_on(player: PlayerView, events: Seq<EventView>)
    requires
        player.phase is Streaming,
        forall|i: int| 0 <= i < events.len() ==> !((#[trigger] events[i]) is InputEnded),
    ensures
        after_events(player, events) == player,
    decreases events.len(),
{
    if events.len() > 0 {
        law_streaming_goes_on(player, events.drop_last());
    }
}

/// Events and actions mean what they say, and a player is its input and its
/// phase.
pub proof fn law_views_keep_every_part(event: Event, action: Action, player: Player)
    ensures
        player@.url == player.url@,
        player@.phase == player.phase,
        event matches Event::InputFailed { error } ==> event@ == (EventView::InputFailed {
            error: error@,
        }),
        event matches Event::InputOpened { best_video } ==> event@ == (EventView::InputOpened {
            best_video,
        }),
        event matches Event::VideoStarted { best_audio } ==> event@ == (EventView::VideoStarted {
            best_audio,
        }),
        event is AudioStarted <==> event@ is AudioStarted,
        event matches Event::AudioFailed { error } ==> event@ == (EventView::AudioFailed {
            error: error@,
        }),
        event matches Event::Packet { stream } ==> event@ == (EventView::Packet { stream }),
        event is InputEnded <==> event@ is InputEnded,
        action matches Action::StartVideo { stream } ==> action@ == (ActionView::StartVideo {
            stream,
        }),
        action matches Action::StartAudio { stream } ==> action@ == (ActionView::StartAudio {
            stream,
        }),
        action is ReadPacket <==> action@ is ReadPacket,
        action matches Action::WarnAndRead { message } ==> action@ == (ActionView::WarnAndRead {
            message: message@,
        }),
        action is PlayVideo <==> action@ is PlayVideo,
        action is PlayAudio <==> action@ is PlayAudio,
        action matches Action::Report { message } ==> action@ == (ActionView::Report {
            message: message@,
        }),
        action is Stop <==> action@ is Stop,
        action is Ignore <==> action@ is Ignore,
{
}

/// Whatever the input and its streams are: a player that has opened it starts
/// the best video stream, then the best audio stream, and hands out packets
/// with the audio if it started and without it if it did not or there is none.
pub proof fn law_best_streams_are_started(
    url: Seq<char>,
    video: usize,
    audio: usize,
    error: Seq<char>,
)
    ensures
        ({
            let opening = PlayerView { url, phase: Phase::Opening };
            let opened = EventView::InputOpened { best_video: Some(video) };
            let silent = EventView::VideoStarted { best_audio: None };
            let sounding = EventView::VideoStarted { best_audio: Some(audio) };
            let with_audio = seq![opened, sounding, EventView::AudioStarted];
            let failed_audio = seq![opened, sounding, EventView::AudioFailed { error }];
            let no_audio = seq![opened, silent];
            &&& action_on(opening, with_audio, 0) == (ActionView::StartVideo { stream: video })
            &&& action_on(opening, with_audio, 1) == (ActionView::StartAudio { stream: audio })
            &&& action_on(opening, with_audio, 2) is ReadPacket
            &&& after_events(opening, with_audio) == (PlayerView {
                url,
                phase: Phase::Streaming { video, audio: Some(audio) },
            })
            &&& action_on(opening, failed_audio, 2) == (ActionView::WarnAndRead {
                message: "failed to start audio playback: "@ + error,
            })
            &&& after_events(opening, failed_audio) == (PlayerView {
                url,
                phase: Phase::Streaming { video, audio: None },
            })
            &&& action_on(opening, no_audio, 1) is ReadPacket
            &&& after_events(opening, no_audio) == (PlayerView {
                url,
                phase: Phase::Streaming { video, audio: None },
            })
        }),
{
    let opening = PlayerView { url, phase: Phase::Opening };
    let opened = EventView::InputOpened { best_video: Some(video) };
    let silent = EventView::VideoStarted { best_audio: None };
    let sounding = EventView::VideoStarted { best_audio: Some(audio) };
    let failed = EventView::AudioFailed { error };
    let none = Seq::<EventView>::empty();
    law_runs_are_made_of_events(opening, none, opened);
    law_runs_are_made_of_events(opening, none.push(opened), silent);
    law_runs_are_made_of_events(opening, none.push(opened), sounding);
    let both = none.push(opened).push(sounding);
    law_runs_are_made_of_events(opening, both, EventView::AudioStarted);
    law_runs_are_made_of_events(opening, both, failed);
    let with_audio = seq![opened, sounding, EventView::AudioStarted];
    let failed_audio = seq![opened, sounding, failed];
    let no_audio = seq![opened, silent];
    assert(with_audio =~= both.push(EventView::AudioStarted));
    assert(failed_audio =~= both.push(failed));
    assert(no_audio =~= none.push(opened).push(silent));
    assert(with_audio.take(0) =~= none);
    assert(with_audio.take(1) =~= none.push(opened));
    assert(with_audio.take(2) =~= both);
    assert(failed_audio.take(2) =~= both);
    assert(no_audio.take(1) =~= none.push(opened));
}

/// A run is its events one after the other, and none of them changes the input
/// that a player is for.
pub proof fn law_runs_are_made_of_events(
    player: PlayerView,
    events: Seq<EventView>,
    event: EventView,
)
    ensures
        after_events(player, Seq::empty()) == player,
        after_events(player, events.push(event)).url == after_events(player, events).url,
        after_events(player, events.push(event)).phase == after_events(player, events).step(
            event,
        ).0,
        action_on(player, events.push(event), events.len() as int) == after_events(
            player,
            events,
        ).step(event).1,
{
    assert(events.push(event).drop_last() =~= events);
    assert(events.push(event).take(events.len() as int) =~= events);
}

/// A player stops exactly on an input that cannot be opened, on one without
/// video and at the end of the input, each in its turn, and nothing starts a
/// stopped player again. The first two are reported with their reason, and
/// nothing else is.
pub proof fn law_what_stops_a_player(player: PlayerView, event: EventView)
    ensures
        player.step(event).0 is Stopped <==> player.phase is Stopped || player.phase is Opening && (
        event is InputFailed || event == (EventView::InputOpened { best_video: None }))
            || player.phase is Streaming && event is InputEnded,
        player.step(event).1 is Stop <==> player.phase is Streaming && event is InputEnded,
        player.step(event).1 is Report <==> player.phase is Opening && (event is InputFailed || event
            == (EventView::InputOpened { best_video: None })),
        player.phase is Opening && event is InputFailed ==> player.step(event).1 == (
        ActionView::Report {
            message: "failed to open input "@ + player.url + ": "@ + event->InputFailed_error,
        }),
        player.phase is Opening && event == (EventView::InputOpened { best_video: None })
            ==> player.step(event).1 == (ActionView::Report {
            message: "input "@ + player.url + " has no video stream"@,
        }),
{
}

/// A player acts only on what it waits for: on the input being opened or not,
/// then on the video being started, then on the audio being started or not,
/// then on packets and the end of the input. Every other event changes nothing
/// and is ignored, and none of these is.
pub proof fn law_events_out_of_turn_are_ignored(player: PlayerView, event: EventView)
    ensures
        player.step(event).1 is Ignore <==> !(match player.phase {
            Phase::Opening => event is InputFailed || event is InputOpened,
            Phase::StartingVideo { .. } => event is VideoStarted,
            Phase::StartingAudio { .. } => event is AudioStarted || event is AudioFailed,
            Phase::Streaming { .. } => event is Packet || event is InputEnded,
            Phase::Stopped => false,
        }),
        player.step(event).1 is Ignore ==> player.step(event).0 == player.phase,
{
}

/// Streams are started and warnings given in one place each: the video decoder
/// on the best video stream of an opened input, the audio decoder on the best
/// audio stream of a playing video, the warning on audio that failed.
pub proof fn law_where_actions_come_from(player: PlayerView, event: EventView)
    ensures
        match player.step(event).1 {
            ActionView::StartVideo { stream } => {
                &&& player.phase is Opening
                &&& event == (EventView::InputOpened { best_video: Some(stream) })
                &&& player.step(event).0 == (Phase::StartingVideo { video: stream })
            },
            ActionView::StartAudio { stream } => {
                &&& player.phase matches Phase::StartingVideo { video }
                &&& event == (EventView::VideoStarted { best_audio: Some(stream) })
                &&& player.step(event).0 == (Phase::StartingAudio { video, candidate: stream })
            },
            ActionView::WarnAndRead { message } => {
                &&& player.phase is StartingAudio
                &&& event matches EventView::AudioFailed { error }
                &&& message == "failed to start audio playback: "@ + error
            },
            _ => true,
        },
{
}

proof fn lemma_events_join(player: PlayerView, first: Seq<EventView>, second: Seq<EventView>)
    ensures
        after_events(player, first + second) == after_events(after_events(player, first), second),
    decreases second.len(),
{
    if second.len() == 0 {
        assert(first + second =~= first);
    } else {
        lemma_events_join(player, first, second.drop_last());
        assert((first + second).drop_last() =~= first + second.drop_last());
        assert((first + second).last() == second.last());
    }
}

/// A whole playback: once the streams of an input are started, every packet
/// is handed to the decoder of its stream, however many came before it and
/// whatever the streams are. With the end of the input the player stops.
pub proof fn law_playback_hands_out_every_packet(
    url: Seq<char>,
    video: usize,
    audio: usize,
    packets: Seq<usize>,
    i: int,
)
    requires
        0 <= i < packets.len(),
    ensures
        ({
            let opening = PlayerView { url, phase: Phase::Opening };
            let start = seq![
                EventView::InputOpened { best_video: Some(video) },
                EventView::VideoStarted { best_audio: Some(audio) },
                EventView::AudioStarted,
            ];
            let events = start + packets.map_values(
                |stream: usize| EventView::Packet { stream },
            ).push(EventView::InputEnded);
            &&& action_on(opening, events, 3 + i) is PlayAudio <==> packets[i] == audio
            &&& action_on(opening, events, 3 + i) is PlayVideo <==> packets[i] == video
                && packets[i] != audio
            &&& action_on(opening, events, 3 + i) is ReadPacket <==> packets[i] != video
                && packets[i] != audio
            &&& action_on(opening, events, (3 + packets.len()) as int) is Stop
            &&& after_events(opening, events).phase is Stopped
        }),
{
    let opening = PlayerView { url, phase: Phase::Opening };
    let start = seq![
        EventView::InputOpened { best_video: Some(video) },
        EventView::VideoStarted { best_audio: Some(audio) },
        EventView::AudioStarted,
    ];
    let handed = packets.map_values(|stream: usize| EventView::Packet { stream });
    let events = start + handed.push(EventView::InputEnded);
    let playing = after_events(opening, start);
    law_best_streams_are_started(url, video, audio, Seq::empty());
    law_streaming_goes_on(playing, handed.take(i));
    law_streaming_goes_on(playing, handed);
    lemma_events_join(opening, start, handed.take(i));
    lemma_events_join(opening, start, handed);
    assert(events.take(3 + i) =~= start + handed.take(i));
    assert(events.take((3 + packets.len()) as int) =~= start + handed);
    assert(events.drop_last() =~= start + handed);
    assert(events[3 + i] == handed[i]);
    law_packets_reach_their_decoder(url, video, Some(audio), packets[i]);
}

/// Every report names the input that it is about.
pub proof fn law_reports_name_the_input(player: PlayerView, event: EventView)
    ensures
        player.step(event).1 matches ActionView::Report { message } ==> has_part(
            message,
            player.url,
        ),
{
    let url = player.url;
    if let ActionView::Report { message } = player.step(event).1 {
        let at = match event {
            EventView::InputFailed { error: _ } => "failed to open input "@.len() as int,
            _ => "input "@.len() as int,
        };
        assert(message.subrange(at, at + url.len()) =~= url);
    }
}

} // verus!
