//! Conversations with the audio engine: what is asked of it, in which order,
//! and which replies are waited for.
use vstd::prelude::*;
use vstd::string::*;

use crate::app::LoadedSong;
use crate::path::{shown_path, SongPath};
use crate::settings::Level;
use crate::text::same_text;

verus! {

/// The sample rate that the engine runs at.
pub const SAMPLE_RATE_HZ: i32 = 48_000;

/// How long a reply is waited for.
pub const REPLY_NANOS: u64 = 5_000_000_000;

/// The length of the fades at both ends of a song.
pub const FADE_SAMPLES: usize = 240;

// Requests.

/// The audio device to open.
#[derive(Debug)]
pub struct DeviceRequest {
    pub device: String,
    pub sample_rate_hz: i32,
    pub bits: i32,
    pub exclusive: bool,
    pub period_frames: usize,
    pub n_periods: usize,
    pub sync_mode: bool,
    pub ring_buffer_multiplier: usize,
    pub auto_open_midi_devices: bool,
}

#[verifier::ext_equal]
pub struct DeviceRequestModel {
    pub device: Seq<char>,
    pub sample_rate_hz: i32,
    pub bits: i32,
    pub exclusive: bool,
    pub period_frames: usize,
    pub n_periods: usize,
    pub sync_mode: bool,
    pub ring_buffer_multiplier: usize,
    pub auto_open_midi_devices: bool,
}

impl View for DeviceRequest {
    type V = DeviceRequestModel;

    open spec fn view(&self) -> DeviceRequestModel {
        DeviceRequestModel {
            device: self.device@,
            sample_rate_hz: self.sample_rate_hz,
            bits: self.bits,
            exclusive: self.exclusive,
            period_frames: self.period_frames,
            n_periods: self.n_periods,
            sync_mode: self.sync_mode,
            ring_buffer_multiplier: self.ring_buffer_multiplier,
            auto_open_midi_devices: self.auto_open_midi_devices,
        }
    }
}

/// The track to play on.
#[derive(Debug)]
pub struct TrackRequest {
    pub name: String,
    pub audio_ins: usize,
    pub midi_ins: usize,
    pub audio_outs: usize,
    pub midi_outs: usize,
    pub folder: bool,
}

#[verifier::ext_equal]
pub struct TrackRequestModel {
    pub name: Seq<char>,
    pub audio_ins: usize,
    pub midi_ins: usize,
    pub audio_outs: usize,
    pub midi_outs: usize,
    pub folder: bool,
}

impl View for TrackRequest {
    type V = TrackRequestModel;

    open spec fn view(&self) -> TrackRequestModel {
        TrackRequestModel {
            name: self.name@,
            audio_ins: self.audio_ins,
            midi_ins: self.midi_ins,
            audio_outs: self.audio_outs,
            midi_outs: self.midi_outs,
            folder: self.folder,
        }
    }
}

/// The song to play, as a clip of a track.
#[derive(Debug)]
pub struct ClipRequest {
    pub name: String,
    pub track: String,
    pub start: usize,
    pub length: usize,
    pub offset: usize,
    pub input_channel: usize,
    pub muted: bool,
    pub reversed: bool,
    pub gain: Level,
    pub fade_enabled: bool,
    pub fade_in_samples: usize,
    pub fade_out_samples: usize,
}

#[verifier::ext_equal]
pub struct ClipRequestModel {
    pub name: Seq<char>,
    pub track: Seq<char>,
    pub start: usize,
    pub length: usize,
    pub offset: usize,
    pub input_channel: usize,
    pub muted: bool,
    pub reversed: bool,
    pub gain: Level,
    pub fade_enabled: bool,
    pub fade_in_samples: usize,
    pub fade_out_samples: usize,
}

impl View for ClipRequest {
    type V = ClipRequestModel;

    open spec fn view(&self) -> ClipRequestModel {
        ClipRequestModel {
            name: self.name@,
            track: self.track@,
            start: self.start,
            length: self.length,
            offset: self.offset,
            input_channel: self.input_channel,
            muted: self.muted,
            reversed: self.reversed,
            gain: self.gain,
            fade_enabled: self.fade_enabled,
            fade_in_samples: self.fade_in_samples,
            fade_out_samples: self.fade_out_samples,
        }
    }
}

/// What is asked of the engine. Clips and connections are those of audio.
#[derive(Debug)]
pub enum EngineRequest {
    Stop,
    Play,
    TransportPosition(usize),
    SetClipPlaybackEnabled(bool),
    TrackLevel(String, Level),
    OpenAudioDevice(DeviceRequest),
    AddTrack(TrackRequest),
    RemoveClip { track: String, indices: Vec<usize> },
    AddClip(ClipRequest),
    Connect { from_track: String, from_port: usize, to_track: String, to_port: usize },
}

#[verifier::ext_equal]
pub enum RequestModel {
    Stop,
    Play,
    TransportPosition(usize),
    SetClipPlaybackEnabled(bool),
    TrackLevel(Seq<char>, Level),
    OpenAudioDevice(DeviceRequestModel),
    AddTrack(TrackRequestModel),
    RemoveClip { track: Seq<char>, indices: Seq<usize> },
    AddClip(ClipRequestModel),
    Connect { from_track: Seq<char>, from_port: usize, to_track: Seq<char>, to_port: usize },
}

impl View for EngineRequest {
    type V = RequestModel;

    open spec fn view(&self) -> RequestModel {
        match *self {
            EngineRequest::Stop => RequestModel::Stop,
            EngineRequest::Play => RequestModel::Play,
            EngineRequest::TransportPosition(frames) => RequestModel::TransportPosition(frames),
            EngineRequest::SetClipPlaybackEnabled(on) => RequestModel::SetClipPlaybackEnabled(on),
            EngineRequest::TrackLevel(track, level) => RequestModel::TrackLevel(track@, level),
            EngineRequest::OpenAudioDevice(device) => RequestModel::OpenAudioDevice(device@),
            EngineRequest::AddTrack(track) => RequestModel::AddTrack(track@),
            EngineRequest::RemoveClip { track, indices } => RequestModel::RemoveClip {
                track: track@,
                indices: indices@,
            },
            EngineRequest::AddClip(clip) => RequestModel::AddClip(clip@),
            EngineRequest::Connect { from_track, from_port, to_track, to_port } =>
                RequestModel::Connect {
                from_track: from_track@,
                from_port,
                to_track: to_track@,
                to_port,
            },
        }
    }
}

// Replies.

/// What the engine reports to have done.
#[derive(Debug)]
pub enum EngineReply {
    DeviceOpened,
    TrackAdded(String),
    ClipPlaybackEnabled(bool),
    ClipAdded(String),
    Connected { from_track: String, from_port: usize, audio: bool },
    Playing,
    Other,
}

/// The reply that is waited for. Tracks are the player's.
#[derive(Debug, Clone, Copy, PartialEq, Eq, Structural)]
pub enum Awaited {
    DeviceOpened,
    TrackAdded,
    ClipPlaybackEnabled,
    ClipAdded,
    Connected(usize),
    Playing,
}

impl Awaited {
    /// Whether a reply is the one waited for.
    pub open spec fn is_met_by(self, reply: EngineReply) -> bool {
        match (self, reply) {
            (Awaited::DeviceOpened, EngineReply::DeviceOpened) => true,
            (Awaited::TrackAdded, EngineReply::TrackAdded(name)) => name@ == "player"@,
            (Awaited::ClipPlaybackEnabled, EngineReply::ClipPlaybackEnabled(on)) => on,
            (Awaited::ClipAdded, EngineReply::ClipAdded(track)) => track@ == "player"@,
            (
                Awaited::Connected(port),
                EngineReply::Connected { from_track, from_port, audio },
            ) => from_track@ == "player"@ && from_port == port && audio,
            (Awaited::Playing, EngineReply::Playing) => true,
            _ => false,
        }
    }

    pub fn accepts(self, reply: &EngineReply) -> (r: bool)
        ensures
            r == self.is_met_by(*reply),
    {
        match (self, reply) {
            (Awaited::DeviceOpened, EngineReply::DeviceOpened) => true,
            (Awaited::TrackAdded, EngineReply::TrackAdded(name)) => same_text(
                name.as_str(),
                "player",
            ),
            (Awaited::ClipPlaybackEnabled, EngineReply::ClipPlaybackEnabled(on)) => *on,
            (Awaited::ClipAdded, EngineReply::ClipAdded(track)) => same_text(
                track.as_str(),
                "player",
            ),
            (
                Awaited::Connected(port),
                EngineReply::Connected { from_track, from_port, audio },
            ) => same_text(from_track.as_str(), "player") && *from_port == port && *audio,
            (Awaited::Playing, EngineReply::Playing) => true,
            _ => false,
        }
    }
}

// Conversations.

/// One step of a conversation.
#[derive(Debug)]
pub enum Step {
    Send(EngineRequest),
    /// Sent too, but it may fail.
    Try(EngineRequest),
    Await(Awaited),
}

#[verifier::ext_equal]
pub enum StepModel {
    Send(RequestModel),
    Try(RequestModel),
    Await(Awaited),
}

impl View for Step {
    type V = StepModel;

    open spec fn view(&self) -> StepModel {
        match *self {
            Step::Send(request) => StepModel::Send(request@),
            Step::Try(request) => StepModel::Try(request@),
            Step::Await(reply) => StepModel::Await(reply),
        }
    }
}

pub open spec fn steps_view(steps: Seq<Step>) -> Seq<StepModel> {
    steps.map_values(|s: Step| s@)
}

/// What happens to a conversation.
#[derive(Debug)]
pub enum EngineEvent {
    /// A request went out, or did not.
    Sent(Result<(), String>),
    /// The reply did not come in time.
    TimedOut,
    /// No more replies will come.
    Closed,
    /// The engine answered.
    Replied(Result<EngineReply, String>),
    /// The engine reported something else.
    Other,
}

/// What an event means to a step.
pub enum Verdict {
    /// The step is done.
    Done,
    /// The step goes on.
    Stays,
    /// The conversation fails.
    Fails(Seq<char>),
}

pub open spec fn verdict(step: StepModel, event: EngineEvent) -> Verdict {
    match step {
        StepModel::Send(_) => match event {
            EngineEvent::Sent(Ok(_)) => Verdict::Done,
            EngineEvent::Sent(Err(text)) => Verdict::Fails(text@),
            _ => Verdict::Stays,
        },
        StepModel::Try(_) => match event {
            EngineEvent::Sent(_) => Verdict::Done,
            _ => Verdict::Stays,
        },
        StepModel::Await(awaited) => match event {
            EngineEvent::Replied(Ok(reply)) => if awaited.is_met_by(reply) {
                Verdict::Done
            } else {
                Verdict::Stays
            },
            EngineEvent::Replied(Err(text)) => Verdict::Fails(text@),
            EngineEvent::TimedOut => Verdict::Fails("Timed out waiting for audio engine."@),
            EngineEvent::Closed => Verdict::Fails("Audio engine response channel closed."@),
            _ => Verdict::Stays,
        },
    }
}

/// How far a conversation is.
#[derive(Debug)]
pub enum Progress {
    Pending,
    Finished(Result<(), String>),
}

/// A conversation and the step it is at.
#[derive(Debug)]
pub struct Conversation {
    pub steps: Vec<Step>,
    pub at: usize,
}

impl Conversation {
    pub fn new(steps: Vec<Step>) -> (r: Conversation)
        ensures
            r.steps == steps,
            r.at == 0,
    {
        Conversation { steps, at: 0 }
    }

    /// Takes note of an event at the step that the conversation is at.
    pub fn advance(&mut self, event: EngineEvent) -> (r: Progress)
        requires
            old(self).at < old(self).steps@.len(),
        ensures
            final(self).steps == old(self).steps,
            match verdict(old(self).steps@[old(self).at as int]@, event) {
                Verdict::Done => final(self).at == old(self).at + 1 && if final(self).at
                    < final(self).steps@.len() {
                    r is Pending
                } else {
                    r matches Progress::Finished(Ok(_))
                },
                Verdict::Stays => final(self).at == old(self).at && r is Pending,
                Verdict::Fails(text) => final(self).at == old(self).at && (r matches
                    Progress::Finished(Err(shown)) && shown@ == text),
            },
    {
        let at: usize = self.at;
        let count: usize = self.steps.len();
        let done: bool = match &self.steps[at] {
            Step::Send(_) => match event {
                EngineEvent::Sent(Ok(_)) => true,
                EngineEvent::Sent(Err(text)) => {
                    return Progress::Finished(Err(text));
                },
                _ => false,
            },
            Step::Try(_) => match event {
                EngineEvent::Sent(_) => true,
                _ => false,
            },
            Step::Await(awaited) => match event {
                EngineEvent::Replied(Ok(reply)) => awaited.accepts(&reply),
                EngineEvent::Replied(Err(text)) => {
                    return Progress::Finished(Err(text));
                },
                EngineEvent::TimedOut => {
                    return Progress::Finished(
                        Err("Timed out waiting for audio engine.".to_owned()),
                    );
                },
                EngineEvent::Closed => {
                    return Progress::Finished(
                        Err("Audio engine response channel closed.".to_owned()),
                    );
                },
                _ => false,
            },
        };
        if done {
            self.at = at + 1;
            if self.at < count {
                Progress::Pending
            } else {
                Progress::Finished(Ok(()))
            }
        } else {
            Progress::Pending
        }
    }
}

/// How much longer a reply is waited for; none if the time is up.
pub fn reply_time_left(started_nanos: u64, now_nanos: u64) -> (r: u64)
    requires
        started_nanos <= now_nanos,
    ensures
        r == if now_nanos - started_nanos >= REPLY_NANOS {
            0
        } else {
            REPLY_NANOS - (now_nanos - started_nanos)
        },
{
    let waited: u64 = now_nanos - started_nanos;
    if waited >= REPLY_NANOS {
        0
    } else {
        REPLY_NANOS - waited
    }
}

/// The steps that open the audio device and prepare the player's track.
pub open spec fn opening(
    device: Seq<char>,
    period_frames: usize,
    n_periods: usize,
    ring_buffer_multiplier: usize,
) -> Seq<StepModel> {
    seq![
        StepModel::Send(RequestModel::Stop),
        StepModel::Send(
            RequestModel::OpenAudioDevice(
                DeviceRequestModel {
                    device,
                    sample_rate_hz: SAMPLE_RATE_HZ,
                    bits: 32,
                    exclusive: true,
                    period_frames,
                    n_periods,
                    sync_mode: false,
                    ring_buffer_multiplier,
                    auto_open_midi_devices: false,
                },
            ),
        ),
        StepModel::Await(Awaited::DeviceOpened),
        StepModel::Send(
            RequestModel::AddTrack(
                TrackRequestModel {
                    name: "player"@,
                    audio_ins: 2,
                    midi_ins: 0,
                    audio_outs: 2,
                    midi_outs: 0,
                    folder: false,
                },
            ),
        ),
        StepModel::Await(Awaited::TrackAdded),
        StepModel::Send(RequestModel::SetClipPlaybackEnabled(true)),
        StepModel::Await(Awaited::ClipPlaybackEnabled),
    ]
}

/// The steps that open the audio device and prepare the player's track. The
/// track has inputs since the audio of clips is mixed into them.
pub fn open_engine(
    device: String,
    period_frames: usize,
    n_periods: usize,
    ring_buffer_multiplier: usize,
) -> (r: Conversation)
    ensures
        steps_view(r.steps@) == opening(device@, period_frames, n_periods, ring_buffer_multiplier),
        r.at == 0,
{
    let mut steps: Vec<Step> = Vec::new();
    steps.push(Step::Send(EngineRequest::Stop));
    steps.push(
        Step::Send(
            EngineRequest::OpenAudioDevice(
                DeviceRequest {
                    device,
                    sample_rate_hz: SAMPLE_RATE_HZ,
                    bits: 32,
                    exclusive: true,
                    period_frames,
                    n_periods,
                    sync_mode: false,
                    ring_buffer_multiplier,
                    auto_open_midi_devices: false,
                },
            ),
        ),
    );
    steps.push(Step::Await(Awaited::DeviceOpened));
    steps.push(
        Step::Send(
            EngineRequest::AddTrack(
                TrackRequest {
                    name: "player".to_owned(),
                    audio_ins: 2,
                    midi_ins: 0,
                    audio_outs: 2,
                    midi_outs: 0,
                    folder: false,
                },
            ),
        ),
    );
    steps.push(Step::Await(Awaited::TrackAdded));
    steps.push(Step::Send(EngineRequest::SetClipPlaybackEnabled(true)));
    steps.push(Step::Await(Awaited::ClipPlaybackEnabled));
    assert(steps_view(steps@) =~= opening(
        device@,
        period_frames,
        n_periods,
        ring_buffer_multiplier,
    ));
    Conversation::new(steps)
}

/// The steps that put a song of the given length on the track.
pub open spec fn loading(path: Seq<u8>, length: usize) -> Seq<StepModel> {
    seq![
        StepModel::Send(RequestModel::Stop),
        StepModel::Try(RequestModel::RemoveClip { track: "player"@, indices: seq![0usize] }),
        StepModel::Send(
            RequestModel::AddClip(
                ClipRequestModel {
                    name: shown_path(path),
                    track: "player"@,
                    start: 0,
                    length,
                    offset: 0,
                    input_channel: 0,
                    muted: false,
                    reversed: false,
                    gain: Level::unity_level(),
                    fade_enabled: true,
                    fade_in_samples: FADE_SAMPLES,
                    fade_out_samples: FADE_SAMPLES,
                },
            ),
        ),
        StepModel::Await(Awaited::ClipAdded),
    ]
}

/// The steps that connect the first `channels` channels with the output.
pub open spec fn connecting(channels: nat) -> Seq<StepModel>
    decreases channels,
{
    if channels == 0 {
        Seq::empty()
    } else {
        let port = (channels - 1) as usize;
        connecting((channels - 1) as nat) + seq![
            StepModel::Send(
                RequestModel::Connect {
                    from_track: "player"@,
                    from_port: port,
                    to_track: "hw:out"@,
                    to_port: port,
                },
            ),
            StepModel::Await(Awaited::Connected(port)),
        ]
    }
}

/// The steps that start the song from its beginning.
pub open spec fn starting() -> Seq<StepModel> {
    seq![
        StepModel::Send(RequestModel::TransportPosition(0)),
        StepModel::Send(RequestModel::Play),
        StepModel::Await(Awaited::Playing),
    ]
}

/// The channels of a song that are played.
pub open spec fn played_channels(channels: usize) -> nat {
    if channels < 2 {
        channels as nat
    } else {
        2
    }
}

/// The steps that play a song.
pub open spec fn playing(path: Seq<u8>, length: usize, channels: usize) -> Seq<StepModel> {
    loading(path, length) + connecting(played_channels(channels)) + starting()
}

/// The steps that play a song of the given length and number of channels.
pub fn play_song(path: &SongPath, length_frames: usize, channels: usize) -> (r: Conversation)
    ensures
        steps_view(r.steps@) == playing(path@, length_frames, channels),
        r.at == 0,
{
    let mut steps: Vec<Step> = Vec::new();
    steps.push(Step::Send(EngineRequest::Stop));
    let mut indices: Vec<usize> = Vec::new();
    indices.push(0);
    steps.push(Step::Try(EngineRequest::RemoveClip { track: "player".to_owned(), indices }));
    steps.push(
        Step::Send(
            EngineRequest::AddClip(
                ClipRequest {
                    name: path.display(),
                    track: "player".to_owned(),
                    start: 0,
                    length: length_frames,
                    offset: 0,
                    input_channel: 0,
                    muted: false,
                    reversed: false,
                    gain: Level::unity(),
                    fade_enabled: true,
                    fade_in_samples: FADE_SAMPLES,
                    fade_out_samples: FADE_SAMPLES,
                },
            ),
        ),
    );
    steps.push(Step::Await(Awaited::ClipAdded));
    assert(indices@ =~= seq![0usize]);
    assert(steps_view(steps@) =~= loading(path@, length_frames));
    let count: usize = if channels < 2 {
        channels
    } else {
        2
    };
    let mut port: usize = 0;
    assert(steps_view(steps@) =~= loading(path@, length_frames) + connecting(0));
    while port < count
        invariant
            port <= count,
            steps_view(steps@) == loading(path@, length_frames) + connecting(port as nat),
        decreases count - port,
    {
        let ghost before = steps_view(steps@);
        let connect = Step::Send(
            EngineRequest::Connect {
                from_track: "player".to_owned(),
                from_port: port,
                to_track: "hw:out".to_owned(),
                to_port: port,
            },
        );
        steps.push(connect);
        let wait = Step::Await(Awaited::Connected(port));
        steps.push(wait);
        assert(steps_view(steps@) =~= before + seq![connect@, wait@]);
        port = port + 1;
        assert(steps_view(steps@) =~= loading(path@, length_frames) + connecting(port as nat));
    }
    let ghost before = steps_view(steps@);
    steps.push(Step::Send(EngineRequest::TransportPosition(0)));
    steps.push(Step::Send(EngineRequest::Play));
    steps.push(Step::Await(Awaited::Playing));
    assert(steps_view(steps@) =~= before + starting());
    Conversation::new(steps)
}

/// The steps that go on with a song from a position.
pub open spec fn resuming(frames: usize) -> Seq<StepModel> {
    seq![
        StepModel::Send(RequestModel::TransportPosition(frames)),
        StepModel::Send(RequestModel::SetClipPlaybackEnabled(true)),
        StepModel::Send(RequestModel::Play),
    ]
}

/// The steps that go on with a song from a position.
pub fn resume_song(frames: usize) -> (r: Conversation)
    ensures
        steps_view(r.steps@) == resuming(frames),
        r.at == 0,
{
    let mut steps: Vec<Step> = Vec::new();
    steps.push(Step::Send(EngineRequest::TransportPosition(frames)));
    steps.push(Step::Send(EngineRequest::SetClipPlaybackEnabled(true)));
    steps.push(Step::Send(EngineRequest::Play));
    assert(steps_view(steps@) =~= resuming(frames));
    Conversation::new(steps)
}

// Lengths.

/// What a probe of a file tells.
#[derive(Debug, Clone, Copy)]
pub struct ProbedAudio {
    pub sample_rate: u32,
    pub channels: usize,
    /// The frames at that rate, if they are known.
    pub frames: Option<u64>,
}

/// At least one.
pub open spec fn one_or_more(n: nat) -> nat {
    if n == 0 {
        1
    } else {
        n
    }
}

/// Frames at the rate of the engine; 0 where the length is not known.
pub open spec fn frames_at_engine_rate(info: ProbedAudio) -> nat {
    match info.frames {
        Some(frames) => (frames * SAMPLE_RATE_HZ) as nat / one_or_more(info.sample_rate as nat),
        None => 0,
    }
}

/// Length in frames of the engine and number of channels of a file that
/// could be probed.
pub fn probed_length(info: ProbedAudio) -> (r: (usize, usize))
    requires
        info.frames matches Some(frames) ==> frames * SAMPLE_RATE_HZ <= u64::MAX,
    ensures
        r.0 == (frames_at_engine_rate(info) as u64) as usize,
        r.1 == one_or_more(info.channels as nat),
{
    let length: u64 = match info.frames {
        Some(frames) => {
            let rate: u64 = if info.sample_rate == 0 {
                1
            } else {
                info.sample_rate as u64
            };
            let scaled: u64 = frames * (SAMPLE_RATE_HZ as u64);
            proof {
                vstd::arithmetic::div_mod::lemma_div_is_ordered_by_denominator(
                    scaled as int,
                    1,
                    rate as int,
                );
            }
            scaled / rate
        },
        None => 0,
    };
    let channels: usize = if info.channels == 0 {
        1
    } else {
        info.channels
    };
    (
        #[verifier::truncate]
        (length as usize),
        channels,
    )
}

/// Length in frames and number of channels of a file that was decoded.
pub fn decoded_length(samples: usize, channels: usize) -> (r: (usize, usize))
    ensures
        r.0 == samples as nat / one_or_more(channels as nat),
        r.1 == one_or_more(channels as nat),
{
    let channels: usize = if channels == 0 {
        1
    } else {
        channels
    };
    (samples / channels, channels)
}

/// The message for a file that could not be decoded.
pub fn decode_failure(path: &SongPath, error: &str) -> (r: String)
    ensures
        r@ == "Failed to decode '"@ + shown_path(path@) + "': "@ + error@,
{
    let mut text = "Failed to decode '".to_owned();
    let shown = path.display();
    text.append(shown.as_str());
    text.append("': ");
    text.append(error);
    text
}

/// What is known of a song before it is played. A file is decoded as a whole
/// only where it cannot be probed.
#[derive(Debug)]
pub enum SongSource {
    Probed(ProbedAudio),
    Decoded { samples: usize, channels: usize },
    /// It cannot be decoded either, for this reason.
    Failed(String),
}

/// Length in frames of the engine and number of channels.
pub open spec fn song_shape(source: SongSource) -> Option<(usize, usize)> {
    match source {
        SongSource::Probed(info) => Some(
            (
                (frames_at_engine_rate(info) as u64) as usize,
                one_or_more(info.channels as nat) as usize,
            ),
        ),
        SongSource::Decoded { samples, channels } => Some(
            (
                (samples as nat / one_or_more(channels as nat)) as usize,
                one_or_more(channels as nat) as usize,
            ),
        ),
        SongSource::Failed(_) => None,
    }
}

/// The steps that play a song, and the song that is loaded once they are
/// done; the reason where it cannot be played.
pub fn prepare_song(path: &SongPath, source: SongSource) -> (r: Result<
    (Conversation, LoadedSong),
    String,
>)
    requires
        source matches SongSource::Probed(info) ==> info.frames matches Some(frames) ==> frames
            * SAMPLE_RATE_HZ <= u64::MAX,
    ensures
        match r {
            Ok((talk, song)) => song_shape(source) matches Some((length, channels))
                && song.length_frames == length && talk.at == 0 && steps_view(talk.steps@)
                == playing(path@, length, channels),
            Err(text) => source matches SongSource::Failed(error) && text@
                == "Failed to decode '"@ + shown_path(path@) + "': "@ + error@,
        },
{
    let (length_frames, channels) = match source {
        SongSource::Probed(info) => probed_length(info),
        SongSource::Decoded { samples, channels } => decoded_length(samples, channels),
        SongSource::Failed(error) => {
            return Err(decode_failure(path, error.as_str()));
        },
    };
    Ok((play_song(path, length_frames, channels), LoadedSong { length_frames }))
}

// Laws.

/// What comes of a conversation after some events, from a step on.
pub open spec fn outcome(steps: Seq<StepModel>, at: int, events: Seq<EngineEvent>) -> Option<
    Result<(), Seq<char>>,
>
    decreases events.len(),
{
    if at >= steps.len() {
        Some(Ok(()))
    } else if events.len() == 0 {
        None
    } else {
        match verdict(steps[at], events[0]) {
            Verdict::Done => outcome(steps, at + 1, events.skip(1)),
            Verdict::Stays => outcome(steps, at, events.skip(1)),
            Verdict::Fails(text) => Some(Err(text)),
        }
    }
}

/// A conversation succeeds where every step is done in its turn, whatever
/// else is reported after that.
pub proof fn law_steps_in_turn_succeed(
    steps: Seq<StepModel>,
    at: int,
    events: Seq<EngineEvent>,
)
    requires
        0 <= at <= steps.len(),
        events.len() >= steps.len() - at,
        forall|i: int|
            at <= i < steps.len() ==> verdict(#[trigger] steps[i], events[i - at]) is Done,
    ensures
        outcome(steps, at, events) == Some(Ok::<(), Seq<char>>(())),
    decreases steps.len() - at,
{
    if at < steps.len() {
        assert(verdict(steps[at], events[0]) is Done);
        let rest = events.skip(1);
        assert forall|i: int| at + 1 <= i < steps.len() implies verdict(
            #[trigger] steps[i],
            rest[i - (at + 1)],
        ) is Done by {
            assert(rest[i - (at + 1)] == events[i - at]);
        }
        law_steps_in_turn_succeed(steps, at + 1, rest);
    }
}

/// A conversation does not succeed with fewer events than steps are left.
pub proof fn law_success_takes_every_step(
    steps: Seq<StepModel>,
    at: int,
    events: Seq<EngineEvent>,
)
    requires
        0 <= at <= steps.len(),
        events.len() < steps.len() - at,
    ensures
        outcome(steps, at, events) != Some(Ok::<(), Seq<char>>(())),
    decreases events.len(),
{
    if events.len() > 0 {
        match verdict(steps[at], events[0]) {
            Verdict::Done => law_success_takes_every_step(steps, at + 1, events.skip(1)),
            Verdict::Stays => law_success_takes_every_step(steps, at, events.skip(1)),
            Verdict::Fails(_) => {},
        }
    }
}

/// Reports that concern no step change nothing of what comes of it.
pub proof fn law_other_reports_are_ignored(
    steps: Seq<StepModel>,
    at: int,
    events: Seq<EngineEvent>,
)
    ensures
        outcome(steps, at, seq![EngineEvent::Other] + events) == outcome(steps, at, events),
{
    let more = seq![EngineEvent::Other] + events;
    assert(more.skip(1) =~= events);
}

} // verus!
