use maolan_player::engine::{
    decode_failure, decoded_length, open_engine, play_song, prepare_song, probed_length,
    reply_time_left, resume_song, Awaited, Conversation, EngineEvent, EngineReply, EngineRequest,
    ProbedAudio, Progress, SongSource, Step,
};
use maolan_player::path::SongPath;

/// The requests of a conversation in short.
fn shorthand(conversation: &Conversation) -> Vec<String> {
    let request = |request: &EngineRequest| match request {
        EngineRequest::Stop => String::from("stop"),
        EngineRequest::Play => String::from("play"),
        EngineRequest::TransportPosition(frames) => format!("seek {frames}"),
        EngineRequest::SetClipPlaybackEnabled(on) => format!("clips {on}"),
        EngineRequest::TrackLevel(track, _) => format!("level {track}"),
        EngineRequest::OpenAudioDevice(d) => format!(
            "open {} {} {} {} {}x{} {}",
            d.device,
            d.sample_rate_hz,
            d.bits,
            d.exclusive,
            d.period_frames,
            d.n_periods,
            d.ring_buffer_multiplier
        ),
        EngineRequest::AddTrack(t) => format!("track {} {}/{}", t.name, t.audio_ins, t.audio_outs),
        EngineRequest::RemoveClip { track, indices } => format!("remove {track} {indices:?}"),
        EngineRequest::AddClip(c) => format!(
            "clip {} {} {} {}/{}",
            c.track, c.name, c.length, c.fade_in_samples, c.fade_out_samples
        ),
        EngineRequest::Connect {
            from_track,
            from_port,
            to_track,
            to_port,
        } => format!("connect {from_track}:{from_port} {to_track}:{to_port}"),
    };
    conversation
        .steps
        .iter()
        .map(|step| match step {
            Step::Send(r) => request(r),
            Step::Try(r) => format!("try {}", request(r)),
            Step::Await(awaited) => format!("await {awaited:?}"),
        })
        .collect()
}

#[test]
fn opening_sends_and_awaits_in_order() {
    let conversation = open_engine(String::from("/dev/dsp5"), 512, 2, 8);
    assert_eq!(
        shorthand(&conversation),
        vec![
            "stop",
            "open /dev/dsp5 48000 32 true 512x2 8",
            "await DeviceOpened",
            "track player 2/2",
            "await TrackAdded",
            "clips true",
            "await ClipPlaybackEnabled",
        ]
    );
}

#[test]
fn playing_connects_up_to_two_channels() {
    let song = SongPath::new("/m/a.flac");
    assert_eq!(
        shorthand(&play_song(&song, 77, 6)),
        vec![
            "stop",
            "try remove player [0]",
            "clip player /m/a.flac 77 240/240",
            "await ClipAdded",
            "connect player:0 hw:out:0",
            "await Connected(0)",
            "connect player:1 hw:out:1",
            "await Connected(1)",
            "seek 0",
            "play",
            "await Playing",
        ]
    );
    assert_eq!(shorthand(&play_song(&song, 77, 1)).len(), 9);
    assert_eq!(shorthand(&resume_song(4800)), vec!["seek 4800", "clips true", "play"]);
}

#[test]
fn songs_are_prepared_from_what_is_known() {
    let song = SongPath::new("/m/a.flac");
    let probed = SongSource::Probed(ProbedAudio {
        sample_rate: 24_000,
        channels: 2,
        frames: Some(24_000),
    });
    let (talk, loaded) = prepare_song(&song, probed).unwrap();
    assert_eq!(loaded.length_frames, 48_000);
    assert_eq!(shorthand(&talk), shorthand(&play_song(&song, 48_000, 2)));
    let decoded = SongSource::Decoded {
        samples: 10,
        channels: 1,
    };
    let (talk, loaded) = prepare_song(&song, decoded).unwrap();
    assert_eq!(loaded.length_frames, 10);
    assert_eq!(shorthand(&talk), shorthand(&play_song(&song, 10, 1)));
    assert_eq!(
        prepare_song(&song, SongSource::Failed(String::from("no"))).err(),
        Some(String::from("Failed to decode '/m/a.flac': no"))
    );
}

fn finished(progress: Progress) -> Option<Result<(), String>> {
    match progress {
        Progress::Pending => None,
        Progress::Finished(result) => Some(result),
    }
}

#[test]
fn a_conversation_succeeds_step_by_step() {
    let mut talk = open_engine(String::from("jack"), 1024, 2, 8);
    assert_eq!(finished(talk.advance(EngineEvent::Sent(Ok(())))), None);
    assert_eq!(finished(talk.advance(EngineEvent::Sent(Ok(())))), None);
    assert_eq!(talk.at, 2);
    // Other reports and replies are passed over.
    assert_eq!(finished(talk.advance(EngineEvent::Other)), None);
    assert_eq!(
        finished(talk.advance(EngineEvent::Replied(Ok(EngineReply::Playing)))),
        None
    );
    assert_eq!(talk.at, 2);
    talk.advance(EngineEvent::Replied(Ok(EngineReply::DeviceOpened)));
    talk.advance(EngineEvent::Sent(Ok(())));
    assert_eq!(talk.at, 4);
    talk.advance(EngineEvent::Replied(Ok(EngineReply::TrackAdded(String::from("other")))));
    assert_eq!(talk.at, 4);
    talk.advance(EngineEvent::Replied(Ok(EngineReply::TrackAdded(String::from("player")))));
    talk.advance(EngineEvent::Sent(Ok(())));
    talk.advance(EngineEvent::Replied(Ok(EngineReply::ClipPlaybackEnabled(false))));
    assert_eq!(talk.at, 6);
    assert_eq!(
        finished(talk.advance(EngineEvent::Replied(Ok(EngineReply::ClipPlaybackEnabled(true))))),
        Some(Ok(()))
    );
}

#[test]
fn a_conversation_fails_with_its_reason() {
    let waiting = || Conversation::new(vec![Step::Await(Awaited::Playing)]);
    assert_eq!(
        finished(waiting().advance(EngineEvent::TimedOut)),
        Some(Err(String::from("Timed out waiting for audio engine.")))
    );
    assert_eq!(
        finished(waiting().advance(EngineEvent::Closed)),
        Some(Err(String::from("Audio engine response channel closed.")))
    );
    assert_eq!(
        finished(waiting().advance(EngineEvent::Replied(Err(String::from("busy"))))),
        Some(Err(String::from("busy")))
    );
    let mut sending = Conversation::new(vec![Step::Send(EngineRequest::Play)]);
    assert_eq!(
        finished(sending.advance(EngineEvent::Sent(Err(String::from("gone"))))),
        Some(Err(String::from("gone")))
    );
    // A request that may fail.
    let mut trying = Conversation::new(vec![Step::Try(EngineRequest::Stop)]);
    assert_eq!(
        finished(trying.advance(EngineEvent::Sent(Err(String::from("gone"))))),
        Some(Ok(()))
    );
}

#[test]
fn replies_are_told_apart() {
    let connected = |track: &str, from_port: usize, audio: bool| EngineReply::Connected {
        from_track: String::from(track),
        from_port,
        audio,
    };
    assert!(Awaited::Connected(1).accepts(&connected("player", 1, true)));
    assert!(!Awaited::Connected(1).accepts(&connected("player", 0, true)));
    assert!(!Awaited::Connected(1).accepts(&connected("player", 1, false)));
    assert!(!Awaited::Connected(1).accepts(&connected("drums", 1, true)));
    assert!(Awaited::ClipAdded.accepts(&EngineReply::ClipAdded(String::from("player"))));
    assert!(!Awaited::ClipAdded.accepts(&EngineReply::ClipAdded(String::from("x"))));
    assert!(Awaited::Playing.accepts(&EngineReply::Playing));
    assert!(!Awaited::Playing.accepts(&EngineReply::Other));
}

#[test]
fn replies_are_waited_for_five_seconds() {
    assert_eq!(reply_time_left(10, 10), 5_000_000_000);
    assert_eq!(reply_time_left(10, 11), 4_999_999_999);
    assert_eq!(reply_time_left(10, 5_000_000_010), 0);
    assert_eq!(reply_time_left(10, u64::MAX), 0);
}

#[test]
fn lengths_are_in_frames_of_the_engine() {
    let probe = |sample_rate, channels, frames| {
        probed_length(ProbedAudio {
            sample_rate,
            channels,
            frames,
        })
    };
    assert_eq!(probe(44_100, 2, Some(44_100)), (48_000, 2));
    assert_eq!(probe(96_000, 1, Some(96_001)), (48_000, 1));
    assert_eq!(probe(0, 0, Some(2)), (96_000, 1));
    assert_eq!(probe(44_100, 2, None), (0, 2));
    assert_eq!(decoded_length(9, 2), (4, 2));
    assert_eq!(decoded_length(9, 0), (9, 1));
    assert_eq!(
        decode_failure(&SongPath::new("/m/a.flac"), "bad header"),
        "Failed to decode '/m/a.flac': bad header"
    );
}
