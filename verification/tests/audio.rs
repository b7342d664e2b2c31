use stentor::audio::{
    decode_samples, next_read_action, AudioChunk, AudioRecorder, ReadAction, ReadEvent,
    RecordingCommand, VadResult, VadState, VoiceActivityDetector,
};
use stentor::mic_mute::{MicMuteManager, SetMute};
use stentor::pulse::{
    connect, default_name, get_source_description, keep_waiting_for_mute, list_sources, source_exists,
    wait_for_context_ready, ContextState, PulseError, SourceQuery, Turn, Wait,
};

/// A detector by level and seconds: the level above which a chunk is speech, and the
/// detector for chunk counts.
struct Detector {
    silence_threshold: f32,
    vad: VoiceActivityDetector,
}

impl Detector {
    fn new(
        silence_threshold: f32,
        min_speech_duration: f32,
        stop_silence_duration: f32,
        sample_rate: u32,
        samples_per_chunk: usize,
    ) -> Self {
        let chunks =
            |seconds: f32| (seconds * sample_rate as f32 / samples_per_chunk as f32) as usize;
        Detector {
            silence_threshold,
            vad: VoiceActivityDetector::new(
                chunks(min_speech_duration),
                chunks(stop_silence_duration),
            ),
        }
    }

    fn process_chunk(
        &self,
        rms: f32,
        current_state: VadState,
        silence_chunks: usize,
        speech_chunks: usize,
    ) -> VadResult {
        self.vad.process_chunk(
            rms > self.silence_threshold,
            current_state,
            silence_chunks,
            speech_chunks,
        )
    }
}

#[test]
fn test_vad_idle_to_speaking() {
    let vad = Detector::new(0.01, 0.5, 1.5, 16000, 1024);
    let result = vad.process_chunk(0.05, VadState::Idle, 0, 0);
    assert_eq!(result.state, VadState::Speaking);
    assert!(!result.should_stop);
}

#[test]
fn test_vad_speaking_to_silence() {
    let vad = Detector::new(0.01, 0.5, 1.5, 16000, 1024);
    let result = vad.process_chunk(0.005, VadState::Speaking, 0, 10);
    assert_eq!(result.state, VadState::SilenceAfterSpeech);
    assert!(!result.should_stop);
}

#[test]
fn test_vad_state_transitions() {
    let vad = Detector::new(0.01, 0.5, 1.5, 16000, 1024);

    let result = vad.process_chunk(0.005, VadState::Idle, 0, 0);
    assert_eq!(result.state, VadState::Idle);
    assert!(!result.should_stop);

    let result = vad.process_chunk(0.05, VadState::Speaking, 0, 10);
    assert_eq!(result.state, VadState::Speaking);
    assert!(!result.should_stop);

    let result = vad.process_chunk(0.05, VadState::SilenceAfterSpeech, 5, 10);
    assert_eq!(result.state, VadState::Speaking);
    assert!(!result.should_stop);
}

#[test]
fn test_vad_stop_conditions() {
    let vad = Detector::new(0.01, 0.5, 1.5, 16000, 1024);

    let stop_chunks = 25;
    let min_speech_chunks = 10;

    let result = vad.process_chunk(
        0.005,
        VadState::SilenceAfterSpeech,
        stop_chunks,
        min_speech_chunks,
    );
    assert_eq!(result.state, VadState::SilenceAfterSpeech);
    assert!(result.should_stop);

    let result = vad.process_chunk(0.005, VadState::SilenceAfterSpeech, 5, min_speech_chunks);
    assert!(!result.should_stop);

    let result = vad.process_chunk(0.005, VadState::SilenceAfterSpeech, stop_chunks, 2);
    assert!(!result.should_stop);
}

#[test]
fn test_vad_result_from_state() {
    let result: VadResult = VadState::Idle.into();
    assert_eq!(result.state, VadState::Idle);
    assert!(!result.should_stop);
}

#[test]
fn test_vad_silence_after_speech_continues() {
    let vad = Detector::new(0.01, 0.5, 1.5, 16000, 1024);

    let result = vad.process_chunk(0.005, VadState::SilenceAfterSpeech, 5, 10);
    assert_eq!(result.state, VadState::SilenceAfterSpeech);
}

#[test]
fn test_audio_chunk_creation() {
    let data = vec![0.1, 0.2, 0.3, 0.4];
    let chunk = AudioChunk {
        data: data.clone(),
        rms: 0.5,
    };

    assert_eq!(chunk.data.len(), 4);
    assert_eq!(chunk.rms, 0.5);
}

#[test]
fn test_audio_chunk_clone() {
    let chunk = AudioChunk {
        data: vec![1.0, 2.0],
        rms: 1.5,
    };

    let cloned = chunk.clone();
    assert_eq!(chunk.data, cloned.data);
    assert_eq!(chunk.rms, cloned.rms);
}

#[test]
fn stop_threshold_is_reached_exactly() {
    // 1.5 s at 16 kHz in chunks of 1024 samples are 23 whole chunks, 0.5 s are 7.
    let vad = Detector::new(0.01, 0.5, 1.5, 16000, 1024);
    assert!(!vad.process_chunk(0.0, VadState::SilenceAfterSpeech, 22, 7).should_stop);
    assert!(vad.process_chunk(0.0, VadState::SilenceAfterSpeech, 23, 7).should_stop);
    assert!(!vad.process_chunk(0.0, VadState::SilenceAfterSpeech, 23, 6).should_stop);
    assert!(!vad.process_chunk(0.02, VadState::SilenceAfterSpeech, 23, 7).should_stop);
}

#[test]
fn samples_are_little_endian() {
    assert_eq!(
        decode_samples(&[0x00, 0x00, 0xff, 0x7f, 0x00, 0x80, 0xff, 0xff, 0x34, 0x12, 0x99]),
        vec![0, 32767, -32768, -1, 0x1234]
    );
    for low in 0..=255u8 {
        for high in 0..=255u8 {
            assert_eq!(
                decode_samples(&[low, high]),
                vec![i16::from_le_bytes([low, high])]
            );
        }
    }
}

fn names(list: &[&str]) -> Vec<Option<String>> {
    list.iter().map(|s| Some(s.to_string())).collect()
}

#[test]
fn recorder_wants_a_source_that_exists() {
    let sources = vec![None, Some("a".to_string()), Some("b".to_string())];
    let recorder = AudioRecorder::new(16000, Some("b".to_string()), 1024, &sources).unwrap();
    assert_eq!(recorder.source_name(), Some("b"));
    assert_eq!(recorder.get_actual_sample_rate().unwrap(), 16000);
    assert_eq!(recorder.buffer_size(), 2048);
    let error = AudioRecorder::new(16000, Some("c".to_string()), 1024, &sources).unwrap_err();
    assert_eq!(error.message(), "Audio source 'c' not found");
    let default = AudioRecorder::new(16000, None, 512, &vec![]).unwrap();
    assert_eq!(default.source_name(), None);
    assert!(source_exists(&sources, "a"));
    assert!(!source_exists(&sources, "A"));
    assert_eq!(list_sources(&sources), vec!["a", "b"]);
}

#[test]
fn recorder_names_its_device() {
    let named = AudioRecorder::new(16000, Some("mic".to_string()), 1024, &names(&["mic"])).unwrap();
    assert_eq!(named.source_to_describe(Some("other")).unwrap(), "mic");
    assert_eq!(
        named.get_device_name(Some("other"), &names(&["USB", "USB 2"])).unwrap(),
        "USB 2"
    );
    assert_eq!(
        named.get_device_name(None, &vec![None]).unwrap_err().message(),
        "Could not get description for source 'mic'"
    );
    let default = AudioRecorder::new(16000, None, 1024, &vec![]).unwrap();
    assert_eq!(
        default.get_device_name(Some("other"), &names(&["Built-in"])).unwrap(),
        "Built-in"
    );
    assert_eq!(
        default.get_device_name(None, &names(&["Built-in"])).unwrap_err().message(),
        "Could not get default source name"
    );
    assert!(default_name(Some("x")).is_ok());
    assert_eq!(
        get_source_description("s", &vec![Some("d".to_string()), None]).unwrap(),
        "d"
    );
    assert!(matches!(RecordingCommand::Stop, RecordingCommand::Stop));
}

#[test]
fn waiting_for_the_connection_ends() {
    assert!(matches!(wait_for_context_ready(0, ContextState::Ready), Wait::Ready));
    assert!(matches!(wait_for_context_ready(99, ContextState::Pending), Wait::Again));
    for state in [ContextState::Failed, ContextState::Terminated] {
        match wait_for_context_ready(5, state) {
            Wait::Failed(e) => assert_eq!(e.message(), "PulseAudio context failed"),
            other => panic!("{:?}", other),
        }
    }
    assert!(matches!(connect(true, ContextState::Ready), Wait::Ready));
    assert!(matches!(connect(true, ContextState::Pending), Wait::Again));
    assert!(matches!(
        connect(false, ContextState::Ready),
        Wait::Failed(PulseError::MainloopFailed)
    ));
    match wait_for_context_ready(100, ContextState::Ready) {
        Wait::Failed(e) => assert_eq!(
            e.message(),
            "Timeout waiting for PulseAudio context to become ready"
        ),
        other => panic!("{:?}", other),
    }
}

fn turn(alive: bool, context: ContextState, name: Option<&str>, info: Option<(u32, bool)>) -> Turn {
    Turn { alive, context, name: name.map(|s| s.to_string()), info }
}

#[test]
fn query_finds_the_default_source() {
    let query = SourceQuery::new();
    let query = query.after(turn(true, ContextState::Pending, None, None));
    assert!(matches!(query, SourceQuery::Connecting));
    let query = query.after(turn(true, ContextState::Ready, None, None));
    assert!(matches!(query, SourceQuery::AwaitName(0)));
    let query = query.after(turn(true, ContextState::Ready, None, None));
    assert!(matches!(query, SourceQuery::AwaitName(1)));
    // The answer counts though the main loop has ended with it.
    let query = query.after(turn(false, ContextState::Ready, Some("mic"), None));
    assert!(matches!(query, SourceQuery::AwaitInfo(ref n, 0) if n == "mic"));
    let query = query.after(turn(true, ContextState::Ready, Some("mic"), Some((7, true))));
    assert!(matches!(query, SourceQuery::Found(7, true)));
}

#[test]
fn query_fails_for_a_reason() {
    let message = |q: SourceQuery| match q {
        SourceQuery::Failed(e) => e.message(),
        other => panic!("{:?}", other),
    };
    let start = || SourceQuery::new();
    assert_eq!(
        message(start().after(turn(false, ContextState::Ready, None, None))),
        "PulseAudio mainloop failed"
    );
    assert_eq!(
        message(start().after(turn(true, ContextState::Terminated, None, None))),
        "PulseAudio context failed"
    );
    let mut query = start().after(turn(true, ContextState::Ready, None, None));
    for _ in 0..49 {
        query = query.after(turn(true, ContextState::Ready, None, None));
        assert!(matches!(query, SourceQuery::AwaitName(_)));
    }
    query = query.after(turn(true, ContextState::Ready, None, None));
    assert_eq!(message(query), "Failed to get default source name from PulseAudio");
    let query = start()
        .after(turn(true, ContextState::Ready, None, None))
        .after(turn(true, ContextState::Ready, Some("mic"), None))
        .after(turn(false, ContextState::Ready, Some("mic"), None));
    assert_eq!(message(query), "Failed to get source info for 'mic'");
    assert!(matches!(
        SourceQuery::Failed(PulseError::Timeout).after(turn(true, ContextState::Ready, None, None)),
        SourceQuery::Failed(PulseError::Timeout)
    ));
}

#[test]
fn microphone_is_muted_again() {
    let (manager, request) = MicMuteManager::unmute_if_needed(4, true);
    assert_eq!(request, Some(SetMute { source_index: 4, mute: false }));
    assert_eq!(manager.restore(), Some(SetMute { source_index: 4, mute: true }));
    let (manager, request) = MicMuteManager::unmute_if_needed(4, false);
    assert_eq!(request, None);
    assert_eq!(manager.restore(), None);
    assert!(keep_waiting_for_mute(49, true, false));
    assert!(!keep_waiting_for_mute(50, true, false));
    assert!(!keep_waiting_for_mute(0, false, false));
    assert!(!keep_waiting_for_mute(0, true, true));
}

#[test]
fn reading_goes_on_until_something_ends_it() {
    assert_eq!(next_read_action(ReadEvent::NoCommand), ReadAction::ReadChunk);
    assert_eq!(next_read_action(ReadEvent::ChunkRead), ReadAction::SendChunk);
    assert_eq!(next_read_action(ReadEvent::ChunkSent), ReadAction::LookForCommand);
    for event in [ReadEvent::StopSeen, ReadEvent::ReadFailed, ReadEvent::NobodyListens] {
        assert_eq!(next_read_action(event), ReadAction::End);
    }
}
