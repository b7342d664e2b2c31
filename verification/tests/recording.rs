use std::collections::HashSet;
use stentor::audio::VoiceActivityDetector;
use stentor::dialog::TranscriptionState;
use stentor::recording::{
    execute_output_command, AudioLevel, EndStep, RecordingSession, UIMessage, WindowConfig,
};

/// Runs a session in which every chunk holds speech and every transcription is done
/// at once, and tracks which chunks were transcribed.
struct TranscriptionWindowSimulator {
    window_chunks: usize,
    lag_chunks: usize,
    periodic_threshold: usize,
    confirmed_ranges: Vec<(usize, usize)>,
    remaining_range: Option<(usize, usize)>,
}

impl TranscriptionWindowSimulator {
    fn new(window_chunks: usize, lag_chunks: usize, periodic_threshold: usize) -> Self {
        Self {
            window_chunks,
            lag_chunks,
            periodic_threshold,
            confirmed_ranges: Vec::new(),
            remaining_range: None,
        }
    }

    fn simulate(&mut self, total_chunks: usize) -> HashSet<usize> {
        let mut session: RecordingSession<usize> = RecordingSession::new(
            VoiceActivityDetector::new(0, usize::MAX),
            WindowConfig {
                window_chunks: self.window_chunks,
                lag_chunks: self.lag_chunks,
                periodic_chunks: self.periodic_threshold,
            },
        );
        for i in 0..total_chunks {
            let outcome = session.on_chunk(true, vec![i]);
            assert!(!outcome.stop);
            if let Some(job) = outcome.job {
                if let Some(window) = &job.window {
                    let expected: Vec<usize> = (window.start..window.end).collect();
                    assert_eq!(window.samples, expected);
                    assert_eq!(job.preview.start, window.end);
                    self.confirmed_ranges.push((window.start, window.end));
                }
                assert_eq!(job.preview.end, i + 1);
                session.on_job_done(Some("text"), Some("preview"));
            }
        }
        if let Some(rest) = session.rest() {
            let expected: Vec<usize> = (rest.start..rest.end).collect();
            assert_eq!(rest.samples, expected);
            self.remaining_range = Some((rest.start, rest.end));
            session.on_rest_done(Some("rest"));
        }
        assert!(session.rest().is_none());
        self.get_transcribed_chunks()
    }

    fn get_transcribed_chunks(&self) -> HashSet<usize> {
        let mut chunks = HashSet::new();
        for (start, end) in &self.confirmed_ranges {
            for i in *start..*end {
                chunks.insert(i);
            }
        }
        if let Some((start, end)) = self.remaining_range {
            for i in start..end {
                chunks.insert(i);
            }
        }
        chunks
    }

    fn get_overlapping_chunks(&self) -> HashSet<usize> {
        let mut seen = HashSet::new();
        let mut overlaps = HashSet::new();
        for (start, end) in &self.confirmed_ranges {
            for i in *start..*end {
                if !seen.insert(i) {
                    overlaps.insert(i);
                }
            }
        }
        if let Some((start, end)) = self.remaining_range {
            for i in start..end {
                if !seen.insert(i) {
                    overlaps.insert(i);
                }
            }
        }
        overlaps
    }
}

#[test]
fn test_all_chunks_transcribed_exact_windows() {
    let mut sim = TranscriptionWindowSimulator::new(10, 2, 5);
    let transcribed = sim.simulate(30);

    let expected: HashSet<usize> = (0..30).collect();
    assert_eq!(transcribed, expected, "All chunks should be transcribed");

    let overlaps = sim.get_overlapping_chunks();
    assert!(overlaps.is_empty(), "No chunks should be transcribed twice");
}

#[test]
fn test_all_chunks_transcribed_with_remainder() {
    let mut sim = TranscriptionWindowSimulator::new(10, 2, 5);
    let transcribed = sim.simulate(35);

    let expected: HashSet<usize> = (0..35).collect();
    assert_eq!(transcribed, expected, "All chunks should be transcribed");

    assert!(sim.remaining_range.is_some(), "Should have remaining chunks");

    let overlaps = sim.get_overlapping_chunks();
    assert!(overlaps.is_empty(), "No chunks should be transcribed twice");
}

#[test]
fn test_all_chunks_transcribed_small_total() {
    let mut sim = TranscriptionWindowSimulator::new(10, 2, 5);
    let transcribed = sim.simulate(5);

    let expected: HashSet<usize> = (0..5).collect();
    assert_eq!(transcribed, expected, "All chunks should be transcribed");

    assert!(
        sim.confirmed_ranges.is_empty(),
        "Should have no confirmed windows"
    );
    assert_eq!(
        sim.remaining_range,
        Some((0, 5)),
        "All should be in remaining"
    );
}

#[test]
fn test_all_chunks_transcribed_exactly_one_window() {
    let mut sim = TranscriptionWindowSimulator::new(10, 2, 5);
    let transcribed = sim.simulate(12);

    let expected: HashSet<usize> = (0..12).collect();
    assert_eq!(transcribed, expected, "All chunks should be transcribed");
}

#[test]
fn test_no_gaps_large_simulation() {
    let window_chunks = 78;
    let lag_chunks = 16;
    let periodic_threshold = 16;
    let total_chunks = 469;

    let mut sim = TranscriptionWindowSimulator::new(window_chunks, lag_chunks, periodic_threshold);
    let transcribed = sim.simulate(total_chunks);

    let expected: HashSet<usize> = (0..total_chunks).collect();
    let missing: HashSet<_> = expected.difference(&transcribed).collect();
    assert!(
        missing.is_empty(),
        "Missing chunks: {:?} (count: {})",
        missing,
        missing.len()
    );

    let overlaps = sim.get_overlapping_chunks();
    assert!(
        overlaps.is_empty(),
        "Overlapping chunks: {:?} (count: {})",
        overlaps,
        overlaps.len()
    );
}

#[test]
fn test_no_gaps_various_sizes() {
    let window_chunks = 10;
    let lag_chunks = 3;
    let periodic_threshold = 4;

    for total in 1..=100 {
        let mut sim =
            TranscriptionWindowSimulator::new(window_chunks, lag_chunks, periodic_threshold);
        let transcribed = sim.simulate(total);

        let expected: HashSet<usize> = (0..total).collect();
        assert_eq!(
            transcribed, expected,
            "All {} chunks should be transcribed",
            total
        );

        let overlaps = sim.get_overlapping_chunks();
        assert!(
            overlaps.is_empty(),
            "No overlaps for {} chunks, got {:?}",
            total,
            overlaps
        );
    }
}

#[test]
fn test_lag_larger_than_window() {
    let mut sim = TranscriptionWindowSimulator::new(5, 10, 3);
    let transcribed = sim.simulate(50);

    let expected: HashSet<usize> = (0..50).collect();
    assert_eq!(transcribed, expected, "All chunks should be transcribed");

    let overlaps = sim.get_overlapping_chunks();
    assert!(overlaps.is_empty(), "No overlaps expected");
}

#[test]
fn test_single_chunk() {
    let mut sim = TranscriptionWindowSimulator::new(10, 2, 5);
    let transcribed = sim.simulate(1);

    let expected: HashSet<usize> = [0].into_iter().collect();
    assert_eq!(transcribed, expected, "Single chunk should be transcribed");
}

#[test]
fn test_zero_lag() {
    let mut sim = TranscriptionWindowSimulator::new(5, 0, 3);
    let transcribed = sim.simulate(20);

    let expected: HashSet<usize> = (0..20).collect();
    assert_eq!(transcribed, expected, "All chunks should be transcribed");

    let overlaps = sim.get_overlapping_chunks();
    assert!(overlaps.is_empty(), "No overlaps expected");
}

#[test]
fn test_periodic_threshold_one() {
    let mut sim = TranscriptionWindowSimulator::new(5, 2, 1);
    let transcribed = sim.simulate(30);

    let expected: HashSet<usize> = (0..30).collect();
    assert_eq!(transcribed, expected, "All chunks should be transcribed");

    let overlaps = sim.get_overlapping_chunks();
    assert!(overlaps.is_empty(), "No overlaps expected");
}

#[test]
fn test_window_boundaries_are_contiguous() {
    let mut sim = TranscriptionWindowSimulator::new(10, 2, 5);
    sim.simulate(100);

    for i in 1..sim.confirmed_ranges.len() {
        let prev_end = sim.confirmed_ranges[i - 1].1;
        let curr_start = sim.confirmed_ranges[i].0;
        assert_eq!(
            prev_end,
            curr_start,
            "Window {} should start at {} (where window {} ended), but starts at {}",
            i,
            prev_end,
            i - 1,
            curr_start
        );
    }

    if let Some((remaining_start, _)) = sim.remaining_range {
        if let Some((_, last_confirmed_end)) = sim.confirmed_ranges.last() {
            assert_eq!(
                *last_confirmed_end, remaining_start,
                "Remaining should start at {} (where last confirmed ended), but starts at {}",
                last_confirmed_end, remaining_start
            );
        }
    }
}

fn session(window: usize, lag: usize, periodic: usize) -> RecordingSession<i32> {
    RecordingSession::new(
        VoiceActivityDetector::new(2, 3),
        WindowConfig {
            window_chunks: window,
            lag_chunks: lag,
            periodic_chunks: periodic,
        },
    )
}

#[test]
fn windows_of_the_module_example() {
    // window 10, lag 3, a transcription every 5 chunks
    let mut sim = TranscriptionWindowSimulator::new(10, 3, 5);
    sim.simulate(18);
    assert_eq!(sim.confirmed_ranges, vec![(0, 10)]);
    assert_eq!(sim.remaining_range, Some((10, 18)));
}

#[test]
fn empty_windows_are_confirmed_at_once() {
    let mut s = session(0, 7, 1);
    let outcome = s.on_chunk(true, vec![4, 5]);
    let job = outcome.job.unwrap();
    let window = job.window.unwrap();
    assert_eq!((window.start, window.end, window.samples.len()), (0, 0, 0));
    assert_eq!(job.preview.samples, vec![4, 5]);
}

#[test]
fn huge_windows_are_never_confirmed() {
    let mut s = session(usize::MAX, usize::MAX, 1);
    for i in 0..5 {
        let job = s.on_chunk(true, vec![i]).job.unwrap();
        assert!(job.window.is_none());
        s.on_job_done(None, None);
    }
    assert_eq!(s.rest().unwrap().samples, vec![0, 1, 2, 3, 4]);
}

#[test]
fn chunks_before_speech_are_not_recorded() {
    let mut s = session(10, 2, 5);
    let outcome = s.on_chunk(false, vec![1, 2]);
    assert!(outcome.job.is_none());
    assert!(!outcome.stop);
    assert!(matches!(
        outcome.message,
        UIMessage::UpdateState(TranscriptionState::Recording, ref m, AudioLevel::Chunk)
            if m == "Listening..."
    ));
    assert!(s.rest().is_none());
    let outcome = s.on_chunk(true, vec![3]);
    assert!(matches!(
        outcome.message,
        UIMessage::UpdateState(TranscriptionState::Processing, ref m, AudioLevel::Chunk)
            if m == "Recording..."
    ));
    let outcome = s.on_chunk(false, vec![4]);
    assert!(matches!(
        outcome.message,
        UIMessage::UpdateState(TranscriptionState::Processing, ref m, AudioLevel::Chunk)
            if m == "Transcribing..."
    ));
    assert_eq!(s.rest().unwrap().samples, vec![3, 4]);
}

#[test]
fn a_pause_calls_for_a_transcription() {
    let mut s = session(10, 2, 100);
    assert!(s.on_chunk(true, vec![0]).job.is_none());
    let job = s.on_chunk(false, vec![1]).job.unwrap();
    assert_eq!((job.preview.start, job.preview.end), (0, 2));
    // No second one while the first one runs, nor in the same pause.
    assert!(s.on_chunk(true, vec![2]).job.is_none());
    assert!(s.on_chunk(false, vec![3]).job.is_none());
    s.on_job_done(None, Some("so far"));
    assert!(s.on_chunk(false, vec![4]).job.is_none());
    assert!(s.on_chunk(true, vec![5]).job.is_none());
    assert!(s.on_chunk(false, vec![6]).job.is_some());
}

#[test]
fn silence_stops_after_enough_speech() {
    // Two chunks of speech are needed, and three of silence.
    let mut s = session(10, 2, 100);
    s.on_chunk(true, vec![0]);
    s.on_chunk(true, vec![1]);
    assert!(!s.on_chunk(false, vec![2]).stop);
    assert!(!s.on_chunk(false, vec![3]).stop);
    assert!(!s.on_chunk(false, vec![4]).stop);
    assert!(s.on_chunk(false, vec![5]).stop);

    let mut short = session(10, 2, 100);
    short.on_chunk(true, vec![0]);
    for i in 0..20 {
        assert!(!short.on_chunk(false, vec![i]).stop);
    }
}

#[test]
fn confirmed_text_grows_and_previews_do_not_stay() {
    let mut s = session(1, 0, 1);
    s.on_chunk(true, vec![0]);
    let message = s.on_job_done(Some(" hello [BLANK_AUDIO]"), Some("wor "));
    assert!(matches!(
        message,
        UIMessage::SetConfirmedAndPreview(ref c, ref p) if c == "hello" && p == "wor"
    ));
    s.on_chunk(true, vec![1]);
    let message = s.on_job_done(Some("[BLANK_AUDIO]"), None);
    assert!(matches!(
        message,
        UIMessage::SetConfirmedAndPreview(ref c, ref p) if c == "hello" && p.is_empty()
    ));
    s.on_chunk(true, vec![2]);
    // A window whose transcription failed is not tried again.
    s.on_job_done(None, None);
    assert!(s.rest().is_none());
    s.on_chunk(true, vec![3]);
    s.on_job_done(Some("world"), None);
    assert_eq!(s.text(), "hello world");
}

#[test]
fn all_audio_is_tried_once_more_where_there_is_no_text() {
    let mut s = session(10, 0, 100);
    assert!(s.fallback().is_none());
    s.on_chunk(true, vec![1, 2]);
    s.on_chunk(true, vec![3]);
    assert_eq!(s.rest().unwrap().samples, vec![1, 2, 3]);
    s.on_rest_done(Some("[BLANK_AUDIO]"));
    let all = s.fallback().unwrap();
    assert_eq!((all.start, all.end), (0, 2));
    assert_eq!(all.samples, vec![1, 2, 3]);
    s.on_fallback_done(Some(" heard after all "));
    assert_eq!(s.text(), "heard after all");
    assert!(s.fallback().is_none());
}

#[test]
fn a_session_without_text_ends_in_an_error() {
    let s = session(10, 0, 100);
    let end = s.conclude(&vec![1, 2]);
    assert!(end.pause_before_last);
    assert_eq!(end.messages.len(), 2);
    assert!(matches!(
        end.messages[0],
        UIMessage::UpdateState(TranscriptionState::Error, ref m, AudioLevel::Zero)
            if m == "No speech detected"
    ));
    assert!(matches!(end.messages[1], UIMessage::Close));
}

#[test]
fn text_goes_to_waiting_slots_or_to_review() {
    let mut s = session(10, 0, 100);
    s.on_chunk(true, vec![1]);
    s.on_rest_done(Some("hello"));
    let end = s.conclude(&vec![3, 1]);
    assert!(!end.pause_before_last);
    assert_eq!(end.messages.len(), 3);
    assert!(matches!(end.messages[0], UIMessage::AutoSendText(ref t, 3) if t == "hello"));
    assert!(matches!(end.messages[1], UIMessage::AutoSendText(ref t, 1) if t == "hello"));
    assert!(matches!(end.messages[2], UIMessage::Close));

    let end = s.conclude(&vec![]);
    assert!(!end.pause_before_last);
    assert_eq!(end.messages.len(), 2);
    assert!(matches!(end.messages[0], UIMessage::SetText(ref t) if t == "hello"));
    assert!(matches!(
        end.messages[1],
        UIMessage::UpdateState(TranscriptionState::Reviewing, ref m, AudioLevel::Zero)
            if m == "Ready to send"
    ));
    assert!(matches!(
        RecordingSession::<i32>::opening(),
        UIMessage::UpdateState(TranscriptionState::Recording, ref m, AudioLevel::Zero)
            if m == "Listening..."
    ));
}

#[test]
fn output_command_finds_text_and_slot_in_its_variables() {
    let extra = vec![("KITTY_LISTEN_ON".to_string(), "unix:@kitty".to_string())];
    let command = execute_output_command("echo \"$TRANSCRIPTION\"", "$(rm x); it's", 3, &extra);
    assert_eq!(command.program, "sh");
    assert_eq!(command.args, vec!["-c", "echo \"$TRANSCRIPTION\""]);
    let expected = vec![
        ("TRANSCRIPTION".to_string(), "$(rm x); it's".to_string()),
        ("SLOT".to_string(), "3".to_string()),
        ("KITTY_LISTEN_ON".to_string(), "unix:@kitty".to_string()),
    ];
    assert_eq!(command.env, expected);
}

#[test]
fn the_end_takes_its_steps_in_order() {
    let mut s = session(10, 0, 1);
    assert!(matches!(s.end_step(), EndStep::Conclude));
    s.on_chunk(true, vec![1]);
    assert!(matches!(s.end_step(), EndStep::AwaitJob));
    s.on_job_done(None, None);
    match s.end_step() {
        EndStep::TranscribeRest(span) => assert_eq!(span.samples, vec![1]),
        other => panic!("{:?}", other),
    }
    s.on_rest_done(None);
    match s.end_step() {
        EndStep::TranscribeAll(span) => assert_eq!((span.start, span.end), (0, 1)),
        other => panic!("{:?}", other),
    }
    // One attempt is all that is made.
    s.on_fallback_done(None);
    assert!(matches!(s.end_step(), EndStep::Conclude));
    assert!(s.conclude(&vec![]).pause_before_last);
}
