//! A recording session: transcription over a sliding window.
//!
//! Audio arrives in chunks. While somebody speaks, the session asks now and then
//! for a transcription. A full window of audio that is older than the lag is
//! transcribed once and for all (*confirmed*); what follows it is transcribed as
//! a *preview* that may still change. When the recording ends, the audio that was
//! not confirmed yet is transcribed too.
//!
//! With a window of 10 chunks, a lag of 3 and a transcription every 5 chunks:
//!
//! ```text
//! at chunk  5: nothing to confirm (5 - 3 < 0 + 10),   preview [0..5]
//! at chunk 10: nothing to confirm (10 - 3 < 0 + 10),  preview [0..10]
//! at chunk 15: confirm [0..10] (15 - 3 >= 0 + 10),    preview [10..15]
//! at the end, after 18 chunks: transcribe [10..18]
//! ```
//!
//! The confirmed windows and the rest at the end cover every chunk exactly once,
//! each one starting where the one before it ended.
use crate::audio::{VadState, VoiceActivityDetector};
use crate::dialog::{DestinationSlot, TranscriptionState};
use crate::spans::{
    audio_of, chunk_views, covered, flatten, lemma_tiles_cover_a_recording, tiles, windows_audio,
    within,
};
use crate::text::{decimal, decimal_of, pair_views, string_views, text_view};
use crate::transcript;
use vstd::prelude::*;

verus! {

/// The audio level that goes with a status message.
#[derive(Debug, Clone, Copy, PartialEq, Eq, Structural)]
pub enum AudioLevel {
    /// No sound.
    Zero,
    /// The level of the chunk at hand.
    Chunk,
}

/// What a session tells the dialog.
#[derive(Debug, Clone)]
pub enum UIMessage {
    UpdateState(TranscriptionState, String, AudioLevel),
    SetText(String),
    SetTextPreview(String),
    /// The confirmed text and the preview behind it.
    SetConfirmedAndPreview(String, String),
    /// Send the text to a slot without review.
    AutoSendText(String, usize),
    SetDestinations(Vec<DestinationSlot>),
    /// The windows that the multi-slot handler has changed.
    StoreHandlerWindowIds(Vec<u64>),
    /// Hide the dialog while the session goes on.
    CloseImmediately,
    Close,
}

/// What a message says.
pub enum MessageView {
    UpdateState(TranscriptionState, Seq<char>, AudioLevel),
    SetText(Seq<char>),
    SetTextPreview(Seq<char>),
    SetConfirmedAndPreview(Seq<char>, Seq<char>),
    AutoSendText(Seq<char>, usize),
    SetDestinations(Seq<crate::dialog::DestinationView>),
    StoreHandlerWindowIds(Seq<u64>),
    CloseImmediately,
    Close,
}

impl View for UIMessage {
    type V = MessageView;

    open spec fn view(&self) -> MessageView {
        match *self {
            UIMessage::UpdateState(s, t, l) => MessageView::UpdateState(s, t@, l),
            UIMessage::SetText(t) => MessageView::SetText(t@),
            UIMessage::SetTextPreview(t) => MessageView::SetTextPreview(t@),
            UIMessage::SetConfirmedAndPreview(c, p) => MessageView::SetConfirmedAndPreview(c@, p@),
            UIMessage::AutoSendText(t, n) => MessageView::AutoSendText(t@, n),
            UIMessage::SetDestinations(d) => MessageView::SetDestinations(
                crate::dialog::destination_views(d@),
            ),
            UIMessage::StoreHandlerWindowIds(w) => MessageView::StoreHandlerWindowIds(w@),
            UIMessage::CloseImmediately => MessageView::CloseImmediately,
            UIMessage::Close => MessageView::Close,
        }
    }
}

/// The views of a list of messages.
pub open spec fn message_views(messages: Seq<UIMessage>) -> Seq<MessageView> {
    messages.map_values(|m: UIMessage| m@)
}

/// The sizes, in chunks, that govern when audio is transcribed.
#[derive(Debug, Clone, Copy)]
pub struct WindowConfig {
    /// How much audio is confirmed at a time.
    pub window_chunks: usize,
    /// How much of the newest audio is never confirmed while recording.
    pub lag_chunks: usize,
    /// How much new audio calls for another transcription.
    pub periodic_chunks: usize,
}

/// The chunks that a running transcription was asked for: `[a..b)` as `(a, b)`.
pub struct JobView {
    pub window: Option<(int, int)>,
    pub preview: (int, int),
}

/// The state of a session.
pub struct SessionView<S> {
    pub vad: VoiceActivityDetector,
    pub config: WindowConfig,
    pub vad_state: VadState,
    /// Chunks since the last one with speech.
    pub silence: nat,
    /// Chunks with speech.
    pub speech: nat,
    /// Chunks since the last transcription was asked for.
    pub since: nat,
    /// All audio from the first speech on.
    pub recorded: Seq<Seq<S>>,
    /// How many chunks are confirmed.
    pub confirmed: int,
    /// The text of the confirmed chunks.
    pub text: Seq<char>,
    /// The transcription that is running.
    pub job: Option<JobView>,
    /// The confirmed windows so far, in order.
    pub windows: Seq<(int, int)>,
    /// All audio was transcribed in one go, since nothing else had yielded text.
    pub tried_all: bool,
}

impl<S> SessionView<S> {
    /// A session before its first chunk.
    pub open spec fn start(vad: VoiceActivityDetector, config: WindowConfig) -> Self {
        SessionView {
            vad,
            config,
            vad_state: VadState::Idle,
            silence: 0,
            speech: 0,
            since: 0,
            recorded: Seq::empty(),
            confirmed: 0,
            text: Seq::empty(),
            job: None,
            windows: Seq::empty(),
            tried_all: false,
        }
    }

    /// What holds of every session.
    pub open spec fn wf(self) -> bool {
        let total = self.recorded.len();
        &&& self.silence <= total
        &&& self.speech <= total
        &&& self.since <= total
        &&& 0 <= self.confirmed <= total
        &&& tiles(self.windows, self.confirmed)
        &&& self.job matches Some(j) ==> {
            &&& self.job_window_fits(j)
            &&& j.preview.0 == match j.window {
                Some(w) => w.1,
                None => self.confirmed,
            }
            &&& j.preview.0 <= j.preview.1 <= total
        }
    }

    /// Whether the window that `j` confirms follows what is confirmed already and is settled.
    pub open spec fn job_window_fits(self, j: JobView) -> bool {
        j.window matches Some(w) ==> {
            &&& w == (self.confirmed, self.confirmed + self.config.window_chunks)
            &&& w.1 <= self.settled()
        }
    }

    /// How many chunks are older than the lag.
    pub open spec fn settled(self) -> int {
        if self.recorded.len() >= self.config.lag_chunks {
            self.recorded.len() - self.config.lag_chunks
        } else {
            0
        }
    }

    /// Whether a whole window of settled audio waits to be confirmed.
    pub open spec fn can_confirm(self) -> bool {
        self.settled() >= self.confirmed + self.config.window_chunks
    }

    /// The transcription to ask for: the next window where it can be confirmed,
    /// and a preview of all that follows.
    pub open spec fn next_job(self) -> JobView {
        let total = self.recorded.len() as int;
        if self.can_confirm() {
            let end = self.confirmed + self.config.window_chunks;
            JobView { window: Some((self.confirmed, end)), preview: (end, total) }
        } else {
            JobView { window: None, preview: (self.confirmed, total) }
        }
    }

    /// The detector's state after a chunk.
    pub open spec fn next_vad(self, is_speech: bool) -> VadState {
        crate::audio::vad_next(self.vad_state, is_speech)
    }

    /// Whether a chunk ends the recording.
    pub open spec fn chunk_stops(self, is_speech: bool) -> bool {
        self.vad.stops(self.next_vad(is_speech), self.silence as int, self.speech as int)
    }

    /// Whether a chunk calls for a transcription: enough audio has come since the
    /// last one, or speech has just paused, and none is running.
    pub open spec fn chunk_starts_job(self, is_speech: bool) -> bool {
        let next = self.next_vad(is_speech);
        &&& !(next is Idle)
        &&& self.job is None
        &&& {
            ||| self.since + 1 >= self.config.periodic_chunks
            ||| self.vad_state is Speaking && next is SilenceAfterSpeech
        }
    }

    /// The session with one more chunk of audio, before it looks for a transcription.
    pub open spec fn with_chunk(self, is_speech: bool, data: Seq<S>) -> Self {
        let next = self.next_vad(is_speech);
        if next is Idle {
            SessionView { vad_state: next, ..self }
        } else {
            SessionView {
                vad_state: next,
                silence: if next is Speaking {
                    0
                } else {
                    self.silence + 1
                },
                speech: if next is Speaking {
                    self.speech + 1
                } else {
                    self.speech
                },
                since: self.since + 1,
                recorded: self.recorded.push(data),
                ..self
            }
        }
    }

    /// The session after a chunk.
    pub open spec fn after_chunk(self, is_speech: bool, data: Seq<S>) -> Self {
        let heard = self.with_chunk(is_speech, data);
        if self.chunk_starts_job(is_speech) {
            SessionView { since: 0, job: Some(heard.next_job()), ..heard }
        } else {
            heard
        }
    }

    /// The session after the running transcription. A window counts as confirmed
    /// even where its transcription failed.
    pub open spec fn after_job(self, window_text: Option<Seq<char>>) -> Self {
        match self.job {
            Some(JobView { window: Some(w), preview: _ }) => SessionView {
                text: transcript::extended(self.text, window_text),
                confirmed: w.1,
                windows: self.windows.push(w),
                job: None,
                ..self
            },
            _ => SessionView { job: None, ..self },
        }
    }

    /// The session after its end, with the rest of the audio transcribed too.
    pub open spec fn after_rest(self, rest_text: Option<Seq<char>>) -> Self {
        let total = self.recorded.len() as int;
        if self.confirmed < total {
            SessionView {
                text: transcript::extended(self.text, rest_text),
                confirmed: total,
                windows: self.windows.push((self.confirmed, total)),
                ..self
            }
        } else {
            self
        }
    }

    /// Whether there is audio but no text, so that all of it is transcribed in one go,
    /// which is done once at most.
    pub open spec fn needs_fallback(self) -> bool {
        self.text.len() == 0 && self.recorded.len() > 0 && !self.tried_all
    }

    /// The session after the transcription of all its audio in one go.
    pub open spec fn after_fallback(self, full_text: Option<Seq<char>>) -> Self {
        if self.needs_fallback() {
            SessionView {
                text: transcript::cleaned_or_empty(full_text),
                tried_all: true,
                ..self
            }
        } else {
            self
        }
    }

    /// What is left to do once the recording is over.
    pub open spec fn end_step(self) -> EndStepView {
        if self.job is Some {
            EndStepView::AwaitJob
        } else if self.confirmed < self.recorded.len() {
            EndStepView::TranscribeRest(self.confirmed, self.recorded.len() as int)
        } else if self.needs_fallback() {
            EndStepView::TranscribeAll
        } else {
            EndStepView::Conclude
        }
    }

    /// The session after that was done, with what it has yielded.
    pub open spec fn after_end_step(self, result: Option<Seq<char>>) -> Self {
        match self.end_step() {
            EndStepView::AwaitJob => self.after_job(result),
            EndStepView::TranscribeRest(_, _) => self.after_rest(result),
            EndStepView::TranscribeAll => self.after_fallback(result),
            EndStepView::Conclude => self,
        }
    }

    /// How much is left to do at most.
    pub open spec fn end_steps_left(self) -> int {
        let job = if self.job is Some {
            4int
        } else {
            0
        };
        let rest = if self.confirmed < self.recorded.len() {
            2int
        } else {
            0
        };
        let all = if self.needs_fallback() {
            1int
        } else {
            0
        };
        job + rest + all
    }

    /// What the dialog is told at the end.
    pub open spec fn conclusion(self, auto_slots: Seq<usize>) -> Seq<MessageView> {
        if self.text.len() == 0 {
            seq![
                MessageView::UpdateState(
                    TranscriptionState::Error,
                    "No speech detected"@,
                    AudioLevel::Zero,
                ),
                MessageView::Close,
            ]
        } else if auto_slots.len() > 0 {
            auto_slots.map_values(|n: usize| MessageView::AutoSendText(self.text, n)).push(
                MessageView::Close,
            )
        } else {
            seq![
                MessageView::SetText(self.text),
                MessageView::UpdateState(
                    TranscriptionState::Reviewing,
                    "Ready to send"@,
                    AudioLevel::Zero,
                ),
            ]
        }
    }
}

/// What is left to do once the recording is over.
pub enum EndStepView {
    AwaitJob,
    TranscribeRest(int, int),
    TranscribeAll,
    Conclude,
}

/// What the dialog shows after a chunk that leads to `state`.
pub open spec fn chunk_message(state: VadState) -> MessageView {
    match state {
        VadState::Speaking => MessageView::UpdateState(
            TranscriptionState::Processing,
            "Recording..."@,
            AudioLevel::Chunk,
        ),
        VadState::SilenceAfterSpeech => MessageView::UpdateState(
            TranscriptionState::Processing,
            "Transcribing..."@,
            AudioLevel::Chunk,
        ),
        VadState::Idle => MessageView::UpdateState(
            TranscriptionState::Recording,
            "Listening..."@,
            AudioLevel::Chunk,
        ),
    }
}

/// Audio to transcribe: the chunks `[start..end)` and their samples.
#[derive(Debug)]
pub struct Span<S> {
    pub start: usize,
    pub end: usize,
    pub samples: Vec<S>,
}

impl<S> Span<S> {
    /// Whether this is the audio of the chunks `range`.
    pub open spec fn holds(self, recorded: Seq<Seq<S>>, range: (int, int)) -> bool {
        &&& self.start == range.0
        &&& self.end == range.1
        &&& self.samples@ == audio_of(recorded, range)
    }
}

/// A transcription to run in the background.
#[derive(Debug)]
pub struct TranscriptionJob<S> {
    /// Audio whose text is to be confirmed.
    pub window: Option<Span<S>>,
    /// Audio whose text may still change. Nothing is asked of the model where it is empty.
    pub preview: Span<S>,
}

impl<S> TranscriptionJob<S> {
    /// Whether this is the job `j` on the audio `recorded`.
    pub open spec fn asks(self, recorded: Seq<Seq<S>>, j: JobView) -> bool {
        &&& self.window is Some <==> j.window is Some
        &&& self.window matches Some(s) ==> s.holds(recorded, j.window->0)
        &&& self.preview.holds(recorded, j.preview)
    }
}

/// What is to be done after a chunk.
#[derive(Debug)]
pub struct ChunkOutcome<S> {
    pub message: UIMessage,
    pub job: Option<TranscriptionJob<S>>,
    /// The recording is over.
    pub stop: bool,
}

/// What is left to do once the recording is over.
#[derive(Debug)]
pub enum EndStep<S> {
    /// Wait for the transcription that is running.
    AwaitJob,
    /// Transcribe the audio that is not confirmed yet.
    TranscribeRest(Span<S>),
    /// Transcribe all audio in one go.
    TranscribeAll(Span<S>),
    /// Hand over the text.
    Conclude,
}

impl<S> EndStep<S> {
    /// Whether this is the step `v` on the audio `recorded`.
    pub open spec fn is_step(self, recorded: Seq<Seq<S>>, v: EndStepView) -> bool {
        match (self, v) {
            (EndStep::AwaitJob, EndStepView::AwaitJob) => true,
            (EndStep::TranscribeRest(s), EndStepView::TranscribeRest(a, b)) => s.holds(
                recorded,
                (a, b),
            ),
            (EndStep::TranscribeAll(s), EndStepView::TranscribeAll) => s.holds(
                recorded,
                (0, recorded.len() as int),
            ),
            (EndStep::Conclude, EndStepView::Conclude) => true,
            _ => false,
        }
    }
}

/// What is to be done at the end of a session.
#[derive(Debug)]
pub struct Conclusion {
    pub messages: Vec<UIMessage>,
    /// The last message is to wait until the one before it could be read.
    pub pause_before_last: bool,
}

struct PendingJob {
    window_end: Option<usize>,
    total: usize,
}

/// A recording session. `S` is the type of a sample.
pub struct RecordingSession<S> {
    vad: VoiceActivityDetector,
    config: WindowConfig,
    vad_state: VadState,
    silence_chunks: usize,
    speech_chunks: usize,
    chunks_since_last_transcription: usize,
    recorded_audio: Vec<Vec<S>>,
    confirmed_chunks: usize,
    confirmed_text: String,
    pending: Option<PendingJob>,
    tried_all: bool,
    windows: Ghost<Seq<(int, int)>>,
}

impl<S> View for RecordingSession<S> {
    type V = SessionView<S>;

    closed spec fn view(&self) -> SessionView<S> {
        SessionView {
            vad: self.vad,
            config: self.config,
            vad_state: self.vad_state,
            silence: self.silence_chunks as nat,
            speech: self.speech_chunks as nat,
            since: self.chunks_since_last_transcription as nat,
            recorded: chunk_views(self.recorded_audio@),
            confirmed: self.confirmed_chunks as int,
            text: self.confirmed_text@,
            job: match self.pending {
                Some(p) => Some(
                    match p.window_end {
                        Some(e) => JobView {
                            window: Some((self.confirmed_chunks as int, e as int)),
                            preview: (e as int, p.total as int),
                        },
                        None => JobView {
                            window: None,
                            preview: (self.confirmed_chunks as int, p.total as int),
                        },
                    },
                ),
                None => None,
            },
            windows: self.windows@,
            tried_all: self.tried_all,
        }
    }
}

impl<S: Copy> RecordingSession<S> {
    pub fn new(vad: VoiceActivityDetector, config: WindowConfig) -> (r: Self)
        ensures
            r@ == SessionView::<S>::start(vad, config),
            r@.wf(),
    {
        let r = RecordingSession {
            vad,
            config,
            vad_state: VadState::Idle,
            silence_chunks: 0,
            speech_chunks: 0,
            chunks_since_last_transcription: 0,
            recorded_audio: Vec::new(),
            confirmed_chunks: 0,
            confirmed_text: String::new(),
            pending: None,
            tried_all: false,
            windows: Ghost(Seq::empty()),
        };
        assert(r@.recorded =~= Seq::<Seq<S>>::empty());
        r
    }

    /// The message that a session opens with.
    pub fn opening() -> (r: UIMessage)
        ensures
            r@ == MessageView::UpdateState(
                TranscriptionState::Recording,
                "Listening..."@,
                AudioLevel::Zero,
            ),
    {
        UIMessage::UpdateState(
            TranscriptionState::Recording,
            "Listening...".to_owned(),
            AudioLevel::Zero,
        )
    }

    /// Takes in a chunk of audio.
    pub fn on_chunk(&mut self, is_speech: bool, data: Vec<S>) -> (r: ChunkOutcome<S>)
        requires
            old(self)@.wf(),
        ensures
            final(self)@ == old(self)@.after_chunk(is_speech, data@),
            final(self)@.wf(),
            r.message@ == chunk_message(final(self)@.vad_state),
            r.stop == old(self)@.chunk_stops(is_speech),
            r.job is Some <==> old(self)@.chunk_starts_job(is_speech),
            r.job matches Some(j) ==> j.asks(final(self)@.recorded, final(self)@.job->0),
    {
        let ghost before = self@;
        let result = self.vad.process_chunk(
            is_speech,
            self.vad_state,
            self.silence_chunks,
            self.speech_chunks,
        );
        let paused = self.vad_state == VadState::Speaking && result.state
            == VadState::SilenceAfterSpeech;
        self.vad_state = result.state;
        let (state, status) = match result.state {
            VadState::Speaking => (TranscriptionState::Processing, "Recording..."),
            VadState::SilenceAfterSpeech => (TranscriptionState::Processing, "Transcribing..."),
            VadState::Idle => (TranscriptionState::Recording, "Listening..."),
        };
        let message = UIMessage::UpdateState(state, status.to_owned(), AudioLevel::Chunk);
        if result.state == VadState::Idle {
            return ChunkOutcome { message, job: None, stop: result.should_stop };
        }
        let ghost samples = data@;
        self.recorded_audio.push(data);
        proof {
            assert(chunk_views(self.recorded_audio@) =~= before.recorded.push(samples));
            assert(self.recorded_audio@.len() == before.recorded.len() + 1);
        }
        let total = self.recorded_audio.len();
        if result.state == VadState::Speaking {
            self.silence_chunks = 0;
            self.speech_chunks = self.speech_chunks + 1;
        } else {
            self.silence_chunks = self.silence_chunks + 1;
        }
        self.chunks_since_last_transcription = self.chunks_since_last_transcription + 1;
        let due = paused || self.chunks_since_last_transcription >= self.config.periodic_chunks;
        let job = if due && self.pending.is_none() {
            self.chunks_since_last_transcription = 0;
            Some(self.start_job(total))
        } else {
            None
        };
        ChunkOutcome { message, job, stop: result.should_stop }
    }

    /// Asks for the next transcription.
    fn start_job(&mut self, total: usize) -> (r: TranscriptionJob<S>)
        requires
            old(self)@.wf(),
            old(self)@.job is None,
            total == old(self)@.recorded.len(),
        ensures
            final(self)@ == (SessionView { job: Some(old(self)@.next_job()), ..old(self)@ }),
            final(self)@.wf(),
            r.asks(final(self)@.recorded, final(self)@.job->0),
    {
        let confirmed = self.confirmed_chunks;
        let settled = total.saturating_sub(self.config.lag_chunks);
        let can_confirm = settled >= confirmed && settled - confirmed >= self.config.window_chunks;
        if can_confirm {
            let end = confirmed + self.config.window_chunks;
            let window = Span {
                start: confirmed,
                end,
                samples: flatten(&self.recorded_audio, confirmed, end),
            };
            let preview = Span {
                start: end,
                end: total,
                samples: flatten(&self.recorded_audio, end, total),
            };
            self.pending = Some(PendingJob { window_end: Some(end), total });
            TranscriptionJob { window: Some(window), preview }
        } else {
            let preview = Span {
                start: confirmed,
                end: total,
                samples: flatten(&self.recorded_audio, confirmed, total),
            };
            self.pending = Some(PendingJob { window_end: None, total });
            TranscriptionJob { window: None, preview }
        }
    }

    /// Takes in what the running transcription has yielded: the text of its window
    /// and that of its preview, each `None` where it failed or was not asked for.
    pub fn on_job_done(&mut self, window_text: Option<&str>, preview_text: Option<&str>) -> (r:
        UIMessage)
        requires
            old(self)@.wf(),
            old(self)@.job is Some,
        ensures
            final(self)@ == old(self)@.after_job(text_view(window_text)),
            final(self)@.wf(),
            r@ == MessageView::SetConfirmedAndPreview(
                final(self)@.text,
                transcript::cleaned_or_empty(text_view(preview_text)),
            ),
    {
        let ghost before = self@;
        if let Some(job) = self.pending.take() {
            if let Some(end) = job.window_end {
                transcript::extend(&mut self.confirmed_text, window_text);
                let start = self.confirmed_chunks;
                self.confirmed_chunks = end;
                self.windows = Ghost(self.windows@.push((start as int, end as int)));
                assert(self.windows@.drop_last() =~= before.windows);
            }
        }
        UIMessage::SetConfirmedAndPreview(
            self.confirmed_text.clone(),
            transcript::preview(preview_text),
        )
    }

    /// The audio that is not confirmed when the recording ends, if there is any.
    pub fn rest(&self) -> (r: Option<Span<S>>)
        requires
            self@.wf(),
        ensures
            r is Some <==> self@.confirmed < self@.recorded.len(),
            r matches Some(s) ==> s.holds(
                self@.recorded,
                (self@.confirmed, self@.recorded.len() as int),
            ),
    {
        let start = self.confirmed_chunks;
        let end = self.recorded_audio.len();
        if start < end {
            Some(Span { start, end, samples: flatten(&self.recorded_audio, start, end) })
        } else {
            None
        }
    }

    /// Takes in the text of the rest, `None` where its transcription failed.
    pub fn on_rest_done(&mut self, rest_text: Option<&str>)
        requires
            old(self)@.wf(),
            old(self)@.job is None,
        ensures
            final(self)@ == old(self)@.after_rest(text_view(rest_text)),
            final(self)@.wf(),
    {
        let ghost before = self@;
        let start = self.confirmed_chunks;
        let end = self.recorded_audio.len();
        if start < end {
            transcript::extend(&mut self.confirmed_text, rest_text);
            self.confirmed_chunks = end;
            self.windows = Ghost(self.windows@.push((start as int, end as int)));
            assert(self.windows@.drop_last() =~= before.windows);
        }
    }

    /// All of the audio, where it has yielded no text so far.
    pub fn fallback(&self) -> (r: Option<Span<S>>)
        requires
            self@.wf(),
        ensures
            r is Some <==> self@.needs_fallback(),
            r matches Some(s) ==> s.holds(self@.recorded, (0, self@.recorded.len() as int)),
    {
        let end = self.recorded_audio.len();
        if self.confirmed_text.as_str().is_empty() && end > 0 && !self.tried_all {
            Some(Span { start: 0, end, samples: flatten(&self.recorded_audio, 0, end) })
        } else {
            None
        }
    }

    /// Takes in the text of all of the audio, `None` where its transcription failed.
    pub fn on_fallback_done(&mut self, full_text: Option<&str>)
        requires
            old(self)@.wf(),
        ensures
            final(self)@ == old(self)@.after_fallback(text_view(full_text)),
            final(self)@.wf(),
    {
        if self.confirmed_text.as_str().is_empty() && self.recorded_audio.len() > 0
            && !self.tried_all {
            self.confirmed_text = transcript::preview(full_text);
            self.tried_all = true;
        }
    }

    /// What is left to do once the recording is over.
    pub fn end_step(&self) -> (r: EndStep<S>)
        requires
            self@.wf(),
        ensures
            r.is_step(self@.recorded, self@.end_step()),
    {
        if self.pending.is_some() {
            return EndStep::AwaitJob;
        }
        match self.rest() {
            Some(span) => EndStep::TranscribeRest(span),
            None => match self.fallback() {
                Some(span) => EndStep::TranscribeAll(span),
                None => EndStep::Conclude,
            },
        }
    }

    /// The text of the session so far.
    pub fn text(&self) -> (r: &str)
        ensures
            r@ == self@.text,
    {
        self.confirmed_text.as_str()
    }

    /// What to tell the dialog at the end: that nothing was heard, or the text,
    /// for each slot that waits for it or for review.
    pub fn conclude(&self, auto_slots: &Vec<usize>) -> (r: Conclusion)
        ensures
            message_views(r.messages@) == self@.conclusion(auto_slots@),
            r.pause_before_last == (self@.text.len() == 0),
    {
        let mut messages: Vec<UIMessage> = Vec::new();
        if self.confirmed_text.as_str().is_empty() {
            messages.push(
                UIMessage::UpdateState(
                    TranscriptionState::Error,
                    "No speech detected".to_owned(),
                    AudioLevel::Zero,
                ),
            );
            messages.push(UIMessage::Close);
            assert(message_views(messages@) =~= self@.conclusion(auto_slots@));
            return Conclusion { messages, pause_before_last: true };
        }
        if auto_slots.len() > 0 {
            let ghost sent = auto_slots@.map_values(
                |n: usize| MessageView::AutoSendText(self@.text, n),
            );
            let mut i: usize = 0;
            while i < auto_slots.len()
                invariant
                    i <= auto_slots@.len(),
                    sent == auto_slots@.map_values(
                        |n: usize| MessageView::AutoSendText(self@.text, n),
                    ),
                    message_views(messages@) =~= sent.take(i as int),
                decreases auto_slots@.len() - i,
            {
                let ghost before = messages@;
                let message = UIMessage::AutoSendText(self.confirmed_text.clone(), auto_slots[i]);
                messages.push(message);
                assert(message@ == sent[i as int]);
                assert(message_views(messages@) =~= message_views(before).push(message@));
                assert(sent.take(i + 1) =~= sent.take(i as int).push(sent[i as int]));
                i = i + 1;
            }
            messages.push(UIMessage::Close);
            assert(sent.take(i as int) =~= sent);
        } else {
            messages.push(UIMessage::SetText(self.confirmed_text.clone()));
            messages.push(
                UIMessage::UpdateState(
                    TranscriptionState::Reviewing,
                    "Ready to send".to_owned(),
                    AudioLevel::Zero,
                ),
            );
        }
        assert(message_views(messages@) =~= self@.conclusion(auto_slots@));
        Conclusion { messages, pause_before_last: false }
    }
}

/// A command for the shell, with the variables that it finds. Of two variables of
/// one name the later one counts.
#[derive(Debug)]
pub struct OutputCommand {
    pub program: String,
    pub args: Vec<String>,
    pub env: Vec<(String, String)>,
}

/// What a command for the shell says.
pub struct OutputView {
    pub program: Seq<char>,
    pub args: Seq<Seq<char>>,
    pub env: Seq<(Seq<char>, Seq<char>)>,
}

impl View for OutputCommand {
    type V = OutputView;

    open spec fn view(&self) -> OutputView {
        OutputView {
            program: self.program@,
            args: string_views(self.args@),
            env: pair_views(self.env@),
        }
    }
}

/// How text is handed to an output command: the command goes to the shell as it is,
/// and the text and the slot go into its variables, never into the command.
pub open spec fn output_command_of(
    template: Seq<char>,
    text: Seq<char>,
    slot_num: usize,
    extra: Seq<(Seq<char>, Seq<char>)>,
) -> OutputView {
    OutputView {
        program: "sh"@,
        args: seq!["-c"@, template],
        env: seq![("TRANSCRIPTION"@, text), ("SLOT"@, decimal_of(slot_num as nat))] + extra,
    }
}

/// The command that hands `text` to an output command.
pub fn execute_output_command(
    command_template: &str,
    text: &str,
    slot_num: usize,
    extra_env_vars: &[(String, String)],
) -> (r: OutputCommand)
    ensures
        r@ == output_command_of(command_template@, text@, slot_num, pair_views(extra_env_vars@)),
{
    let mut args: Vec<String> = Vec::new();
    args.push("-c".to_owned());
    args.push(command_template.to_owned());
    assert(string_views(args@) =~= seq!["-c"@, command_template@]);
    let mut env: Vec<(String, String)> = Vec::new();
    env.push(("TRANSCRIPTION".to_owned(), text.to_owned()));
    env.push(("SLOT".to_owned(), decimal(slot_num as u64)));
    let ghost all = output_command_of(
        command_template@,
        text@,
        slot_num,
        pair_views(extra_env_vars@),
    ).env;
    let mut i: usize = 0;
    while i < extra_env_vars.len()
        invariant
            i <= extra_env_vars@.len(),
            all == output_command_of(
                command_template@,
                text@,
                slot_num,
                pair_views(extra_env_vars@),
            ).env,
            pair_views(env@) =~= all.take(2 + i),
        decreases extra_env_vars@.len() - i,
    {
        let ghost before = env@;
        let pair = (extra_env_vars[i].0.clone(), extra_env_vars[i].1.clone());
        env.push(pair);
        assert(pair_views(env@) =~= pair_views(before).push((pair.0@, pair.1@)));
        assert(all[2 + i] == (pair.0@, pair.1@));
        i = i + 1;
    }
    assert(all.take(2 + i) =~= all);
    OutputCommand { program: "sh".to_owned(), args, env }
}

/// The shell is handed the same command whatever the text is, so nothing in the text
/// can become part of the command.
pub proof fn lemma_text_never_enters_the_command(
    template: Seq<char>,
    text: Seq<char>,
    other: Seq<char>,
    slot_num: usize,
    extra: Seq<(Seq<char>, Seq<char>)>,
)
    ensures
        output_command_of(template, text, slot_num, extra).program == output_command_of(
            template,
            other,
            slot_num,
            extra,
        ).program,
        output_command_of(template, text, slot_num, extra).args == output_command_of(
            template,
            other,
            slot_num,
            extra,
        ).args,
        output_command_of(template, text, slot_num, extra).env[0] == ("TRANSCRIPTION"@, text),
{
}

/// Something that happens to a session while it records.
pub enum SessionEvent<S> {
    Chunk { is_speech: bool, data: Seq<S> },
    JobDone { window_text: Option<Seq<char>> },
}

impl<S> SessionView<S> {
    /// Whether `event` can happen: only a running transcription can be done.
    pub open spec fn allows(self, event: SessionEvent<S>) -> bool {
        event is JobDone ==> self.job is Some
    }

    /// The session after `event`.
    pub open spec fn after(self, event: SessionEvent<S>) -> Self {
        match event {
            SessionEvent::Chunk { is_speech, data } => self.after_chunk(is_speech, data),
            SessionEvent::JobDone { window_text } => self.after_job(window_text),
        }
    }

    /// The session after all of `events`.
    pub open spec fn after_events(self, events: Seq<SessionEvent<S>>) -> Self
        decreases events.len(),
    {
        if events.len() == 0 {
            self
        } else {
            self.after_events(events.drop_last()).after(events.last())
        }
    }

    /// Whether `events` can happen one after the other.
    pub open spec fn allows_all(self, events: Seq<SessionEvent<S>>) -> bool
        decreases events.len(),
    {
        events.len() == 0 || {
            &&& self.allows_all(events.drop_last())
            &&& self.after_events(events.drop_last()).allows(events.last())
        }
    }
}

/// Every step keeps a session well formed, with its detector and sizes as they were.
pub proof fn lemma_steps_keep_sessions_well_formed<S>(s: SessionView<S>, event: SessionEvent<S>)
    requires
        s.wf(),
        s.allows(event),
    ensures
        s.after(event).wf(),
        s.after(event).config == s.config,
        s.after(event).vad == s.vad,
{
    if let SessionEvent::JobDone { window_text } = event {
        if let Some(JobView { window: Some(w), preview: _ }) = s.job {
            assert(s.windows.push(w).drop_last() =~= s.windows);
        }
    }
}

/// Every session is well formed, whatever happens to it, and while it records
/// only settled audio is confirmed, one full window at a time.
pub proof fn lemma_sessions_confirm_settled_windows<S>(
    vad: VoiceActivityDetector,
    config: WindowConfig,
    events: Seq<SessionEvent<S>>,
)
    requires
        SessionView::<S>::start(vad, config).allows_all(events),
    ensures
        ({
            let s = SessionView::<S>::start(vad, config).after_events(events);
            &&& s.wf()
            &&& s.config == config
            &&& s.vad == vad
            &&& s.confirmed <= s.settled()
            &&& forall|k: int|
                0 <= k < s.windows.len() ==> (#[trigger] s.windows[k]).1 - s.windows[k].0
                    == config.window_chunks
        }),
    decreases events.len(),
{
    if events.len() > 0 {
        lemma_sessions_confirm_settled_windows(vad, config, events.drop_last());
        let s = SessionView::<S>::start(vad, config).after_events(events.drop_last());
        lemma_steps_keep_sessions_well_formed(s, events.last());
    }
}

/// Complete coverage: once the rest is transcribed, the confirmed windows lie end
/// to end over the whole recording. So every chunk is in a window, none is in two,
/// and the audio of the windows in order is all of the audio.
pub proof fn lemma_every_chunk_is_transcribed_once<S>(
    vad: VoiceActivityDetector,
    config: WindowConfig,
    events: Seq<SessionEvent<S>>,
    rest_text: Option<Seq<char>>,
)
    requires
        SessionView::<S>::start(vad, config).allows_all(events),
        SessionView::<S>::start(vad, config).after_events(events).job is None,
    ensures
        ({
            let end = SessionView::<S>::start(vad, config).after_events(events).after_rest(rest_text);
            let total = end.recorded.len() as int;
            &&& end.confirmed == total
            &&& tiles(end.windows, total)
            &&& forall|i: int| 0 <= i < total ==> #[trigger] covered(end.windows, i)
            &&& forall|i: int, k: int, l: int|
                0 <= k < end.windows.len() && 0 <= l < end.windows.len()
                    && #[trigger] within(end.windows[k], i) && #[trigger] within(
                    end.windows[l],
                    i,
                ) ==> k == l
            &&& forall|k: int|
                0 <= k < end.windows.len() - 1 ==> (#[trigger] end.windows[k]).1
                    == end.windows[k + 1].0
            &&& windows_audio(end.recorded, end.windows) == end.recorded.flatten()
        }),
{
    lemma_sessions_confirm_settled_windows(vad, config, events);
    let s = SessionView::<S>::start(vad, config).after_events(events);
    let end = s.after_rest(rest_text);
    let total = end.recorded.len() as int;
    assert(s.windows.push((s.confirmed, total)).drop_last() =~= s.windows);
    assert(tiles(end.windows, total));
    lemma_tiles_cover_a_recording(end.recorded, end.windows);
}

/// What is left to do at the end becomes less with every step, whatever the step
/// yields, and when nothing is left the text is handed over.
pub proof fn lemma_ending_ends<S>(s: SessionView<S>, result: Option<Seq<char>>)
    requires
        s.wf(),
    ensures
        s.after_end_step(result).wf(),
        0 <= s.end_steps_left() <= 7,
        s.end_steps_left() == 0 <==> s.end_step() is Conclude,
        !(s.end_step() is Conclude) ==> s.after_end_step(result).end_steps_left()
            < s.end_steps_left(),
{
    let next = s.after_end_step(result);
    let total = s.recorded.len() as int;
    match s.end_step() {
        EndStepView::AwaitJob => {
            lemma_steps_keep_sessions_well_formed(
                s,
                SessionEvent::JobDone { window_text: result },
            );
        },
        EndStepView::TranscribeRest(_, _) => {
            assert(s.windows.push((s.confirmed, total)).drop_last() =~= s.windows);
        },
        _ => {},
    }
}

/// Nothing is handed over before every chunk is transcribed: then the confirmed
/// windows lie end to end over the whole recording, and there is text unless even
/// all audio in one go has yielded none.
pub proof fn lemma_text_is_complete_when_handed_over<S>(s: SessionView<S>)
    requires
        s.wf(),
        s.end_step() is Conclude,
    ensures
        s.confirmed == s.recorded.len(),
        tiles(s.windows, s.recorded.len() as int),
        s.text.len() > 0 || s.tried_all || s.recorded.len() == 0,
{
}

/// A transcription looks at all audio that is not confirmed: its window, if it has
/// one, starts where the confirmed audio ends, and its preview goes on from there
/// to the newest chunk.
pub proof fn lemma_jobs_look_at_all_unconfirmed_audio<S>(
    s: SessionView<S>,
    is_speech: bool,
    data: Seq<S>,
)
    requires
        s.wf(),
        s.chunk_starts_job(is_speech),
    ensures
        ({
            let next = s.after_chunk(is_speech, data);
            let j = next.job->0;
            let total = next.recorded.len() as int;
            let window = match j.window {
                Some(w) => audio_of(next.recorded, w),
                None => Seq::empty(),
            };
            &&& next.job is Some
            &&& window + audio_of(next.recorded, j.preview) == audio_of(
                next.recorded,
                (s.confirmed, total),
            )
        }),
{
    let next = s.after_chunk(is_speech, data);
    let j = next.job->0;
    let total = next.recorded.len() as int;
    match j.window {
        Some(w) => {
            vstd::seq_lib::lemma_flatten_concat(
                next.recorded.subrange(w.0, w.1),
                next.recorded.subrange(j.preview.0, j.preview.1),
            );
            assert(next.recorded.subrange(w.0, w.1) + next.recorded.subrange(
                j.preview.0,
                j.preview.1,
            ) =~= next.recorded.subrange(s.confirmed, total));
        },
        None => {
            assert(Seq::<S>::empty() + audio_of(next.recorded, j.preview) =~= audio_of(
                next.recorded,
                j.preview,
            ));
        },
    }
}

/// At most one transcription runs at a time, and none that is due waits longer than
/// for the one before it.
pub proof fn lemma_one_transcription_at_a_time<S>(s: SessionView<S>, is_speech: bool)
    ensures
        s.job is Some ==> !s.chunk_starts_job(is_speech),
        s.job is None && !(s.next_vad(is_speech) is Idle) && s.since + 1
            >= s.config.periodic_chunks ==> s.chunk_starts_job(is_speech),
{
}

/// Confirmed text is stable: whatever happens, it is only ever added to at its end.
pub proof fn lemma_confirmed_text_is_stable<S>(s: SessionView<S>, event: SessionEvent<S>)
    requires
        s.wf(),
    ensures
        s.text.is_prefix_of(s.after(event).text),
        s.confirmed <= s.after(event).confirmed,
{
}

/// Nothing is recorded before speech, and from the first speech on every chunk is,
/// in the order in which the chunks came.
pub proof fn lemma_recording_starts_with_speech<S>(
    s: SessionView<S>,
    is_speech: bool,
    data: Seq<S>,
)
    ensures
        s.vad_state is Idle && !is_speech ==> s.after_chunk(is_speech, data).recorded
            == s.recorded,
        !(s.vad_state is Idle) || is_speech ==> s.after_chunk(is_speech, data).recorded
            == s.recorded.push(data),
{
}

/// Text that was recognised reaches every slot that waits for it, once for each
/// time the slot was asked for, and only then the dialog closes.
pub proof fn lemma_every_waiting_slot_gets_the_text<S>(s: SessionView<S>, auto_slots: Seq<usize>)
    requires
        s.text.len() > 0,
        auto_slots.len() > 0,
    ensures
        s.conclusion(auto_slots).len() == auto_slots.len() + 1,
        s.conclusion(auto_slots).last() == MessageView::Close,
        forall|i: int|
            0 <= i < auto_slots.len() ==> #[trigger] s.conclusion(auto_slots)[i]
                == MessageView::AutoSendText(s.text, auto_slots[i]),
{
}

/// The events of silent chunks with the samples `datas`.
pub open spec fn silent_chunks<S>(datas: Seq<Seq<S>>) -> Seq<SessionEvent<S>> {
    datas.map_values(|data: Seq<S>| SessionEvent::Chunk { is_speech: false, data })
}

/// Silence ends a recording: of the silent chunks that follow speech, the first one
/// that comes after `stop_silence_chunks` others does, and no earlier one, provided
/// that there was enough speech before.
pub proof fn lemma_silence_ends_the_recording<S>(s: SessionView<S>, datas: Seq<Seq<S>>)
    requires
        s.vad_state is Speaking,
        s.silence == 0,
    ensures
        ({
            let after = s.after_events(silent_chunks(datas));
            &&& after.silence == datas.len()
            &&& after.speech == s.speech
            &&& after.chunk_stops(false) <==> datas.len() >= s.vad.stop_silence_chunks && s.speech
                >= s.vad.min_speech_chunks
            &&& !after.chunk_stops(true)
        }),
{
    lemma_silence_is_counted(s, datas);
}

proof fn lemma_silence_is_counted<S>(s: SessionView<S>, datas: Seq<Seq<S>>)
    requires
        s.vad_state is Speaking,
        s.silence == 0,
    ensures
        ({
            let after = s.after_events(silent_chunks(datas));
            &&& after.silence == datas.len()
            &&& after.speech == s.speech
            &&& after.vad == s.vad
            &&& !(after.vad_state is Idle)
        }),
    decreases datas.len(),
{
    if datas.len() > 0 {
        lemma_silence_is_counted(s, datas.drop_last());
        assert(silent_chunks(datas).drop_last() =~= silent_chunks(datas.drop_last()));
    }
}

/// Where somebody speaks, no silence is counted.
pub proof fn lemma_speech_ends_silence<S>(s: SessionView<S>, data: Seq<S>)
    ensures
        s.after_chunk(true, data).vad_state is Speaking,
        s.after_chunk(true, data).silence == 0,
        s.after_chunk(true, data).speech == s.speech + 1,
{
}

/// What the transcriptions of windows have yielded while `events` happened, in order.
pub open spec fn window_results<S>(s: SessionView<S>, events: Seq<SessionEvent<S>>) -> Seq<
    Option<Seq<char>>,
>
    decreases events.len(),
{
    if events.len() == 0 {
        Seq::empty()
    } else {
        let before = window_results(s, events.drop_last());
        let job = s.after_events(events.drop_last()).job;
        match events.last() {
            SessionEvent::JobDone { window_text } => if job is Some && job->0.window is Some {
                before.push(window_text)
            } else {
                before
            },
            _ => before,
        }
    }
}

/// The text of a session is what was understood of its windows: their cleaned texts
/// that are not empty, in order, with one space between them. When the recording ends
/// the rest is put behind them in the same way, and what is there already stays.
pub proof fn lemma_text_is_that_of_the_windows<S>(
    vad: VoiceActivityDetector,
    config: WindowConfig,
    events: Seq<SessionEvent<S>>,
    rest_text: Option<Seq<char>>,
)
    ensures
        ({
            let start = SessionView::<S>::start(vad, config);
            let s = start.after_events(events);
            let end = s.after_rest(rest_text);
            let results = window_results(start, events);
            &&& s.text == transcript::spaced_out(transcript::understood(results))
            &&& s.confirmed < s.recorded.len() ==> end.text == transcript::spaced_out(
                transcript::understood(results.push(rest_text)),
            )
            &&& s.confirmed >= s.recorded.len() ==> end.text == s.text
            &&& s.text.is_prefix_of(end.text)
        }),
    decreases events.len(),
{
    let start = SessionView::<S>::start(vad, config);
    let s = start.after_events(events);
    let results = window_results(start, events);
    if events.len() > 0 {
        lemma_text_is_that_of_the_windows(vad, config, events.drop_last(), None);
        let before = start.after_events(events.drop_last());
        if let SessionEvent::JobDone { window_text } = events.last() {
            transcript::lemma_text_is_what_was_understood(
                window_results(start, events.drop_last()),
                window_text,
            );
        }
    }
    transcript::lemma_text_is_what_was_understood(results, rest_text);
    transcript::lemma_pieces_are_joined_by_one_space(s.text, rest_text);
}

/// The end of a recording keeps the text so far: the rest is put behind it, with a
/// space between where both are there, and all audio in one go is only listened to
/// where there is no text at all.
pub proof fn lemma_the_end_keeps_the_text<S>(s: SessionView<S>, result: Option<Seq<char>>)
    ensures
        s.text.is_prefix_of(s.after_rest(result).text),
        s.text.is_prefix_of(s.after_fallback(result).text),
        s.text.is_prefix_of(s.after_end_step(result).text),
        s.text.len() > 0 ==> s.after_fallback(result) == s,
        s.needs_fallback() ==> s.after_fallback(result).text == transcript::cleaned_or_empty(
            result,
        ),
        s.confirmed < s.recorded.len() && s.text.len() > 0 && transcript::cleaned_or_empty(
            result,
        ).len() > 0 ==> s.after_rest(result).text == s.text + seq![' ']
            + transcript::cleaned_or_empty(result),
        s.confirmed < s.recorded.len() && s.text.len() == 0 ==> s.after_rest(result).text
            == transcript::cleaned_or_empty(result),
        s.after_rest(result).recorded == s.recorded,
        s.after_fallback(result).recorded == s.recorded,
{
    transcript::lemma_pieces_are_joined_by_one_space(s.text, result);
}

/// A finished transcription adds the cleaned text of its window, with a space between
/// where both are there, and leaves the audio and the counts alone. One that had no
/// window adds nothing.
pub proof fn lemma_jobs_add_the_text_of_their_window<S>(
    s: SessionView<S>,
    window_text: Option<Seq<char>>,
)
    requires
        s.job is Some,
    ensures
        ({
            let next = s.after_job(window_text);
            let piece = transcript::cleaned_or_empty(window_text);
            &&& next.job is None
            &&& next.recorded == s.recorded
            &&& next.vad_state == s.vad_state
            &&& next.silence == s.silence
            &&& next.speech == s.speech
            &&& next.since == s.since
            &&& s.job->0.window is None ==> next.text == s.text && next.confirmed == s.confirmed
                && next.windows == s.windows
            &&& s.job->0.window matches Some(w) ==> {
                &&& next.confirmed == w.1
                &&& next.windows == s.windows.push(w)
                &&& next.text == if piece.len() == 0 {
                    s.text
                } else if s.text.len() == 0 {
                    piece
                } else {
                    s.text + seq![' '] + piece
                }
            }
        }),
{
    transcript::lemma_pieces_are_joined_by_one_space(s.text, window_text);
}

/// A chunk only adds audio and moves the counts: it never touches text or windows, and
/// before any speech a silent one changes nothing at all.
pub proof fn lemma_chunks_only_add_audio<S>(s: SessionView<S>, is_speech: bool, data: Seq<S>)
    ensures
        ({
            let next = s.after_chunk(is_speech, data);
            let heard = is_speech || !(s.vad_state is Idle);
            &&& next.text == s.text
            &&& next.confirmed == s.confirmed
            &&& next.windows == s.windows
            &&& next.tried_all == s.tried_all
            &&& next.vad_state is Speaking <==> is_speech
            &&& !heard ==> next == s
            &&& heard && !is_speech ==> next.silence == s.silence + 1 && next.speech == s.speech
            &&& is_speech ==> next.silence == 0 && next.speech == s.speech + 1
            &&& s.job is Some ==> next.job == s.job
            &&& heard ==> next.since == if next.job is Some && s.job is None {
                0
            } else {
                s.since + 1
            }
        }),
{
}

/// When a transcription starts, and what it looks at: it starts where none is running
/// and either enough chunks have come since the last one or speech has just paused. It
/// confirms the next window as soon as that is older than the lag, and always looks
/// at all that follows up to the newest chunk.
pub proof fn lemma_when_and_what_is_transcribed<S>(
    s: SessionView<S>,
    is_speech: bool,
    data: Seq<S>,
)
    requires
        s.wf(),
    ensures
        ({
            let next = s.after_chunk(is_speech, data);
            let total = s.recorded.len() + 1;
            let window = s.config.window_chunks as int;
            let lag = s.config.lag_chunks as int;
            &&& s.chunk_starts_job(is_speech) <==> s.job is None && (is_speech || !(
            s.vad_state is Idle)) && (s.since + 1 >= s.config.periodic_chunks || (
            s.vad_state is Speaking && !is_speech))
            &&& s.job is None ==> (next.job is Some <==> s.chunk_starts_job(is_speech))
            &&& s.chunk_starts_job(is_speech) ==> {
                let j = next.job->0;
                &&& window > 0 ==> (j.window is Some <==> s.confirmed + window + lag <= total)
                &&& j.window matches Some(w) ==> w == (s.confirmed, s.confirmed + window)
                    && j.preview == (s.confirmed + window, total as int)
                &&& j.window is None ==> j.preview == (s.confirmed, total as int)
            }
        }),
{
}

/// While a recording runs, the newest chunks, as many as the lag says, are not confirmed.
pub proof fn lemma_newest_audio_is_not_confirmed<S>(
    vad: VoiceActivityDetector,
    config: WindowConfig,
    events: Seq<SessionEvent<S>>,
)
    requires
        SessionView::<S>::start(vad, config).allows_all(events),
    ensures
        ({
            let s = SessionView::<S>::start(vad, config).after_events(events);
            s.confirmed > 0 ==> s.confirmed + config.lag_chunks <= s.recorded.len()
        }),
{
    lemma_sessions_confirm_settled_windows(vad, config, events);
}

/// The samples of the chunks that hold speech or follow one that does.
pub open spec fn heard_chunks<S>(events: Seq<SessionEvent<S>>, heard: bool) -> Seq<Seq<S>>
    decreases events.len(),
{
    if events.len() == 0 {
        Seq::empty()
    } else {
        match events[0] {
            SessionEvent::Chunk { is_speech, data } => if heard || is_speech {
                seq![data] + heard_chunks(events.drop_first(), true)
            } else {
                heard_chunks(events.drop_first(), false)
            },
            SessionEvent::JobDone { .. } => heard_chunks(events.drop_first(), heard),
        }
    }
}

/// A recording holds every chunk from the first one with speech on, in order, and
/// nothing else, whatever is transcribed meanwhile.
pub proof fn lemma_recording_holds_all_that_was_heard<S>(
    s: SessionView<S>,
    events: Seq<SessionEvent<S>>,
)
    ensures
        s.after_events(events).recorded == s.recorded + heard_chunks(
            events,
            !(s.vad_state is Idle),
        ),
    decreases events.len(),
{
    if events.len() == 0 {
        assert(s.recorded + Seq::<Seq<S>>::empty() =~= s.recorded);
    } else {
        let next = s.after(events[0]);
        let rest = events.drop_first();
        lemma_events_one_by_one(s, events);
        lemma_recording_holds_all_that_was_heard(next, rest);
        match events[0] {
            SessionEvent::Chunk { is_speech, data } => {
                if is_speech || !(s.vad_state is Idle) {
                    assert(s.recorded.push(data) + heard_chunks(rest, true) =~= s.recorded + (seq![
                        data,
                    ] + heard_chunks(rest, true)));
                }
            },
            _ => {},
        }
    }
}

/// What happens first can be taken first.
proof fn lemma_events_one_by_one<S>(s: SessionView<S>, events: Seq<SessionEvent<S>>)
    requires
        events.len() > 0,
    ensures
        s.after_events(events) == s.after(events[0]).after_events(events.drop_first()),
    decreases events.len(),
{
    if events.len() == 1 {
        assert(events.drop_last() =~= Seq::<SessionEvent<S>>::empty());
        assert(events.drop_first() =~= Seq::<SessionEvent<S>>::empty());
        assert(s.after_events(events.drop_last()) == s);
    } else {
        lemma_events_one_by_one(s, events.drop_last());
        assert(events.drop_last().drop_first() =~= events.drop_first().drop_last());
    }
}

/// How a session ends: without text it says so and sends nothing, with text that no
/// slot waits for it shows that text, as it is, for review.
pub proof fn lemma_text_is_handed_over_as_it_is<S>(s: SessionView<S>, auto_slots: Seq<usize>)
    ensures
        s.text.len() == 0 ==> forall|i: int|
            0 <= i < s.conclusion(auto_slots).len() ==> !((
            #[trigger] s.conclusion(auto_slots)[i]) is AutoSendText) && !(s.conclusion(
                auto_slots,
            )[i] is SetText),
        s.text.len() == 0 ==> s.conclusion(auto_slots).last() == MessageView::Close,
        s.text.len() > 0 && auto_slots.len() == 0 ==> {
            &&& s.conclusion(auto_slots)[0] == MessageView::SetText(s.text)
            &&& !s.conclusion(auto_slots).contains(MessageView::Close)
        },
{
    if s.text.len() > 0 && auto_slots.len() == 0 {
        let c = s.conclusion(auto_slots);
        assert(c[0] is SetText && c[1] is UpdateState && c.len() == 2);
    }
}

/// An output command runs the template in a shell, and finds the text, the slot's
/// number and all other variables, as they are, in that order.
pub proof fn lemma_output_command_gets_everything(
    template: Seq<char>,
    text: Seq<char>,
    slot_num: usize,
    extra: Seq<(Seq<char>, Seq<char>)>,
)
    ensures
        ({
            let c = output_command_of(template, text, slot_num, extra);
            &&& c.program == "sh"@
            &&& c.args.len() == 2 && c.args[0] == "-c"@ && c.args[1] == template
            &&& c.env.len() == 2 + extra.len()
            &&& c.env[0] == ("TRANSCRIPTION"@, text)
            &&& c.env[1].0 == "SLOT"@
            &&& crate::text::usize_of(c.env[1].1) == Some(slot_num)
            &&& c.env.skip(2) == extra
        }),
{
    crate::text::lemma_decimal_reads_back(slot_num);
    assert(output_command_of(template, text, slot_num, extra).env.skip(2) =~= extra);
}

/// The steps of the end come in order: first the running transcription is waited for,
/// then all audio that is not confirmed is transcribed, and only where that leaves no
/// text all audio in one go.
pub proof fn lemma_order_of_the_end<S>(s: SessionView<S>)
    ensures
        s.end_step() is AwaitJob <==> s.job is Some,
        s.job is None && s.confirmed < s.recorded.len() ==> s.end_step()
            == EndStepView::TranscribeRest(s.confirmed, s.recorded.len() as int),
        s.end_step() is TranscribeAll ==> s.text.len() == 0 && s.job is None && s.confirmed
            >= s.recorded.len() && s.recorded.len() > 0 && !s.tried_all,
        s.end_step() is Conclude ==> s.job is None && s.confirmed >= s.recorded.len() && (
        s.text.len() > 0 || s.recorded.len() == 0 || s.tried_all),
{
}

/// A span carries the audio of its own chunks, a job that of its window and its preview,
/// and a step of the end that of what it is to transcribe.
pub proof fn lemma_spans_carry_their_audio<S>(
    span: Span<S>,
    job: TranscriptionJob<S>,
    step: EndStep<S>,
    recorded: Seq<Seq<S>>,
    range: (int, int),
    j: JobView,
    v: EndStepView,
)
    ensures
        span.holds(recorded, range) <==> span.start == range.0 && span.end == range.1
            && span.samples@ == audio_of(recorded, range),
        job.asks(recorded, j) ==> job.preview.samples@ == audio_of(recorded, j.preview)
            && job.preview.start == j.preview.0 && job.preview.end == j.preview.1,
        job.asks(recorded, j) ==> (job.window is Some <==> j.window is Some),
        job.asks(recorded, j) && job.window is Some ==> job.window->0.samples@ == audio_of(
            recorded,
            j.window->0,
        ) && job.window->0.start == (j.window->0).0 && job.window->0.end == (j.window->0).1,
        step.is_step(recorded, v) ==> {
            &&& step is AwaitJob <==> v is AwaitJob
            &&& step is Conclude <==> v is Conclude
            &&& step matches EndStep::TranscribeRest(s) ==> v is TranscribeRest && s.samples@
                == audio_of(recorded, (v->TranscribeRest_0, v->TranscribeRest_1))
            &&& step matches EndStep::TranscribeAll(s) ==> v is TranscribeAll && s.samples@
                == audio_of(recorded, (0, recorded.len() as int))
        },
{
}

/// The view of a message says what the message says, and a list of messages has the
/// view of each at its place.
pub proof fn lemma_views_of_messages(
    messages: Seq<UIMessage>,
    i: int,
    state: TranscriptionState,
    level: AudioLevel,
    a: String,
    b: String,
    n: usize,
    destinations: Vec<DestinationSlot>,
    ids: Vec<u64>,
)
    ensures
        message_views(messages).len() == messages.len(),
        0 <= i < messages.len() ==> message_views(messages)[i] == messages[i]@,
        UIMessage::UpdateState(state, a, level)@ == MessageView::UpdateState(state, a@, level),
        UIMessage::SetText(a)@ == MessageView::SetText(a@),
        UIMessage::SetTextPreview(a)@ == MessageView::SetTextPreview(a@),
        UIMessage::SetConfirmedAndPreview(a, b)@ == MessageView::SetConfirmedAndPreview(a@, b@),
        UIMessage::AutoSendText(a, n)@ == MessageView::AutoSendText(a@, n),
        UIMessage::SetDestinations(destinations)@ == MessageView::SetDestinations(
            crate::dialog::destination_views(destinations@),
        ),
        UIMessage::StoreHandlerWindowIds(ids)@ == MessageView::StoreHandlerWindowIds(ids@),
        UIMessage::CloseImmediately@ == MessageView::CloseImmediately,
        UIMessage::Close@ == MessageView::Close,
{
}

/// What is shown while a chunk comes in: that one is listened for before any speech,
/// that it is recorded while there is speech, and that it is transcribed in a pause.
pub proof fn lemma_states_while_recording(state: VadState)
    ensures
        chunk_message(state) == MessageView::UpdateState(
            if state is Idle {
                TranscriptionState::Recording
            } else {
                TranscriptionState::Processing
            },
            if state is Idle {
                "Listening..."@
            } else if state is Speaking {
                "Recording..."@
            } else {
                "Transcribing..."@
            },
            AudioLevel::Chunk,
        ),
{
}

/// A session starts with nothing heard, nothing confirmed, no text and no transcription
/// running.
pub proof fn lemma_sessions_start_empty<S>(vad: VoiceActivityDetector, config: WindowConfig)
    ensures
        ({
            let s = SessionView::<S>::start(vad, config);
            &&& s.vad == vad && s.config == config
            &&& s.vad_state is Idle
            &&& s.silence == 0 && s.speech == 0 && s.since == 0
            &&& s.recorded.len() == 0
            &&& s.confirmed == 0
            &&& s.text.len() == 0
            &&& s.job is None
            &&& s.windows.len() == 0
            &&& !s.tried_all
            &&& s.end_step() is Conclude
        }),
{
}

} // verus!
