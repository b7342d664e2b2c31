//! Audio capture: the recorder's settings, sample decoding and the detection of
//! voice activity.
use crate::pulse;
use crate::pulse::{
    description_of, has_source, name_result_view, name_views, PulseError, PulseErrorView,
};
use crate::text::{string_view, text_view};
use vstd::prelude::*;

verus! {

/// Where the voice activity detector stands in an utterance.
#[derive(Debug, Clone, Copy, PartialEq, Eq, Structural)]
pub enum VadState {
    /// No speech yet.
    Idle,
    /// The last chunk held speech.
    Speaking,
    /// There was speech before, and the last chunk was silent.
    SilenceAfterSpeech,
}

/// What the detector makes of one chunk.
#[derive(Debug)]
pub struct VadResult {
    pub state: VadState,
    pub should_stop: bool,
}

impl From<VadState> for VadResult {
    fn from(state: VadState) -> (r: Self) {
        VadResult { state, should_stop: false }
    }
}

impl vstd::std_specs::convert::FromSpecImpl<VadState> for VadResult {
    open spec fn obeys_from_spec() -> bool {
        true
    }

    open spec fn from_spec(state: VadState) -> VadResult {
        VadResult { state, should_stop: false }
    }
}

/// The state that follows `state` on a chunk that holds speech or not.
pub open spec fn vad_next(state: VadState, is_speech: bool) -> VadState {
    if is_speech {
        VadState::Speaking
    } else if state is Idle {
        VadState::Idle
    } else {
        VadState::SilenceAfterSpeech
    }
}

/// Detects the start of speech and the silence that ends it.
///
/// Both thresholds count chunks: `min_speech_chunks` is the speech that must have
/// been heard, `stop_silence_chunks` the silence after it that ends a recording.
#[derive(Debug, Clone, Copy)]
pub struct VoiceActivityDetector {
    pub min_speech_chunks: usize,
    pub stop_silence_chunks: usize,
}

impl VoiceActivityDetector {
    pub fn new(min_speech_chunks: usize, stop_silence_chunks: usize) -> (r: Self)
        ensures
            r.min_speech_chunks == min_speech_chunks,
            r.stop_silence_chunks == stop_silence_chunks,
    {
        VoiceActivityDetector { min_speech_chunks, stop_silence_chunks }
    }

    /// Whether a chunk that leads to `next` ends the recording, after
    /// `silence_chunks` of silence and `speech_chunks` of speech.
    pub open spec fn stops(self, next: VadState, silence_chunks: int, speech_chunks: int) -> bool {
        &&& next is SilenceAfterSpeech
        &&& silence_chunks >= self.stop_silence_chunks
        &&& speech_chunks >= self.min_speech_chunks
    }

    /// Follows one chunk. The two counts are those of the chunks before it.
    pub fn process_chunk(
        &self,
        is_speech: bool,
        current_state: VadState,
        silence_chunks: usize,
        speech_chunks: usize,
    ) -> (r: VadResult)
        ensures
            r.state == vad_next(current_state, is_speech),
            r.should_stop == self.stops(r.state, silence_chunks as int, speech_chunks as int),
    {
        let has_minimum_speech = speech_chunks >= self.min_speech_chunks;
        let state = match (current_state, is_speech) {
            (VadState::Idle, true) => VadState::Speaking,
            (VadState::Idle, false) => VadState::Idle,
            (VadState::Speaking, true) => VadState::Speaking,
            (VadState::Speaking, false) => VadState::SilenceAfterSpeech,
            (VadState::SilenceAfterSpeech, true) => VadState::Speaking,
            (VadState::SilenceAfterSpeech, false) => VadState::SilenceAfterSpeech,
        };
        let should_stop = state == VadState::SilenceAfterSpeech && silence_chunks
            >= self.stop_silence_chunks && has_minimum_speech;
        VadResult { state, should_stop }
    }
}

/// The state after a whole sequence of chunks, each of which holds speech or not.
pub open spec fn vad_run(state: VadState, speech: Seq<bool>) -> VadState
    decreases speech.len(),
{
    if speech.len() == 0 {
        state
    } else {
        vad_next(vad_run(state, speech.drop_last()), speech.last())
    }
}

/// A detector that starts idle stays idle exactly as long as no chunk holds speech.
pub proof fn lemma_idle_until_speech(speech: Seq<bool>)
    ensures
        vad_run(VadState::Idle, speech) is Idle <==> (forall|i: int|
            0 <= i < speech.len() ==> !#[trigger] speech[i]),
    decreases speech.len(),
{
    if speech.len() > 0 {
        let front = speech.drop_last();
        lemma_idle_until_speech(front);
        assert forall|i: int| 0 <= i < front.len() implies front[i] == speech[i] by {}
        if vad_run(VadState::Idle, speech) is Idle {
            assert forall|i: int| 0 <= i < speech.len() implies !#[trigger] speech[i] by {
                if i < front.len() {
                    assert(!front[i]);
                }
            }
        } else if !speech.last() {
            let k = choose|i: int| 0 <= i < front.len() && #[trigger] front[i];
            assert(speech[k]);
        } else {
            assert(speech[speech.len() - 1]);
        }
    }
}

/// Once there was speech, a detector says at every later chunk whether it held
/// speech: it never falls back to idle.
pub proof fn lemma_speech_is_remembered(state: VadState, speech: Seq<bool>)
    requires
        !(state is Idle),
    ensures
        !(vad_run(state, speech) is Idle),
    decreases speech.len(),
{
    if speech.len() > 0 {
        lemma_speech_is_remembered(state, speech.drop_last());
    }
}

/// A chunk of speech never ends a recording, nor does silence before any speech.
pub proof fn lemma_only_silence_after_speech_stops(
    detector: VoiceActivityDetector,
    state: VadState,
    is_speech: bool,
    silence_chunks: int,
    speech_chunks: int,
)
    requires
        detector.stops(vad_next(state, is_speech), silence_chunks, speech_chunks),
    ensures
        !is_speech,
        !(state is Idle),
{
}

/// A piece of audio and how loud it is. `S` is the type of a sample.
#[derive(Debug, Clone)]
pub struct AudioChunk<S> {
    pub data: Vec<S>,
    pub rms: S,
}

/// A command to a recording.
#[derive(Debug, Clone, Copy, PartialEq, Eq, Structural)]
pub enum RecordingCommand {
    Stop,
}

/// What is to be recorded, and how.
#[derive(Debug)]
pub struct AudioRecorder {
    source_name: Option<String>,
    sample_rate: u32,
    chunk_size: usize,
}

/// What a recorder is set to.
pub struct RecorderView {
    /// The source, `None` for the default one.
    pub source_name: Option<Seq<char>>,
    pub sample_rate: u32,
    pub chunk_size: usize,
}

impl View for AudioRecorder {
    type V = RecorderView;

    closed spec fn view(&self) -> RecorderView {
        RecorderView {
            source_name: string_view(self.source_name),
            sample_rate: self.sample_rate,
            chunk_size: self.chunk_size,
        }
    }
}

impl RecorderView {
    /// The source that a recorder listens to, given the name of the default one.
    pub open spec fn source(self, default_source: Option<Seq<char>>) -> Result<
        Seq<char>,
        PulseErrorView,
    > {
        match (self.source_name, default_source) {
            (Some(name), _) => Ok(name),
            (None, Some(name)) => Ok(name),
            (None, None) => Err(PulseErrorView::NoDefaultName),
        }
    }

    /// The description of that source, by the descriptions that were given for it.
    pub open spec fn device_name(
        self,
        default_source: Option<Seq<char>>,
        descriptions: Seq<Option<Seq<char>>>,
    ) -> Result<Seq<char>, PulseErrorView> {
        match self.source(default_source) {
            Ok(name) => description_of(name, descriptions),
            Err(e) => Err(e),
        }
    }
}

/// The number that two bytes hold in two's complement, the low one first.
pub open spec fn sample_of(low: u8, high: u8) -> int {
    if high < 128 {
        high * 256 + low
    } else {
        high * 256 + low - 65536
    }
}

/// The samples in a buffer, each of two bytes; an odd byte at the end is none.
pub open spec fn samples_of(bytes: Seq<u8>) -> Seq<i16> {
    Seq::new(
        bytes.len() / 2,
        |i: int| sample_of(bytes[2 * i], bytes[2 * i + 1]) as i16,
    )
}

impl AudioRecorder {
    /// A recorder for a source, which must be one of `sources`, or for the default one.
    pub fn new(
        sample_rate: u32,
        source_name: Option<String>,
        chunk_size: usize,
        sources: &Vec<Option<String>>,
    ) -> (r: Result<Self, PulseError>)
        ensures
            r is Ok <==> match string_view(source_name) {
                Some(name) => has_source(name_views(sources@), name),
                None => true,
            },
            r matches Ok(a) ==> a@ == (RecorderView {
                source_name: string_view(source_name),
                sample_rate,
                chunk_size,
            }),
            r matches Err(e) ==> Some(e@) == match string_view(source_name) {
                Some(name) => Some(PulseErrorView::SourceNotFound(name)),
                None => None,
            },
    {
        if let Some(name) = &source_name {
            if !pulse::source_exists(sources, name.as_str()) {
                return Err(PulseError::SourceNotFound(name.clone()));
            }
        }
        Ok(AudioRecorder { source_name, sample_rate, chunk_size })
    }

    /// The source to listen to; `None` stands for the default one.
    pub fn source_name(&self) -> (r: Option<&str>)
        ensures
            text_view(r) == self@.source_name,
    {
        match &self.source_name {
            Some(s) => Some(s.as_str()),
            None => None,
        }
    }

    /// The source to ask about, given the name of the default one.
    pub fn source_to_describe(&self, default_source: Option<&str>) -> (r: Result<
        String,
        PulseError,
    >)
        ensures
            name_result_view(r) == self@.source(text_view(default_source)),
    {
        match &self.source_name {
            Some(name) => Ok(name.clone()),
            None => pulse::default_name(default_source),
        }
    }

    /// The name of the device, by the descriptions that were given for its source.
    pub fn get_device_name(
        &self,
        default_source: Option<&str>,
        descriptions: &Vec<Option<String>>,
    ) -> (r: Result<String, PulseError>)
        ensures
            name_result_view(r) == self@.device_name(
                text_view(default_source),
                name_views(descriptions@),
            ),
    {
        match self.source_to_describe(default_source) {
            Ok(name) => pulse::get_source_description(name.as_str(), descriptions),
            Err(e) => Err(e),
        }
    }

    /// The sample rate of what is recorded, which is the one that was asked for.
    pub fn get_actual_sample_rate(&self) -> (r: Result<u32, PulseError>)
        ensures
            r == Ok::<u32, PulseError>(self@.sample_rate),
    {
        Ok(self.sample_rate)
    }

    /// How many bytes a chunk takes: two for each sample.
    pub fn buffer_size(&self) -> (r: usize)
        requires
            self@.chunk_size * 2 <= usize::MAX,
        ensures
            r == self@.chunk_size * 2,
    {
        self.chunk_size * 2
    }
}

/// Reads samples of 16 bits, the low byte first.
pub fn decode_samples(bytes: &[u8]) -> (r: Vec<i16>)
    ensures
        r@ == samples_of(bytes@),
{
    let mut samples: Vec<i16> = Vec::new();
    let len = bytes.len();
    let count = len / 2;
    let ghost all = samples_of(bytes@);
    let mut i: usize = 0;
    while i < count
        invariant
            len == bytes@.len(),
            count == len / 2,
            i <= count,
            all == samples_of(bytes@),
            samples@ =~= all.take(i as int),
        decreases count - i,
    {
        let low = bytes[2 * i] as i32;
        let high = bytes[2 * i + 1] as i32;
        let sample = if high < 128 {
            high * 256 + low
        } else {
            high * 256 + low - 65536
        };
        samples.push(sample as i16);
        assert(all[i as int] == sample as i16);
        i = i + 1;
    }
    assert(all.take(i as int) =~= all);
    samples
}

/// Every sample has bytes of its own: different bytes are different samples, and
/// each sample fits into 16 bits.
pub proof fn lemma_samples_differ(a: (u8, u8), b: (u8, u8))
    ensures
        -32768 <= sample_of(a.0, a.1) <= 32767,
        sample_of(a.0, a.1) == sample_of(b.0, b.1) <==> a == b,
{
}

/// What happened last while audio is read.
#[derive(Debug, Clone, Copy, PartialEq, Eq, Structural)]
pub enum ReadEvent {
    /// No command waits.
    NoCommand,
    /// A command to stop was seen.
    StopSeen,
    /// A chunk was read.
    ChunkRead,
    ReadFailed,
    /// The chunk was taken.
    ChunkSent,
    /// Nobody takes chunks any more.
    NobodyListens,
}

/// What to do next while audio is read.
#[derive(Debug, Clone, Copy, PartialEq, Eq, Structural)]
pub enum ReadAction {
    LookForCommand,
    ReadChunk,
    SendChunk,
    End,
}

/// What to do next: a stop, a failure or the lack of a listener ends the reading, and
/// else every chunk that is read is sent.
pub open spec fn read_action(event: ReadEvent) -> ReadAction {
    match event {
        ReadEvent::NoCommand => ReadAction::ReadChunk,
        ReadEvent::ChunkRead => ReadAction::SendChunk,
        ReadEvent::ChunkSent => ReadAction::LookForCommand,
        ReadEvent::StopSeen => ReadAction::End,
        ReadEvent::ReadFailed => ReadAction::End,
        ReadEvent::NobodyListens => ReadAction::End,
    }
}

/// What to do next while audio is read.
pub fn next_read_action(event: ReadEvent) -> (r: ReadAction)
    ensures
        r == read_action(event),
        r == ReadAction::End <==> event == ReadEvent::StopSeen || event == ReadEvent::ReadFailed
            || event == ReadEvent::NobodyListens,
        r == ReadAction::SendChunk <==> event == ReadEvent::ChunkRead,
{
    match event {
        ReadEvent::NoCommand => ReadAction::ReadChunk,
        ReadEvent::ChunkRead => ReadAction::SendChunk,
        ReadEvent::ChunkSent => ReadAction::LookForCommand,
        ReadEvent::StopSeen => ReadAction::End,
        ReadEvent::ReadFailed => ReadAction::End,
        ReadEvent::NobodyListens => ReadAction::End,
    }
}

/// A sample is what its two bytes hold, the low one first, as a number of 16 bits with
/// a sign.
pub proof fn lemma_samples_are_twos_complement(low: u8, high: u8)
    ensures
        high < 128 ==> sample_of(low, high) == 256 * high + low,
        high >= 128 ==> sample_of(low, high) + 65536 == 256 * high + low,
        sample_of(low, high) < 0 <==> high >= 128,
{
}

/// Samples stand in a buffer one behind the other: those of two buffers in a row are the
/// samples of the first followed by those of the second, and two bytes are one sample.
pub proof fn lemma_samples_follow_each_other(a: Seq<u8>, b: Seq<u8>, low: u8, high: u8)
    requires
        a.len() % 2 == 0,
    ensures
        samples_of(a + b) == samples_of(a) + samples_of(b),
        samples_of(seq![low, high]) == seq![sample_of(low, high) as i16],
        samples_of(seq![low]).len() == 0,
        samples_of(a).len() == a.len() / 2,
{
    let all = a + b;
    assert forall|i: int| 0 <= i < samples_of(all).len() implies samples_of(all)[i] == (
    samples_of(a) + samples_of(b))[i] by {
        if i >= a.len() / 2 {
            let k = i - a.len() / 2;
            assert(all[2 * i] == b[2 * k]);
            assert(all[2 * i + 1] == b[2 * k + 1]);
        }
    }
    assert(samples_of(all) =~= samples_of(a) + samples_of(b));
    assert(samples_of(seq![low, high]) =~= seq![sample_of(low, high) as i16]);
}

/// The detector speaks exactly where the chunk does, is idle exactly where it was idle
/// and still is silent, and a chunk ends the recording exactly where it is silent, was
/// preceded by speech, and both counts have been reached.
pub proof fn lemma_what_the_detector_says(
    detector: VoiceActivityDetector,
    state: VadState,
    is_speech: bool,
    silence_chunks: int,
    speech_chunks: int,
)
    ensures
        vad_next(state, is_speech) is Speaking <==> is_speech,
        vad_next(state, is_speech) is Idle <==> state is Idle && !is_speech,
        detector.stops(vad_next(state, is_speech), silence_chunks, speech_chunks) <==> !is_speech
            && !(state is Idle) && silence_chunks >= detector.stop_silence_chunks && speech_chunks
            >= detector.min_speech_chunks,
{
}

/// A recorder asks about its own source where it has one, whatever the default is, and
/// about the default one otherwise.
pub proof fn lemma_recorders_ask_about_their_source(
    recorder: RecorderView,
    default_source: Option<Seq<char>>,
    descriptions: Seq<Option<Seq<char>>>,
)
    ensures
        recorder.source_name matches Some(name) ==> recorder.source(default_source) == Ok::<
            Seq<char>,
            PulseErrorView,
        >(name),
        recorder.source_name is None && default_source is Some ==> recorder.source(default_source)
            == Ok::<Seq<char>, PulseErrorView>(default_source->0),
        recorder.source_name is None && default_source is None ==> recorder.source(
            default_source,
        ) is Err,
        recorder.source(default_source) matches Ok(name) ==> recorder.device_name(
            default_source,
            descriptions,
        ) == description_of(name, descriptions),
        recorder.source(default_source) is Err ==> recorder.device_name(
            default_source,
            descriptions,
        ) is Err,
{
}

} // verus!
