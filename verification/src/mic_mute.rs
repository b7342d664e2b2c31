//! Unmuting the microphone for a recording, and muting it again afterwards.
use vstd::prelude::*;

verus! {

/// A request to mute or unmute a source.
#[derive(Debug, Clone, Copy, PartialEq, Eq, Structural)]
pub struct SetMute {
    pub source_index: u32,
    pub mute: bool,
}

/// Whether a source is muted once a request has been met.
pub open spec fn muted_after(muted: bool, request: Option<SetMute>) -> bool {
    match request {
        Some(r) => r.mute,
        None => muted,
    }
}

/// Remembers whether the microphone was muted.
#[derive(Debug)]
pub struct MicMuteManager {
    was_muted: bool,
    source_index: Option<u32>,
}

/// What a manager remembers.
pub struct MuteView {
    pub was_muted: bool,
    pub source_index: Option<u32>,
}

impl View for MicMuteManager {
    type V = MuteView;

    closed spec fn view(&self) -> MuteView {
        MuteView { was_muted: self.was_muted, source_index: self.source_index }
    }
}

/// The request that unmutes a source for a recording, if it takes one.
pub open spec fn unmute_request(source_index: u32, muted: bool) -> Option<SetMute> {
    if muted {
        Some(SetMute { source_index, mute: false })
    } else {
        None
    }
}

impl MuteView {
    /// The request that puts the source back as it was, if it takes one.
    pub open spec fn restore_request(self) -> Option<SetMute> {
        match self.source_index {
            Some(source_index) if self.was_muted => Some(SetMute { source_index, mute: true }),
            _ => None,
        }
    }
}

impl MicMuteManager {
    /// Unmutes a source where it is muted, and remembers how it was.
    pub fn unmute_if_needed(source_index: u32, muted: bool) -> (r: (Self, Option<SetMute>))
        ensures
            r.0@ == (MuteView { was_muted: muted, source_index: Some(source_index) }),
            r.1 == unmute_request(source_index, muted),
    {
        let request = if muted {
            Some(SetMute { source_index, mute: false })
        } else {
            None
        };
        (MicMuteManager { was_muted: muted, source_index: Some(source_index) }, request)
    }

    /// The request that puts the source back as it was.
    pub fn restore(&self) -> (r: Option<SetMute>)
        ensures
            r == self@.restore_request(),
    {
        match self.source_index {
            Some(source_index) => if self.was_muted {
                Some(SetMute { source_index, mute: true })
            } else {
                None
            },
            None => None,
        }
    }
}

/// For the recording the source is not muted, and afterwards it is as it was. Every
/// request is about that source.
pub proof fn lemma_mute_state_is_restored(source_index: u32, muted: bool)
    ensures
        ({
            let unmute = unmute_request(source_index, muted);
            let manager = MuteView { was_muted: muted, source_index: Some(source_index) };
            let restore = manager.restore_request();
            &&& !muted_after(muted, unmute)
            &&& muted_after(muted_after(muted, unmute), restore) == muted
            &&& unmute matches Some(r) ==> r.source_index == source_index
            &&& restore matches Some(r) ==> r.source_index == source_index
        }),
{
}

/// A source that is not muted is left alone, before and after the recording.
pub proof fn lemma_open_microphones_are_left_alone(source_index: u32)
    ensures
        unmute_request(source_index, false) is None,
        (MuteView { was_muted: false, source_index: Some(source_index) }).restore_request() is None,
        unmute_request(source_index, true) == Some(SetMute { source_index, mute: false }),
        (MuteView { was_muted: true, source_index: Some(source_index) }).restore_request() == Some(
            SetMute { source_index, mute: true },
        ),
{
}

} // verus!
