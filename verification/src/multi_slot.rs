//! What a multi-slot handler tells the dialog.
use crate::dialog::{destination_views, DestinationSlot, DestinationView};
use vstd::prelude::*;

verus! {

/// A message from a multi-slot handler.
#[derive(Debug, Clone)]
pub enum HandlerUIMessage {
    SetDestinations(Vec<DestinationSlot>),
    /// The windows that the handler has changed.
    StoreWindowIds(Vec<u64>),
}

/// What a message says.
pub enum HandlerMessageView {
    SetDestinations(Seq<DestinationView>),
    StoreWindowIds(Seq<u64>),
}

impl View for HandlerUIMessage {
    type V = HandlerMessageView;

    open spec fn view(&self) -> HandlerMessageView {
        match *self {
            HandlerUIMessage::SetDestinations(d) => HandlerMessageView::SetDestinations(
                destination_views(d@),
            ),
            HandlerUIMessage::StoreWindowIds(w) => HandlerMessageView::StoreWindowIds(w@),
        }
    }
}

/// The view of a message says what the message says.
pub proof fn lemma_views_of_handler_messages(destinations: Vec<DestinationSlot>, ids: Vec<u64>)
    ensures
        HandlerUIMessage::SetDestinations(destinations)@ == HandlerMessageView::SetDestinations(
            destination_views(destinations@),
        ),
        HandlerUIMessage::StoreWindowIds(ids)@ == HandlerMessageView::StoreWindowIds(ids@),
{
}

} // verus!
