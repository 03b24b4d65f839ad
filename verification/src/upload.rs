//! The upload orchestrator: of the fields of a multipart request the
//! first one is stored, and the request is answered with a redirect to
//! the stored object, or with an error.
//!
//! Like the writer, the orchestrator only decides. The caller reads the
//! request, drives the writer over the field, and sends the response.

use crate::ident::{is_object_name, StoredObjectId};
use crate::writer::WriteError;
use vstd::prelude::*;

verus! {

/// Status of the redirect that answers a stored upload.
pub const SEE_OTHER: u16 = 303;

/// Status for a request whose multipart framing cannot be read.
pub const BAD_REQUEST: u16 = 400;

/// Status for a request that holds no field.
pub const NOT_FOUND: u16 = 404;

/// Status for an upload that could not be stored.
pub const INTERNAL_SERVER_ERROR: u16 = 500;

/// Why an upload was not stored.
#[derive(Clone, Copy, Debug, PartialEq, Eq, Structural)]
pub enum UploadError {
    /// The request held no field.
    NotFound,
    /// The multipart framing of the request could not be read.
    Malformed,
    /// The first field could not be stored.
    Write(WriteError),
}

/// Where the handling of a request stands.
#[derive(Debug, PartialEq, Eq)]
pub enum UploadState {
    /// No item of the request was seen yet.
    AwaitingField,
    /// The first field is being stored.
    FieldInProgress,
    /// The first field is stored under this name.
    Completed(StoredObjectId),
    /// The upload failed.
    Failed(UploadError),
}

/// What the caller reports to the orchestrator.
#[derive(Debug, PartialEq, Eq)]
pub enum UploadEvent {
    /// The request delivered a field.
    Field,
    /// The request ended.
    EndOfFields,
    /// The request broke its multipart framing.
    Malformed,
    /// The writer is done with the field.
    Saved(Result<StoredObjectId, WriteError>),
}

/// The answer to a request.
#[derive(Debug, PartialEq, Eq)]
pub struct Response {
    pub status: u16,
    /// Where the client is sent, on success.
    pub location: Option<String>,
}

/// What the orchestrator asks of the caller.
#[derive(Debug, PartialEq, Eq)]
pub enum UploadAction {
    /// Store the field that was just delivered, and report how it went.
    SaveField,
    /// Nothing new: go on with what is under way.
    Continue,
    /// Read no more of the request, and send this response.
    Respond(Response),
}

/// A state, as contracts see it.
pub ghost enum UploadStateView {
    AwaitingField,
    FieldInProgress,
    Completed(Seq<char>),
    Failed(UploadError),
}

/// An event, as contracts see it.
pub ghost enum UploadEventView {
    Field,
    EndOfFields,
    Malformed,
    Saved(Result<Seq<char>, WriteError>),
}

/// A response, as contracts see it.
pub ghost struct ResponseView {
    pub status: u16,
    pub location: Option<Seq<char>>,
}

/// An action, as contracts see it.
pub ghost enum UploadActionView {
    SaveField,
    Continue,
    Respond(ResponseView),
}

impl View for UploadState {
    type V = UploadStateView;

    open spec fn view(&self) -> UploadStateView {
        match *self {
            UploadState::AwaitingField => UploadStateView::AwaitingField,
            UploadState::FieldInProgress => UploadStateView::FieldInProgress,
            UploadState::Completed(id) => UploadStateView::Completed(id@),
            UploadState::Failed(error) => UploadStateView::Failed(error),
        }
    }
}

impl View for UploadEvent {
    type V = UploadEventView;

    open spec fn view(&self) -> UploadEventView {
        match *self {
            UploadEvent::Field => UploadEventView::Field,
            UploadEvent::EndOfFields => UploadEventView::EndOfFields,
            UploadEvent::Malformed => UploadEventView::Malformed,
            UploadEvent::Saved(Ok(id)) => UploadEventView::Saved(Ok(id@)),
            UploadEvent::Saved(Err(error)) => UploadEventView::Saved(Err(error)),
        }
    }
}

impl View for Response {
    type V = ResponseView;

    open spec fn view(&self) -> ResponseView {
        ResponseView {
            status: self.status,
            location: match self.location {
                Some(location) => Some(location@),
                None => None,
            },
        }
    }
}

impl View for UploadAction {
    type V = UploadActionView;

    open spec fn view(&self) -> UploadActionView {
        match *self {
            UploadAction::SaveField => UploadActionView::SaveField,
            UploadAction::Continue => UploadActionView::Continue,
            UploadAction::Respond(response) => UploadActionView::Respond(response@),
        }
    }
}

/// The route under which a stored object is shown.
pub open spec fn object_route() -> Seq<char> {
    seq!['/', 'i', 'd', '/']
}

/// The status that tells the client of an error.
pub open spec fn status_of(error: UploadError) -> u16 {
    match error {
        UploadError::NotFound => NOT_FOUND,
        UploadError::Malformed => BAD_REQUEST,
        UploadError::Write(_) => INTERNAL_SERVER_ERROR,
    }
}

/// The response to an upload that ended in `outcome`: a redirect to the
/// stored object, or the status of the error and no location.
pub open spec fn response_to(outcome: Result<Seq<char>, UploadError>) -> ResponseView {
    match outcome {
        Ok(name) => ResponseView { status: SEE_OTHER, location: Some(object_route() + name) },
        Err(error) => ResponseView { status: status_of(error), location: None },
    }
}

/// One step of the orchestrator: the state after `event`, and what to
/// do next.
///
/// Only the first item of the request counts. While its field is being
/// stored, whatever else the request delivers is passed over; so is a
/// report from a writer while no field is being stored. A request that
/// is answered stays answered.
pub open spec fn step(state: UploadStateView, event: UploadEventView) -> (
    UploadStateView,
    UploadActionView,
) {
    match state {
        UploadStateView::AwaitingField => match event {
            UploadEventView::Field => (
                UploadStateView::FieldInProgress,
                UploadActionView::SaveField,
            ),
            UploadEventView::EndOfFields => (
                UploadStateView::Failed(UploadError::NotFound),
                UploadActionView::Respond(response_to(Err(UploadError::NotFound))),
            ),
            UploadEventView::Malformed => (
                UploadStateView::Failed(UploadError::Malformed),
                UploadActionView::Respond(response_to(Err(UploadError::Malformed))),
            ),
            UploadEventView::Saved(_) => (state, UploadActionView::Continue),
        },
        UploadStateView::FieldInProgress => match event {
            UploadEventView::Saved(Ok(name)) => (
                UploadStateView::Completed(name),
                UploadActionView::Respond(response_to(Ok(name))),
            ),
            UploadEventView::Saved(Err(error)) => (
                UploadStateView::Failed(UploadError::Write(error)),
                UploadActionView::Respond(response_to(Err(UploadError::Write(error)))),
            ),
            _ => (state, UploadActionView::Continue),
        },
        UploadStateView::Completed(name) => (
            state,
            UploadActionView::Respond(response_to(Ok(name))),
        ),
        UploadStateView::Failed(error) => (
            state,
            UploadActionView::Respond(response_to(Err(error))),
        ),
    }
}

/// The redirect that answers a stored upload.
pub fn redirect_to(id: &StoredObjectId) -> (response: Response)
    ensures
        response@ == response_to(Ok(id@)),
{
    let mut location = String::from_str("/id/");
    proof {
        reveal_strlit("/id/");
        assert(location@ == object_route());
    }
    location.append(id.as_str());
    Response { status: SEE_OTHER, location: Some(location) }
}

/// The response that tells the client of an error.
pub fn refuse(error: UploadError) -> (response: Response)
    ensures
        response@ == response_to(Err(error)),
{
    let status = match error {
        UploadError::NotFound => NOT_FOUND,
        UploadError::Malformed => BAD_REQUEST,
        UploadError::Write(_) => INTERNAL_SERVER_ERROR,
    };
    Response { status, location: None }
}

/// Handles a multipart request: takes the orchestrator one step on, from
/// what the caller reports to what it is to do next.
pub fn upload(state: UploadState, event: UploadEvent) -> (next: (UploadState, UploadAction))
    ensures
        (next.0@, next.1@) == step(state@, event@),
{
    match state {
        UploadState::AwaitingField => match event {
            UploadEvent::Field => (UploadState::FieldInProgress, UploadAction::SaveField),
            UploadEvent::EndOfFields => (
                UploadState::Failed(UploadError::NotFound),
                UploadAction::Respond(refuse(UploadError::NotFound)),
            ),
            UploadEvent::Malformed => (
                UploadState::Failed(UploadError::Malformed),
                UploadAction::Respond(refuse(UploadError::Malformed)),
            ),
            UploadEvent::Saved(_) => (UploadState::AwaitingField, UploadAction::Continue),
        },
        UploadState::FieldInProgress => match event {
            UploadEvent::Saved(Ok(id)) => {
                let response = redirect_to(&id);
                (UploadState::Completed(id), UploadAction::Respond(response))
            },
            UploadEvent::Saved(Err(error)) => (
                UploadState::Failed(UploadError::Write(error)),
                UploadAction::Respond(refuse(UploadError::Write(error))),
            ),
            _ => (UploadState::FieldInProgress, UploadAction::Continue),
        },
        UploadState::Completed(id) => {
            let response = redirect_to(&id);
            (UploadState::Completed(id), UploadAction::Respond(response))
        },
        UploadState::Failed(error) => (
            UploadState::Failed(error),
            UploadAction::Respond(refuse(error)),
        ),
    }
}

/// The orchestrator taken through a sequence of events: the state it
/// ends in, and the actions it asked for, one for each event.
pub open spec fn run(state: UploadStateView, events: Seq<UploadEventView>) -> (
    UploadStateView,
    Seq<UploadActionView>,
)
    decreases events.len(),
{
    if events.len() == 0 {
        (state, Seq::empty())
    } else {
        let (before, actions) = run(state, events.drop_last());
        let (after, action) = step(before, events.last());
        (after, actions.push(action))
    }
}

/// An event that comes from the request itself, not from the writer.
pub open spec fn is_request_item(event: UploadEventView) -> bool {
    !(event is Saved)
}

/// A request that has its response.
pub open spec fn is_answered(state: UploadStateView) -> bool {
    state is Completed || state is Failed
}

/// How an answered request ended.
pub open spec fn outcome(state: UploadStateView) -> Result<Seq<char>, UploadError> {
    match state {
        UploadStateView::Failed(error) => Err(error),
        UploadStateView::Completed(name) => Ok(name),
        _ => Err(UploadError::NotFound),
    }
}

proof fn lemma_one_action_each(state: UploadStateView, events: Seq<UploadEventView>)
    ensures
        run(state, events).1.len() == events.len(),
    decreases events.len(),
{
    if events.len() > 0 {
        lemma_one_action_each(state, events.drop_last());
    }
}

proof fn lemma_action_at(state: UploadStateView, events: Seq<UploadEventView>, i: int)
    requires
        0 <= i < events.len(),
    ensures
        run(state, events).1[i] == step(run(state, events.take(i)).0, events[i]).1,
    decreases events.len(),
{
    let earlier = events.drop_last();
    lemma_one_action_each(state, earlier);
    if i < events.len() - 1 {
        lemma_action_at(state, earlier, i);
        assert(earlier.take(i) == events.take(i));
    }
}

proof fn lemma_awaiting_until_first_item(events: Seq<UploadEventView>)
    ensures
        run(UploadStateView::AwaitingField, events).0 is AwaitingField <==> forall|k: int|
            0 <= k < events.len() ==> !is_request_item(#[trigger] events[k]),
    decreases events.len(),
{
    if events.len() > 0 {
        let earlier = events.drop_last();
        lemma_awaiting_until_first_item(earlier);
        if run(UploadStateView::AwaitingField, events).0 is AwaitingField {
            assert forall|k: int| 0 <= k < events.len() implies !is_request_item(
                #[trigger] events[k],
            ) by {
                if k < earlier.len() {
                    assert(events[k] == earlier[k]);
                }
            }
        }
        if forall|k: int| 0 <= k < events.len() ==> !is_request_item(#[trigger] events[k]) {
            assert forall|k: int| 0 <= k < earlier.len() implies !is_request_item(
                #[trigger] earlier[k],
            ) by {
                assert(earlier[k] == events[k]);
            }
        }
    }
}

/// First field wins. Whatever a request delivers and in whatever order,
/// the orchestrator asks for a field to be stored exactly when that
/// field is the first item of the request.
pub proof fn lemma_first_field_wins(events: Seq<UploadEventView>, i: int)
    requires
        0 <= i < events.len(),
    ensures
        run(UploadStateView::AwaitingField, events).1[i] == UploadActionView::SaveField <==> (
        events[i] is Field && forall|k: int|
            0 <= k < i ==> !is_request_item(#[trigger] events[k])),
{
    let earlier = events.take(i);
    lemma_action_at(UploadStateView::AwaitingField, events, i);
    lemma_awaiting_until_first_item(earlier);
    if forall|k: int| 0 <= k < i ==> !is_request_item(#[trigger] events[k]) {
        assert forall|k: int| 0 <= k < earlier.len() implies !is_request_item(
            #[trigger] earlier[k],
        ) by {
            assert(earlier[k] == events[k]);
        }
    }
    if forall|k: int| 0 <= k < earlier.len() ==> !is_request_item(#[trigger] earlier[k]) {
        assert forall|k: int| 0 <= k < i implies !is_request_item(#[trigger] events[k]) by {
            assert(earlier[k] == events[k]);
        }
    }
}

/// No request has two of its fields stored.
pub proof fn lemma_one_field_at_most(events: Seq<UploadEventView>, i: int, j: int)
    requires
        0 <= i < j < events.len(),
    ensures
        !(run(UploadStateView::AwaitingField, events).1[i] == UploadActionView::SaveField && run(
            UploadStateView::AwaitingField,
            events,
        ).1[j] == UploadActionView::SaveField),
{
    lemma_first_field_wins(events, i);
    lemma_first_field_wins(events, j);
}

/// A request that is answered stays answered: whatever is reported
/// afterwards, the state is kept, no field is stored, and the response
/// is the one that was given.
pub proof fn lemma_answered_stays_answered(state: UploadStateView, events: Seq<UploadEventView>)
    requires
        is_answered(state),
    ensures
        run(state, events).0 == state,
        run(state, events).1.len() == events.len(),
        forall|i: int|
            0 <= i < events.len() ==> #[trigger] run(state, events).1[i]
                == UploadActionView::Respond(response_to(outcome(state))),
    decreases events.len(),
{
    if events.len() > 0 {
        lemma_answered_stays_answered(state, events.drop_last());
    }
}

/// The status tells whose fault an error is: a request without a field
/// or with broken framing is answered in the 400s, a field that could
/// not be stored in the 500s. No error sends the client anywhere.
pub proof fn lemma_status_tells_the_fault(error: UploadError)
    ensures
        error is Write <==> 500 <= status_of(error) < 600,
        !(error is Write) <==> 400 <= status_of(error) < 500,
        response_to(Err(error)).status == status_of(error),
        response_to(Err(error)).location is None,
{
}

} // verus!
