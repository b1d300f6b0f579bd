//! The course of one request, as a state machine. The program around the
//! library talks to the middleware; after each answer it asks the machine
//! what to do next.
//!
//! `Idle → Locating → SessionOpen → Enumerating → Extracting → Assembled`,
//! with the failures `NoTokenPresent`, `InvalidToken` and `InternalError` as
//! further final states.

use crate::error::{EidError, Fault};
use crate::extract::{decode_error, extract, extracted, extracted_all, identity, RawAttribute};
use crate::record::{assembled, Found, Person, PersonView};
use crate::vocabulary::Field;
use vstd::prelude::*;

verus! {

/// What happened: a request arrived, or the middleware answered.
#[derive(Clone, Debug, PartialEq, Eq)]
pub enum Event {
    /// A request arrived.
    Start,
    /// The slots that hold a token, by id, in the order reported.
    Slots(Vec<u64>),
    /// The session on the chosen slot is open.
    SessionOpened,
    /// No session could be opened on the chosen slot.
    SessionRefused,
    /// The data objects of the session were listed; this many were found.
    Objects(usize),
    /// The attributes of the object that was asked for.
    Attributes(Vec<RawAttribute>),
    /// The middleware failed.
    Failed(Fault),
}

/// What the program is to do next.
#[derive(Clone, Copy, Debug, PartialEq, Eq, Structural)]
pub enum Action {
    /// Ask the middleware for the slots that hold a token.
    ListSlots,
    /// Open a read-only session on this slot.
    OpenSession { slot: u64 },
    /// List the data objects of the session.
    ListObjects,
    /// Read label and value of the object at this place of the list.
    ReadObject { index: usize },
    /// Nothing more: the request has its outcome.
    Finish,
}

/// Where a request stands.
#[derive(Clone, Debug, PartialEq, Eq)]
pub enum Pipeline {
    /// Nothing has been asked yet.
    Idle,
    /// The slots have been asked for.
    Locating,
    /// A session on `slot` has been asked for.
    SessionOpen { slot: u64 },
    /// The list of data objects has been asked for.
    Enumerating,
    /// Object `index` of `count` has been asked for; `found` holds what
    /// the objects before it gave.
    Extracting { count: usize, index: usize, found: Found },
    /// The identity record is assembled.
    Assembled { person: Person },
    /// No card is inserted.
    NoTokenPresent,
    /// A card is inserted, but no session could be opened on it.
    InvalidToken,
    /// Something else failed.
    InternalError { fault: Fault },
}

/// Where a request stands, over mathematical values.
pub enum PipelineView {
    Idle,
    Locating,
    SessionOpen { slot: u64 },
    Enumerating,
    Extracting { count: usize, index: usize, found: Map<Field, Seq<char>> },
    Assembled { person: PersonView },
    NoTokenPresent,
    InvalidToken,
    InternalError { fault: Fault },
}

impl View for Pipeline {
    type V = PipelineView;

    open spec fn view(&self) -> PipelineView {
        match *self {
            Pipeline::Idle => PipelineView::Idle,
            Pipeline::Locating => PipelineView::Locating,
            Pipeline::SessionOpen { slot } => PipelineView::SessionOpen { slot },
            Pipeline::Enumerating => PipelineView::Enumerating,
            Pipeline::Extracting { count, index, found } => PipelineView::Extracting {
                count,
                index,
                found: found@,
            },
            Pipeline::Assembled { person } => PipelineView::Assembled { person: person@ },
            Pipeline::NoTokenPresent => PipelineView::NoTokenPresent,
            Pipeline::InvalidToken => PipelineView::InvalidToken,
            Pipeline::InternalError { fault } => PipelineView::InternalError { fault },
        }
    }
}

impl PipelineView {
    /// Whether the request has its outcome.
    pub open spec fn finished(self) -> bool {
        self is Assembled || self is NoTokenPresent || self is InvalidToken
            || self is InternalError
    }

    /// The final state of a request that failed with `error`.
    pub open spec fn failed(error: EidError) -> PipelineView {
        match error {
            EidError::NoTokenPresent => PipelineView::NoTokenPresent,
            EidError::InvalidToken => PipelineView::InvalidToken,
            EidError::InternalError(fault) => PipelineView::InternalError { fault },
        }
    }

    /// The outcome of the request, once it has one.
    pub open spec fn outcome(self) -> Option<Result<PersonView, EidError>> {
        match self {
            PipelineView::Assembled { person } => Some(Ok(person)),
            PipelineView::NoTokenPresent => Some(Err(EidError::NoTokenPresent)),
            PipelineView::InvalidToken => Some(Err(EidError::InvalidToken)),
            PipelineView::InternalError { fault } => Some(Err(EidError::InternalError(fault))),
            _ => None,
        }
    }
}

/// What becomes of a request that is not finished when an event comes that
/// its state does not wait for: a failure of the middleware ends it with
/// that fault, anything else with a fault of protocol.
pub open spec fn stray(event: Event) -> (PipelineView, Action) {
    match event {
        Event::Failed(fault) => (PipelineView::InternalError { fault }, Action::Finish),
        _ => (PipelineView::InternalError { fault: Fault::Protocol }, Action::Finish),
    }
}

/// The state after `event`, and what to do next.
///
/// - `Idle`, on `Start`: asks for the slots.
/// - `Locating`, on the slots: without a slot the request ends with
///   `NoTokenPresent`; else a session is asked for on the first slot.
/// - `SessionOpen`: once the session is open the objects are asked for; if
///   it was refused the request ends with `InvalidToken`.
/// - `Enumerating`, on the number of objects: without objects the record is
///   assembled at once, all fields empty; else the first object is asked
///   for.
/// - `Extracting`, on an object's attributes: the object is taken in; then
///   the next object is asked for, or after the last one the record is
///   assembled. An object that cannot be read ends the request.
/// - A finished request stays as it is.
pub open spec fn spec_step(state: PipelineView, event: Event) -> (PipelineView, Action) {
    match state {
        PipelineView::Idle => match event {
            Event::Start => (PipelineView::Locating, Action::ListSlots),
            _ => stray(event),
        },
        PipelineView::Locating => match event {
            Event::Slots(slots) => if slots@.len() == 0 {
                (PipelineView::NoTokenPresent, Action::Finish)
            } else {
                (
                    PipelineView::SessionOpen { slot: slots@[0] },
                    Action::OpenSession { slot: slots@[0] },
                )
            },
            _ => stray(event),
        },
        PipelineView::SessionOpen { slot } => match event {
            Event::SessionOpened => (PipelineView::Enumerating, Action::ListObjects),
            Event::SessionRefused => (PipelineView::InvalidToken, Action::Finish),
            _ => stray(event),
        },
        PipelineView::Enumerating => match event {
            Event::Objects(count) => if count == 0 {
                (PipelineView::Assembled { person: assembled(Map::empty()) }, Action::Finish)
            } else {
                (
                    PipelineView::Extracting { count, index: 0, found: Map::empty() },
                    Action::ReadObject { index: 0 },
                )
            },
            _ => stray(event),
        },
        PipelineView::Extracting { count, index, found } => match event {
            Event::Attributes(attributes) => match extracted(found, attributes@) {
                Ok(after) => if index + 1 < count {
                    (
                        PipelineView::Extracting {
                            count,
                            index: (index + 1) as usize,
                            found: after,
                        },
                        Action::ReadObject { index: (index + 1) as usize },
                    )
                } else {
                    (PipelineView::Assembled { person: assembled(after) }, Action::Finish)
                },
                Err(error) => (PipelineView::failed(error), Action::Finish),
            },
            _ => stray(event),
        },
        _ => (state, Action::Finish),
    }
}

/// The end of a request that is not finished, on an event that its state
/// does not wait for.
fn go_astray(event: Event) -> (next: (Pipeline, Action))
    ensures
        next.0@ == stray(event).0,
        next.1 == stray(event).1,
{
    match event {
        Event::Failed(fault) => (Pipeline::InternalError { fault }, Action::Finish),
        _ => (Pipeline::InternalError { fault: Fault::Protocol }, Action::Finish),
    }
}

impl Pipeline {
    /// A request of which nothing has been asked yet.
    pub fn new() -> (pipeline: Pipeline)
        ensures
            pipeline@ == PipelineView::Idle,
    {
        Pipeline::Idle
    }

    /// The final state of a request that failed with `error`.
    pub fn failed(error: EidError) -> (pipeline: Pipeline)
        ensures
            pipeline@ == PipelineView::failed(error),
    {
        match error {
            EidError::NoTokenPresent => Pipeline::NoTokenPresent,
            EidError::InvalidToken => Pipeline::InvalidToken,
            EidError::InternalError(fault) => Pipeline::InternalError { fault },
        }
    }

    /// Whether the request has its outcome.
    pub fn is_finished(&self) -> (yes: bool)
        ensures
            yes == self@.finished(),
    {
        match self {
            Pipeline::Assembled { .. } => true,
            Pipeline::NoTokenPresent => true,
            Pipeline::InvalidToken => true,
            Pipeline::InternalError { .. } => true,
            _ => false,
        }
    }

    /// The outcome of the request, once it has one.
    pub fn outcome(self) -> (outcome: Option<Result<Person, EidError>>)
        ensures
            match outcome {
                Some(Ok(person)) => self@.outcome() == Some(Ok::<PersonView, EidError>(person@)),
                Some(Err(error)) => self@.outcome() == Some(Err::<PersonView, EidError>(error)),
                None => self@.outcome() is None,
            },
    {
        match self {
            Pipeline::Assembled { person } => Some(Ok(person)),
            Pipeline::NoTokenPresent => Some(Err(EidError::NoTokenPresent)),
            Pipeline::InvalidToken => Some(Err(EidError::InvalidToken)),
            Pipeline::InternalError { fault } => Some(Err(EidError::InternalError(fault))),
            _ => None,
        }
    }

    /// Takes `event` in: gives the state after it, and what to do next.
    pub fn step(self, event: Event) -> (next: (Pipeline, Action))
        ensures
            next.0@ == spec_step(self@, event).0,
            next.1 == spec_step(self@, event).1,
    {
        match self {
            Pipeline::Idle => match event {
                Event::Start => (Pipeline::Locating, Action::ListSlots),
                _ => go_astray(event),
            },
            Pipeline::Locating => match event {
                Event::Slots(slots) => if slots.len() == 0 {
                    (Pipeline::NoTokenPresent, Action::Finish)
                } else {
                    let slot = slots[0];
                    (Pipeline::SessionOpen { slot }, Action::OpenSession { slot })
                },
                _ => go_astray(event),
            },
            Pipeline::SessionOpen { slot } => match event {
                Event::SessionOpened => (Pipeline::Enumerating, Action::ListObjects),
                Event::SessionRefused => (Pipeline::InvalidToken, Action::Finish),
                _ => go_astray(event),
            },
            Pipeline::Enumerating => match event {
                Event::Objects(count) => if count == 0 {
                    (Pipeline::Assembled { person: Found::new().assemble() }, Action::Finish)
                } else {
                    (
                        Pipeline::Extracting { count, index: 0, found: Found::new() },
                        Action::ReadObject { index: 0 },
                    )
                },
                _ => go_astray(event),
            },
            Pipeline::Extracting { count, index, found } => match event {
                Event::Attributes(attributes) => {
                    let mut found = found;
                    match extract(&mut found, attributes) {
                        Ok(()) => if count > 0 && index < count - 1 {
                            (
                                Pipeline::Extracting { count, index: index + 1, found },
                                Action::ReadObject { index: index + 1 },
                            )
                        } else {
                            (Pipeline::Assembled { person: found.assemble() }, Action::Finish)
                        },
                        Err(error) => (Pipeline::failed(error), Action::Finish),
                    }
                },
                _ => go_astray(event),
            },
            _ => (self, Action::Finish),
        }
    }
}

/// The state after all of `events`, taken in order from `state`.
pub open spec fn run(state: PipelineView, events: Seq<Event>) -> PipelineView
    decreases events.len(),
{
    if events.len() == 0 {
        state
    } else {
        spec_step(run(state, events.drop_last()), events.last()).0
    }
}

/// What is to be done after the last of `events`, taken in order from
/// `state`.
pub open spec fn asked(state: PipelineView, events: Seq<Event>) -> Action
    recommends
        events.len() > 0,
{
    spec_step(run(state, events.drop_last()), events.last()).1
}

/// Once the first `start` events have finished a request, whatever comes
/// after leaves it as it is and asks for nothing.
proof fn lemma_finished_from(state: PipelineView, events: Seq<Event>, start: int, k: int)
    requires
        0 <= start <= k <= events.len(),
        run(state, events.take(start)).finished(),
    ensures
        run(state, events.take(k)) == run(state, events.take(start)),
        k > start ==> asked(state, events.take(k)) == Action::Finish,
    decreases k - start,
{
    if k > start {
        lemma_finished_from(state, events, start, k - 1);
        assert(events.take(k).drop_last() =~= events.take(k - 1));
    }
}

/// A finished request stays as it is, whatever comes, and asks for nothing
/// more.
pub proof fn law_finished_stays(state: PipelineView, events: Seq<Event>)
    requires
        state.finished(),
    ensures
        run(state, events) == state,
        forall|k: int|
            0 < k <= events.len() ==> asked(state, #[trigger] events.take(k)) == Action::Finish,
{
    assert(events.take(0) =~= Seq::<Event>::empty());
    assert forall|k: int| 0 < k <= events.len() implies asked(state, #[trigger] events.take(k))
        == Action::Finish by {
        lemma_finished_from(state, events, 0, k);
    }
    lemma_finished_from(state, events, 0, events.len() as int);
    assert(events.take(events.len() as int) =~= events);
}

/// Without a slot that holds a token, the request ends with
/// `NoTokenPresent`, and no session is ever asked for, whatever comes
/// after.
pub proof fn law_no_token_opens_no_session(events: Seq<Event>)
    requires
        events.len() >= 2,
        events[0] is Start,
        events[1] matches Event::Slots(slots) && slots@.len() == 0,
    ensures
        run(PipelineView::Idle, events) == PipelineView::NoTokenPresent,
        forall|k: int|
            0 < k <= events.len() ==> !(asked(PipelineView::Idle, #[trigger] events.take(k))
                is OpenSession),
{
    let idle = PipelineView::Idle;
    lemma_run_step(idle, events, 1);
    lemma_run_step(idle, events, 2);
    assert forall|k: int| 0 < k <= events.len() implies !(asked(idle, #[trigger] events.take(k))
        is OpenSession) by {
        if k > 2 {
            lemma_finished_from(idle, events, 2, k);
        }
    }
    lemma_finished_from(idle, events, 2, events.len() as int);
    assert(events.take(events.len() as int) =~= events);
}

/// Where the session on the first slot is refused, the request ends with
/// `InvalidToken`, and the objects are never asked for, neither their list
/// nor any of them, whatever comes after.
pub proof fn law_refused_session_reads_no_object(events: Seq<Event>)
    requires
        events.len() >= 3,
        events[0] is Start,
        events[1] matches Event::Slots(slots) && slots@.len() > 0,
        events[2] is SessionRefused,
    ensures
        run(PipelineView::Idle, events) == PipelineView::InvalidToken,
        forall|k: int|
            0 < k <= events.len() ==> {
                let action = asked(PipelineView::Idle, #[trigger] events.take(k));
                !(action is ListObjects) && !(action is ReadObject)
            },
{
    let idle = PipelineView::Idle;
    lemma_run_step(idle, events, 1);
    lemma_run_step(idle, events, 2);
    lemma_run_step(idle, events, 3);
    assert forall|k: int| 0 < k <= events.len() implies {
        let action = asked(idle, #[trigger] events.take(k));
        !(action is ListObjects) && !(action is ReadObject)
    } by {
        if k > 3 {
            lemma_finished_from(idle, events, 3, k);
        }
    }
    lemma_finished_from(idle, events, 3, events.len() as int);
    assert(events.take(events.len() as int) =~= events);
}

/// The state after `k` events, and what is then to be done, come from
/// the state after `k - 1` events by one step.
proof fn lemma_run_step(state: PipelineView, events: Seq<Event>, k: int)
    requires
        0 < k <= events.len(),
    ensures
        run(state, events.take(0)) == state,
        run(state, events.take(k)) == spec_step(run(state, events.take(k - 1)), events[k - 1]).0,
        asked(state, events.take(k)) == spec_step(run(state, events.take(k - 1)), events[k - 1]).1,
{
    assert(events.take(0) =~= Seq::<Event>::empty());
    assert(events.take(k).drop_last() =~= events.take(k - 1));
}

/// Whether `events` are those of a request that finds a token, opens a
/// session on it, and reads `objects` one after the other.
pub open spec fn reads_card(events: Seq<Event>, objects: Seq<Vec<RawAttribute>>) -> bool {
    &&& events.len() == 4 + objects.len()
    &&& events[0] is Start
    &&& events[1] matches Event::Slots(slots) && slots@.len() > 0
    &&& events[2] is SessionOpened
    &&& events[3] matches Event::Objects(count) && count == objects.len()
    &&& forall|i: int|
        0 <= i < objects.len() ==> {
            let object = #[trigger] objects[i];
            events[4 + i] matches Event::Attributes(attributes) && attributes@ == object@
        }
}

/// A request that finds a token, opens a session on it and reads its
/// objects one after the other ends with the identity record of those
/// objects, or with their failure.
pub proof fn law_request_reads_identity(events: Seq<Event>, objects: Seq<Vec<RawAttribute>>)
    requires
        reads_card(events, objects),
    ensures
        run(PipelineView::Idle, events).outcome() == Some(identity(objects)),
{
    lemma_objects_read(events, objects, objects.len() as int);
    assert(events.take(4 + objects.len() as int) =~= events);
    assert(objects.take(objects.len() as int) =~= objects);
}

/// Where a request stands after the first `k` objects.
proof fn lemma_objects_read(events: Seq<Event>, objects: Seq<Vec<RawAttribute>>, k: int)
    requires
        reads_card(events, objects),
        0 <= k <= objects.len(),
    ensures
        run(PipelineView::Idle, events.take(4 + k)) == (match extracted_all(objects.take(k)) {
            Ok(found) => if k < objects.len() {
                PipelineView::Extracting {
                    count: objects.len() as usize,
                    index: k as usize,
                    found,
                }
            } else {
                PipelineView::Assembled { person: assembled(found) }
            },
            Err(error) => PipelineView::failed(error),
        }),
        extracted_all(objects.take(k)) matches Err(error) ==> error == decode_error(),
    decreases k,
{
    let idle = PipelineView::Idle;
    if k == 0 {
        lemma_run_step(idle, events, 1);
        lemma_run_step(idle, events, 2);
        lemma_run_step(idle, events, 3);
        lemma_run_step(idle, events, 4);
        assert(objects.take(0) =~= Seq::<Vec<RawAttribute>>::empty());
    } else {
        lemma_objects_read(events, objects, k - 1);
        lemma_run_step(idle, events, 4 + k);
        assert(objects.take(k).drop_last() =~= objects.take(k - 1));
        assert(objects.take(k).last() == objects[k - 1]);
    }
}

} // verus!
