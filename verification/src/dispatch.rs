//! The decision of the dispatch loop: what is to be done with one inbound frame.

use crate::envelope::{
    envelope_of, has_message_id, read_envelope, Envelope, EnvelopeView,
};
use crate::json::json_document;
use crate::listeners::Listeners;
use vstd::prelude::*;

verus! {

/// What the dispatch loop is to do with a frame.
#[derive(Debug)]
pub enum Dispatch<S> {
    /// The frame answers a request that waits: deliver `payload`, the frame, into `slot`.
    Deliver { slot: S, payload: String },
    /// The frame is an event of the kind `update_type`: hand `payload`, the frame, to the
    /// event sink.
    Emit { update_type: String, payload: String },
    /// The frame answers a request that nobody waits for: drop it silently.
    Unmatched,
    /// The frame could not be decoded: drop it and report that.
    Malformed,
}

/// What a `Dispatch` stands for.
pub enum DispatchView<S> {
    Deliver { slot: S, payload: Seq<char> },
    Emit { update_type: Seq<char>, payload: Seq<char> },
    Unmatched,
    Malformed,
}

impl<S> View for Dispatch<S> {
    type V = DispatchView<S>;

    open spec fn view(&self) -> DispatchView<S> {
        match self {
            Dispatch::Deliver { slot, payload } => DispatchView::Deliver {
                slot: *slot,
                payload: payload@,
            },
            Dispatch::Emit { update_type, payload } => DispatchView::Emit {
                update_type: update_type@,
                payload: payload@,
            },
            Dispatch::Unmatched => DispatchView::Unmatched,
            Dispatch::Malformed => DispatchView::Malformed,
        }
    }
}

/// What is to be done with the frame `frame`, which is `envelope`, while the requests of
/// `table` wait.
pub open spec fn routed<S>(
    envelope: EnvelopeView,
    frame: Seq<char>,
    table: Map<Seq<char>, S>,
) -> DispatchView<S> {
    match envelope {
        EnvelopeView::Response { message_id } => if table.contains_key(message_id) {
            DispatchView::Deliver { slot: table[message_id], payload: frame }
        } else {
            DispatchView::Unmatched
        },
        EnvelopeView::Event { update_type } => DispatchView::Emit { update_type, payload: frame },
        EnvelopeView::Malformed => DispatchView::Malformed,
    }
}

/// The requests that still wait after a frame that is `envelope` was dispatched: a
/// response takes the request with its correlation id out, and nothing else changes the
/// table.
pub open spec fn waiting_after<S>(envelope: EnvelopeView, table: Map<Seq<char>, S>) -> Map<
    Seq<char>,
    S,
> {
    match envelope {
        EnvelopeView::Response { message_id } => table.remove(message_id),
        _ => table,
    }
}

/// Decides what is to be done with `frame`, which was found to be `envelope`.
pub fn route<S>(envelope: Envelope, frame: String, listeners: &mut Listeners<S>) -> (action:
    Dispatch<S>)
    ensures
        action@ == routed(envelope@, frame@, old(listeners)@),
        final(listeners)@ == waiting_after(envelope@, old(listeners)@),
{
    match envelope {
        Envelope::Response(response) => match listeners.take(response.message_id()) {
            Some(slot) => Dispatch::Deliver { slot, payload: frame },
            None => Dispatch::Unmatched,
        },
        Envelope::Event { update_type } => Dispatch::Emit { update_type, payload: frame },
        Envelope::Malformed => Dispatch::Malformed,
    }
}

/// Decides what is to be done with the inbound frame `event`. A frame with a correlation
/// id is a response: where a request waits under that id, its slot leaves the table and
/// is handed out together with the frame; where none does, the frame is dropped. A frame
/// without a correlation id never touches the table: it goes to the event sink where it
/// names the kind of an event, and is dropped as malformed where it does not.
pub fn process_event<S>(event: String, listeners: &mut Listeners<S>) -> (action: Dispatch<S>)
    ensures
        action@ == routed(envelope_of(event@), event@, old(listeners)@),
        final(listeners)@ == waiting_after(envelope_of(event@), old(listeners)@),
        !has_message_id(event@) ==> !(action is Deliver) && final(listeners)@ == old(listeners)@,
        has_message_id(event@) ==> !(action is Emit),
        !(action is Deliver) ==> final(listeners)@ == old(listeners)@,
        json_document(event@) is None ==> action is Malformed,
{
    let envelope = read_envelope(event.as_str());
    let action = route(envelope, event, listeners);
    proof {
        if has_message_id(event@) {
            lemma_frames_with_id(event@, old(listeners)@);
        } else {
            lemma_frames_without_id(event@, old(listeners)@);
        }
    }
    action
}

/// The time in milliseconds that the dispatch loop sleeps where no frame is there.
pub const POLL_INTERVAL_MILLIS: u64 = 50;

/// What one attempt to receive a frame brought.
#[derive(Debug)]
pub enum Received {
    /// A whole frame.
    Frame(String),
    /// Nothing: no frame is there yet.
    Nothing,
    /// A failure that the connection does not recover from.
    Closed,
}

/// What the dispatch loop is to do after one attempt to receive.
#[derive(Debug)]
pub enum Step<S> {
    /// Carry out what was decided for the frame, then receive again.
    Handle(Dispatch<S>),
    /// Sleep for the poll interval, then receive again.
    Sleep,
    /// Leave the loop: the session is dead.
    Stop,
}

/// What a `Step` stands for.
pub enum StepView<S> {
    Handle(DispatchView<S>),
    Sleep,
    Stop,
}

impl<S> View for Step<S> {
    type V = StepView<S>;

    open spec fn view(&self) -> StepView<S> {
        match self {
            Step::Handle(action) => StepView::Handle(action@),
            Step::Sleep => StepView::Sleep,
            Step::Stop => StepView::Stop,
        }
    }
}

/// Decides how the dispatch loop goes on after one attempt to receive. A frame is
/// dispatched, whatever it holds, and the loop goes on; only a connection that is closed
/// ends the loop, and the requests that wait then are left waiting.
pub fn poll_step<S>(received: Received, listeners: &mut Listeners<S>) -> (step: Step<S>)
    ensures
        match received {
            Received::Frame(frame) => {
                &&& step@ == StepView::Handle(
                    routed(envelope_of(frame@), frame@, old(listeners)@),
                )
                &&& final(listeners)@ == waiting_after(envelope_of(frame@), old(listeners)@)
            },
            Received::Nothing => step is Sleep && final(listeners)@ == old(listeners)@,
            Received::Closed => step is Stop && final(listeners)@ == old(listeners)@,
        },
{
    match received {
        Received::Frame(frame) => Step::Handle(process_event(frame, listeners)),
        Received::Nothing => Step::Sleep,
        Received::Closed => Step::Stop,
    }
}

/// A frame without a correlation id resolves no request: it is never delivered to a
/// slot, the table stays as it is, and the frame goes to the event sink exactly where it
/// is an event.
pub proof fn lemma_frames_without_id<S>(frame: Seq<char>, table: Map<Seq<char>, S>)
    requires
        !has_message_id(frame),
    ensures
        !(routed(envelope_of(frame), frame, table) is Deliver),
        waiting_after(envelope_of(frame), table) == table,
        routed(envelope_of(frame), frame, table) is Emit <==> envelope_of(frame) is Event,
{
}

/// A frame with a correlation id never reaches the event sink, and where no request waits
/// under that id the frame is dropped and the table stays as it is.
pub proof fn lemma_frames_with_id<S>(frame: Seq<char>, table: Map<Seq<char>, S>)
    requires
        has_message_id(frame),
    ensures
        !(routed(envelope_of(frame), frame, table) is Emit),
        !(envelope_of(frame) matches EnvelopeView::Response { message_id } && table.contains_key(
            message_id,
        )) ==> {
            &&& routed(envelope_of(frame), frame, table) is Unmatched || routed(
                envelope_of(frame),
                frame,
                table,
            ) is Malformed
            &&& waiting_after(envelope_of(frame), table) == table
        },
{
    match envelope_of(frame) {
        EnvelopeView::Response { message_id } => {
            if !table.contains_key(message_id) {
                assert(table.remove(message_id) =~= table);
            }
        },
        _ => {},
    }
}

/// A frame that is no JSON is dropped as malformed and leaves the table as it is, so
/// that the frames after it are dispatched as if it had not come.
pub proof fn lemma_malformed_frame_changes_nothing<S>(
    bad: Seq<char>,
    next: Seq<char>,
    table: Map<Seq<char>, S>,
)
    requires
        json_document(bad) is None,
    ensures
        routed(envelope_of(bad), bad, table) is Malformed,
        waiting_after(envelope_of(bad), table) == table,
        routed(envelope_of(next), next, waiting_after(envelope_of(bad), table)) == routed(
            envelope_of(next),
            next,
            table,
        ),
{
}

/// The table after the requests `ids` were registered in `table`, one after the other,
/// each with the slot that stands at its place in `slots`.
pub open spec fn registered<S>(table: Map<Seq<char>, S>, ids: Seq<Seq<char>>, slots: Seq<S>) -> Map<
    Seq<char>,
    S,
>
    decreases ids.len(),
{
    if ids.len() == 0 || slots.len() != ids.len() {
        table
    } else {
        registered(table, ids.drop_last(), slots.drop_last()).insert(ids.last(), slots.last())
    }
}

/// The table after the responses to the requests `ids` were dispatched, one after the
/// other.
pub open spec fn resolved<S>(table: Map<Seq<char>, S>, ids: Seq<Seq<char>>) -> Map<Seq<char>, S>
    decreases ids.len(),
{
    if ids.len() == 0 {
        table
    } else {
        waiting_after(
            EnvelopeView::Response { message_id: ids.last() },
            resolved(table, ids.drop_last()),
        )
    }
}

/// After requests with distinct ids were registered, each waits with its own slot.
pub proof fn lemma_registered_requests_wait<S>(
    table: Map<Seq<char>, S>,
    ids: Seq<Seq<char>>,
    slots: Seq<S>,
    at: int,
)
    requires
        ids.len() == slots.len(),
        ids.no_duplicates(),
        0 <= at < ids.len(),
    ensures
        registered(table, ids, slots).contains_key(ids[at]),
        registered(table, ids, slots)[ids[at]] == slots[at],
    decreases ids.len(),
{
    if at < ids.len() - 1 {
        assert(ids[at] != ids[ids.len() - 1]);
        assert(ids.drop_last()[at] == ids[at]);
        assert(slots.drop_last()[at] == slots[at]);
        lemma_registered_requests_wait(table, ids.drop_last(), slots.drop_last(), at);
    }
}

/// The responses to other requests leave a request waiting as it was.
pub proof fn lemma_other_responses_keep<S>(
    table: Map<Seq<char>, S>,
    others: Seq<Seq<char>>,
    id: Seq<char>,
)
    requires
        !others.contains(id),
    ensures
        resolved(table, others).contains_key(id) == table.contains_key(id),
        resolved(table, others)[id] == table[id],
    decreases others.len(),
{
    if others.len() > 0 {
        assert(others[others.len() - 1] != id);
        assert forall|j: int| 0 <= j < others.drop_last().len() implies others.drop_last()[j]
            != id by {
            assert(others.drop_last()[j] == others[j]);
        }
        lemma_other_responses_keep(table, others.drop_last(), id);
    }
}

/// The ids of the responses that arrived before the `count`-th one, where `arrivals`
/// gives, for each response in the order of arrival, the place of its request in `ids`.
pub open spec fn arrived_before(ids: Seq<Seq<char>>, arrivals: Seq<int>, count: int) -> Seq<
    Seq<char>,
> {
    Seq::new(count as nat, |j: int| ids[arrivals[j]])
}

/// Each response reaches the caller of its own request, in whatever order the responses
/// arrive: where requests with distinct ids were registered and the responses to some of
/// them have been dispatched, the response to another of them is delivered to the slot
/// that was registered with its id.
pub proof fn lemma_each_response_reaches_its_caller<S>(
    table: Map<Seq<char>, S>,
    ids: Seq<Seq<char>>,
    slots: Seq<S>,
    arrivals: Seq<int>,
    count: int,
    frame: Seq<char>,
)
    requires
        ids.len() == slots.len(),
        ids.no_duplicates(),
        arrivals.no_duplicates(),
        forall|j: int| 0 <= j < arrivals.len() ==> 0 <= #[trigger] arrivals[j] < ids.len(),
        0 <= count < arrivals.len(),
    ensures
        routed(
            EnvelopeView::Response { message_id: ids[arrivals[count]] },
            frame,
            resolved(registered(table, ids, slots), arrived_before(ids, arrivals, count)),
        ) == (DispatchView::Deliver { slot: slots[arrivals[count]], payload: frame }),
{
    let id = ids[arrivals[count]];
    let before = arrived_before(ids, arrivals, count);
    assert(!before.contains(id)) by {
        assert forall|j: int| 0 <= j < before.len() implies before[j] != id by {
            assert(arrivals[j] != arrivals[count]);
            assert(ids[arrivals[j]] != ids[arrivals[count]]);
        }
    }
    lemma_registered_requests_wait(table, ids, slots, arrivals[count]);
    lemma_other_responses_keep(registered(table, ids, slots), before, id);
}

} // verus!
