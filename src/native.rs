use vstd::prelude::*;

verus! {

/// What the native driver asks its caller to do next.
#[derive(Debug, Clone, PartialEq, Eq)]
pub enum NativeAction<E> {
    /// Block until the event source yields its next event, or reports none.
    FetchNext,
    /// Hand this event to the handler.
    Dispatch(E),
    /// Leave the loop.
    Stop,
}

pub open spec fn fetched_spec<E>(e: Option<E>) -> NativeAction<E> {
    match e {
        Some(e) => NativeAction::Dispatch(e),
        None => NativeAction::Stop,
    }
}

pub open spec fn handled_spec<E>(keep_going: bool) -> NativeAction<E> {
    if keep_going {
        NativeAction::FetchNext
    } else {
        NativeAction::Stop
    }
}

/// Decides what follows a blocking fetch: an event is dispatched; no event
/// means that the window has closed, and the loop ends.
pub fn on_fetched<E>(e: Option<E>) -> (r: NativeAction<E>)
    ensures
        r == fetched_spec(e),
{
    match e {
        Some(e) => NativeAction::Dispatch(e),
        None => NativeAction::Stop,
    }
}

/// Decides what follows a dispatch: the handler's `false` ends the loop,
/// `true` fetches the next event.
pub fn on_handled<E>(keep_going: bool) -> (r: NativeAction<E>)
    ensures
        r == handled_spec::<E>(keep_going),
{
    if keep_going {
        NativeAction::FetchNext
    } else {
        NativeAction::Stop
    }
}

/// The events that the native loop dispatches when the source yields
/// `produced` and then reports the window closed, and the handler answers
/// `replies[k]` to the `k`-th dispatched event.
pub open spec fn native_run<E>(produced: Seq<E>, replies: Seq<bool>) -> Seq<E>
    decreases produced.len(),
{
    let fetched = if produced.len() > 0 { Some(produced[0]) } else { None };
    match fetched_spec(fetched) {
        NativeAction::Dispatch(e) => seq![e] + match handled_spec::<E>(replies[0]) {
            NativeAction::FetchNext => native_run(produced.drop_first(), replies.drop_first()),
            _ => Seq::empty(),
        },
        _ => Seq::empty(),
    }
}

/// Every event that the source yields reaches the handler, in order, while the
/// handler keeps answering `true`.
pub proof fn lemma_native_in_order<E>(produced: Seq<E>, replies: Seq<bool>)
    requires
        replies.len() >= produced.len(),
        forall|j: int| 0 <= j < produced.len() ==> replies[j],
    ensures
        native_run(produced, replies) == produced,
    decreases produced.len(),
{
    if produced.len() > 0 {
        let tail_produced = produced.drop_first();
        let tail_replies = replies.drop_first();
        assert forall|j: int| 0 <= j < tail_produced.len() implies tail_replies[j] by {
            assert(tail_replies[j] == replies[j + 1]);
        }
        lemma_native_in_order(tail_produced, tail_replies);
        assert(seq![produced[0]] + tail_produced =~= produced);
    } else {
        assert(produced =~= Seq::empty());
    }
}

/// Once the handler answers `false`, the native loop dispatches nothing more:
/// what reached the handler is exactly the events up to that one.
pub proof fn lemma_native_stops_on_false<E>(produced: Seq<E>, replies: Seq<bool>, k: int)
    requires
        0 <= k < produced.len(),
        k < replies.len(),
        !replies[k],
        forall|j: int| 0 <= j < k ==> replies[j],
    ensures
        native_run(produced, replies) == produced.subrange(0, k + 1),
    decreases k,
{
    if k == 0 {
        assert(seq![produced[0]] =~= produced.subrange(0, 1));
    } else {
        let tail_produced = produced.drop_first();
        let tail_replies = replies.drop_first();
        assert(!tail_replies[k - 1]);
        assert forall|j: int| 0 <= j < k - 1 implies tail_replies[j] by {
            assert(tail_replies[j] == replies[j + 1]);
        }
        lemma_native_stops_on_false(tail_produced, tail_replies, k - 1);
        assert(seq![produced[0]] + tail_produced.subrange(0, k) =~= produced.subrange(0, k + 1));
    }
}

} // verus!
