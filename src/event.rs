use vstd::prelude::*;

verus! {

/// One unit of work for the application.
#[derive(Debug, PartialEq, Eq)]
pub enum LogicalEvent<P> {
    /// A raw input event (a key press, a mouse event, a resize).
    InputEvent(P),
    /// The periodic timer fired.
    Tick,
    /// Background work finished and the application should refresh.
    AsyncRefresh,
}

/// A call that the loop asks of the application.
#[derive(Debug, PartialEq, Eq)]
pub enum Action<P> {
    /// `event(payload)`: handle one input event.
    Event(P),
    /// `update()`: handle a timer tick.
    Update,
    /// `update_diff()`: reconcile with background results.
    UpdateDiff,
    /// `draw(target)`: paint the current state.
    Draw,
}

/// The handler that an event is dispatched to.
pub open spec fn handler_of<P>(e: LogicalEvent<P>) -> Action<P> {
    match e {
        LogicalEvent::InputEvent(p) => Action::Event(p),
        LogicalEvent::Tick => Action::Update,
        LogicalEvent::AsyncRefresh => Action::UpdateDiff,
    }
}

/// Maps an event to the call of its handler.
pub fn handler_for<P>(e: LogicalEvent<P>) -> (a: Action<P>)
    ensures
        a == handler_of(e),
{
    match e {
        LogicalEvent::InputEvent(p) => Action::Event(p),
        LogicalEvent::Tick => Action::Update,
        LogicalEvent::AsyncRefresh => Action::UpdateDiff,
    }
}

/// The calls of one iteration that dispatches `events`: each handler in the
/// order of the events, then one render pass. An iteration with no event
/// renders nothing.
pub open spec fn plan_of<P>(events: Seq<LogicalEvent<P>>) -> Seq<Action<P>> {
    if events.len() == 0 {
        Seq::empty()
    } else {
        events.map_values(|e: LogicalEvent<P>| handler_of(e)).push(Action::Draw)
    }
}

/// Builds the calls of one iteration over `events`.
pub fn plan_iteration<P>(events: Vec<LogicalEvent<P>>) -> (r: Vec<Action<P>>)
    ensures
        r@ == plan_of(events@),
{
    let ghost evs = events@;
    let n = events.len();
    let mut r: Vec<Action<P>> = Vec::new();
    for e in it: events.into_iter()
        invariant
            it.seq() == evs,
            r@ == evs.take(it.index()).map_values(|e: LogicalEvent<P>| handler_of(e)),
    {
        r.push(handler_for(e));
        proof {
            assert(evs.take(it.index() + 1).drop_last() == evs.take(it.index() as int));
        }
    }
    if n > 0 {
        r.push(Action::Draw);
    }
    proof {
        assert(evs.take(evs.len() as int) == evs);
    }
    r
}

/// How many times `a` occurs in `s`.
pub open spec fn count_of<P>(s: Seq<Action<P>>, a: Action<P>) -> nat
    decreases s.len(),
{
    if s.len() == 0 {
        0
    } else {
        count_of(s.drop_last(), a) + if s.last() == a {
            1nat
        } else {
            0nat
        }
    }
}

pub proof fn lemma_count_concat<P>(s: Seq<Action<P>>, t: Seq<Action<P>>, a: Action<P>)
    ensures
        count_of(s + t, a) == count_of(s, a) + count_of(t, a),
    decreases t.len(),
{
    if t.len() == 0 {
        assert(s + t =~= s);
    } else {
        lemma_count_concat(s, t.drop_last(), a);
        assert((s + t).drop_last() =~= s + t.drop_last());
    }
}

pub proof fn lemma_count_absent<P>(s: Seq<Action<P>>, a: Action<P>)
    requires
        forall|i: int| 0 <= i < s.len() ==> s[i] != a,
    ensures
        count_of(s, a) == 0,
    decreases s.len(),
{
    if s.len() > 0 {
        lemma_count_absent(s.drop_last(), a);
    }
}

/// The handlers of a non-empty batch are called in the batch's order, and
/// exactly one render pass follows them, never one in between.
pub proof fn lemma_batch_dispatched_in_order<P>(b: Seq<LogicalEvent<P>>)
    requires
        b.len() > 0,
    ensures
        plan_of(b).len() == b.len() + 1,
        forall|i: int| 0 <= i < b.len() ==> plan_of(b)[i] == handler_of(#[trigger] b[i]),
        plan_of(b).last() == Action::<P>::Draw,
        count_of(plan_of(b), Action::Draw) == 1,
{
    let h = b.map_values(|e: LogicalEvent<P>| handler_of(e));
    assert forall|i: int| 0 <= i < h.len() implies h[i] != Action::<P>::Draw by {
        assert(h[i] == handler_of(b[i]));
    }
    lemma_count_absent(h, Action::Draw);
    assert(plan_of(b).drop_last() =~= h);
}

/// An iteration renders only after dispatching at least one event: it
/// either makes no call at all, or its one render pass is its last call and
/// follows at least one handler call.
pub proof fn lemma_render_after_dispatch<P>(events: Seq<LogicalEvent<P>>)
    ensures
        plan_of(events).len() == 0 || {
            &&& plan_of(events).len() >= 2
            &&& plan_of(events).last() == Action::<P>::Draw
            &&& forall|j: int|
                0 <= j < plan_of(events).len() - 1 ==> plan_of(events)[j] != Action::<P>::Draw
        },
        count_of(plan_of(events), Action::Draw) == if plan_of(events).len() == 0 {
            0nat
        } else {
            1nat
        },
{
    if events.len() > 0 {
        lemma_batch_dispatched_in_order(events);
        assert forall|j: int| 0 <= j < plan_of(events).len() - 1 implies plan_of(events)[j]
            != Action::<P>::Draw by {
            assert(plan_of(events)[j] == handler_of(events[j]));
        }
    }
}

} // verus!
