use vstd::prelude::*;

use crate::event::{count_of, lemma_count_concat, plan_iteration, plan_of, Action, LogicalEvent};

verus! {

/// What the fair wait over the two channels delivered in one iteration.
#[derive(Debug, PartialEq, Eq)]
pub enum Selected<P> {
    /// One batch from the polling channel, in arrival order.
    Batch(Vec<LogicalEvent<P>>),
    /// One signal from the refresh channel.
    Refresh,
    /// The polling channel's producer has gone away.
    PollDisconnected,
    /// Every sender of the refresh channel has gone away.
    RefreshDisconnected,
}

/// Why the loop stopped without the application asking to.
#[derive(Clone, Copy, Debug, PartialEq, Eq)]
pub enum LoopError {
    /// A channel's producer ended; the process cannot go on.
    ChannelDisconnected,
}

/// Where the loop stands between two calls of its caller.
#[derive(Clone, Copy, Debug, PartialEq, Eq)]
pub enum Phase {
    /// Waiting on the two channels.
    Idle,
    /// The handlers and the render pass of an iteration were handed out;
    /// the quit flag is to be reported.
    Rendering,
    /// The loop is over: no further event is dispatched.
    Terminated,
}

/// Whether a delivery is a lost producer.
pub open spec fn is_disconnect<P>(sel: Selected<P>) -> bool {
    sel is PollDisconnected || sel is RefreshDisconnected
}

/// The events that one delivery contributes to its iteration.
pub open spec fn selected_events<P>(sel: Selected<P>) -> Seq<LogicalEvent<P>> {
    match sel {
        Selected::Batch(b) => b@,
        Selected::Refresh => seq![LogicalEvent::AsyncRefresh],
        _ => Seq::empty(),
    }
}

/// The calls that one delivery asks of the application.
pub open spec fn plan_for<P>(sel: Selected<P>) -> Seq<Action<P>> {
    plan_of(selected_events(sel))
}

/// The dispatcher: turns each delivery into the application calls of one
/// iteration and tracks the loop's phase.
pub struct EventLoop<P> {
    phase: Phase,
    issued: Ghost<Seq<Action<P>>>,
}

impl<P> EventLoop<P> {
    /// The loop's current phase.
    pub closed spec fn phase(&self) -> Phase {
        self.phase
    }

    /// Every call handed out so far, in order.
    pub closed spec fn issued(&self) -> Seq<Action<P>> {
        self.issued@
    }

    /// A loop that waits for its first delivery.
    pub fn new() -> (l: Self)
        ensures
            l.phase() == Phase::Idle,
            l.issued() == Seq::<Action<P>>::empty(),
    {
        EventLoop { phase: Phase::Idle, issued: Ghost(Seq::empty()) }
    }

    /// The loop's current phase.
    pub fn current_phase(&self) -> (r: Phase)
        ensures
            r == self.phase(),
    {
        self.phase
    }

    /// Whether the loop has ended.
    pub fn is_terminated(&self) -> (r: bool)
        ensures
            r == (self.phase() == Phase::Terminated),
    {
        match self.phase {
            Phase::Terminated => true,
            _ => false,
        }
    }

    /// Takes one delivery of the wait and returns the calls to make, in
    /// order: the handler of each event, then one render pass. A lost
    /// producer ends the loop with an error. A delivery without events asks
    /// for nothing and leaves the loop waiting.
    pub fn next_actions(&mut self, sel: Selected<P>) -> (r: Result<Vec<Action<P>>, LoopError>)
        requires
            old(self).phase() == Phase::Idle,
        ensures
            is_disconnect(sel) <==> r is Err,
            r is Err ==> r == Err::<Vec<Action<P>>, LoopError>(LoopError::ChannelDisconnected)
                && final(self).phase() == Phase::Terminated
                && final(self).issued() == old(self).issued(),
            r matches Ok(v) ==> {
                &&& v@ == plan_for(sel)
                &&& final(self).issued() == old(self).issued() + v@
                &&& final(self).phase() == (if v@.len() == 0 {
                    Phase::Idle
                } else {
                    Phase::Rendering
                })
            },
    {
        let events: Vec<LogicalEvent<P>> = match sel {
            Selected::Batch(b) => b,
            Selected::Refresh => vec![LogicalEvent::AsyncRefresh],
            Selected::PollDisconnected | Selected::RefreshDisconnected => {
                self.phase = Phase::Terminated;
                return Err(LoopError::ChannelDisconnected);
            },
        };
        let ghost evs = events@;
        let n = events.len();
        let plan = plan_iteration(events);
        proof {
            assert(evs =~= selected_events(sel));
        }
        self.issued = Ghost(self.issued@ + plan@);
        if n > 0 {
            self.phase = Phase::Rendering;
        }
        Ok(plan)
    }

    /// Takes the quit flag that the application reported after the render
    /// pass: the loop ends if it is set and waits again otherwise.
    pub fn rendered(&mut self, quit: bool)
        requires
            old(self).phase() == Phase::Rendering,
        ensures
            final(self).phase() == (if quit {
                Phase::Terminated
            } else {
                Phase::Idle
            }),
            final(self).issued() == old(self).issued(),
    {
        self.phase = if quit {
            Phase::Terminated
        } else {
            Phase::Idle
        };
    }
}

/// The calls that a run of deliveries asks of the application, iteration
/// after iteration.
pub open spec fn plans<P>(sels: Seq<Selected<P>>) -> Seq<Action<P>>
    decreases sels.len(),
{
    if sels.len() == 0 {
        Seq::empty()
    } else {
        plans(sels.drop_last()) + plan_for(sels.last())
    }
}

/// Refresh signals are not merged: n signals, each drained in an iteration
/// of its own, give n calls of `update_diff` and n render passes.
pub proof fn lemma_each_refresh_dispatched<P>(sels: Seq<Selected<P>>)
    requires
        forall|i: int| 0 <= i < sels.len() ==> sels[i] is Refresh,
    ensures
        count_of(plans(sels), Action::UpdateDiff) == sels.len(),
        count_of(plans(sels), Action::Draw) == sels.len(),
    decreases sels.len(),
{
    if sels.len() > 0 {
        let rest = sels.drop_last();
        lemma_each_refresh_dispatched(rest);
        let p = plan_for(sels.last());
        assert(p =~= seq![Action::<P>::UpdateDiff, Action::<P>::Draw]);
        assert(p.drop_last() =~= seq![Action::<P>::UpdateDiff]);
        assert(p.drop_last().drop_last() =~= Seq::<Action<P>>::empty());
        assert(count_of(p.drop_last().drop_last(), Action::UpdateDiff) == 0);
        assert(count_of(p.drop_last().drop_last(), Action::Draw) == 0);
        assert(count_of(p.drop_last(), Action::UpdateDiff) == 1);
        assert(count_of(p, Action::UpdateDiff) == 1);
        assert(count_of(p.drop_last(), Action::Draw) == 0);
        assert(count_of(p, Action::Draw) == 1);
        lemma_count_concat(plans(rest), p, Action::UpdateDiff);
        lemma_count_concat(plans(rest), p, Action::Draw);
    }
}

} // verus!
