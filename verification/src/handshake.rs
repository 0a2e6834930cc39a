//! What is done on a fresh connection before it takes commands.

use crate::connection::RespVersion;
use crate::pubsub::{replay_views, Replay, ReplayView, SubscriptionSet};
use vstd::prelude::*;

verus! {

/// One step of a handshake.
#[derive(Debug)]
pub enum HandshakeStep {
    /// Agree on the protocol version.
    Negotiate(RespVersion),
    /// Present the credentials.
    Authenticate,
    /// Set up a subscription or tracking again.
    Restore(Replay),
}

/// What a [`HandshakeStep`] stands for.
pub enum HandshakeStepView {
    Negotiate(RespVersion),
    Authenticate,
    Restore(ReplayView),
}

impl View for HandshakeStep {
    type V = HandshakeStepView;

    open spec fn view(&self) -> HandshakeStepView {
        match self {
            HandshakeStep::Negotiate(v) => HandshakeStepView::Negotiate(*v),
            HandshakeStep::Authenticate => HandshakeStepView::Authenticate,
            HandshakeStep::Restore(r) => HandshakeStepView::Restore(r@),
        }
    }
}

/// The views of a run of steps.
pub open spec fn step_views(steps: Seq<HandshakeStep>) -> Seq<HandshakeStepView> {
    Seq::new(steps.len(), |i: int| steps[i]@)
}

/// The steps of a handshake: the version, the credentials if there are any, and then
/// everything that is subscribed to, in full.
pub open spec fn handshake_plan(
    version: RespVersion,
    credentials: bool,
    replay: Seq<ReplayView>,
) -> Seq<HandshakeStepView> {
    seq![HandshakeStepView::Negotiate(version)] + (if credentials {
        seq![HandshakeStepView::Authenticate]
    } else {
        Seq::empty()
    }) + replay.map_values(|r: ReplayView| HandshakeStepView::Restore(r))
}

/// Plans the handshake of a connection. Only when all of its steps have succeeded is the
/// connection ready, so that no subscription is silently lost over a reconnect.
pub fn plan_handshake(version: RespVersion, credentials: bool, subscriptions: &SubscriptionSet) -> (steps:
    Vec<HandshakeStep>)
    ensures
        step_views(steps@) == handshake_plan(version, credentials, subscriptions@.replay()),
{
    let mut steps: Vec<HandshakeStep> = Vec::new();
    steps.push(HandshakeStep::Negotiate(version));
    if credentials {
        steps.push(HandshakeStep::Authenticate);
    }
    let replay = subscriptions.replay();
    let ghost head = step_views(steps@);
    let ghost all = replay_views(replay@);
    let ghost count = replay.len() as int;
    let mut stack = crate::collect::reversed(replay);
    while stack.len() > 0
        invariant
            stack.len() <= count,
            count == all.len(),
            forall|i: int| 0 <= i < stack.len() ==> (#[trigger] stack[i])@ == all[count - 1 - i],
            step_views(steps@) == head + all.take(count - stack.len()).map_values(
                |r: ReplayView| HandshakeStepView::Restore(r),
            ),
        decreases stack.len(),
    {
        let ghost done = count - stack.len();
        let ghost before = step_views(steps@);
        match stack.pop() {
            Some(r) => {
                steps.push(HandshakeStep::Restore(r));
                assert(step_views(steps@) =~= before.push(HandshakeStepView::Restore(all[done])));
                assert(all.take(done + 1).map_values(|r: ReplayView| HandshakeStepView::Restore(r))
                    =~= all.take(done).map_values(
                    |r: ReplayView| HandshakeStepView::Restore(r),
                ).push(HandshakeStepView::Restore(all[done])));
            },
            None => {},
        }
    }
    assert(all.take(count) =~= all);
    steps
}

} // verus!
