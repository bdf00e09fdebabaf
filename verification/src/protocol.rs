//! What holds of every step of the coordinator.

use crate::config::{differs_from, removal_keeps_the_rest};
use crate::coordinator::{ActionView, CmdView, CoordinatorView, EventView, PhaseView};
use vstd::prelude::*;

verus! {

/// How many of `actions` are replies.
pub open spec fn replies(actions: Seq<ActionView>) -> nat
    decreases actions.len(),
{
    if actions.len() == 0 {
        0
    } else if actions.last() is Reply {
        replies(actions.drop_last()) + 1
    } else {
        replies(actions.drop_last())
    }
}

/// How many replies the coordinator still owes in `phase`: one while it works
/// on a request that it has not answered, none else.
pub open spec fn owed(phase: PhaseView) -> nat {
    match phase {
        PhaseView::RawFile => 1,
        PhaseView::PreviewAddress => 1,
        PhaseView::PreviewFile(_) => 1,
        PhaseView::Saving => 1,
        PhaseView::WriteAddress => 1,
        PhaseView::WriteHandOff(_) => 1,
        _ => 0,
    }
}

/// Whether `event` is what the coordinator takes in `phase`: a request while
/// it is idle, and what it waits for while it waits.
pub open spec fn fits(phase: PhaseView, event: EventView) -> bool {
    match (phase, event) {
        (PhaseView::Idle, EventView::Request(_)) => true,
        (PhaseView::RawFile, EventView::FileRead { .. }) => true,
        (PhaseView::PreviewAddress, EventView::Discovered(_)) => true,
        (PhaseView::PreviewFile(_), EventView::FileRead { .. }) => true,
        (PhaseView::Saving, EventView::Saved(_)) => true,
        (PhaseView::WriteAddress, EventView::Discovered(_)) => true,
        (PhaseView::WriteHandOff(_), EventView::HandedOff(_)) => true,
        (PhaseView::StartAddress, EventView::Discovered(_)) => true,
        (PhaseView::StartHandOff(_), EventView::HandedOff(_)) => true,
        _ => false,
    }
}

/// Whether `event` is a request that is owed a reply: any request but the one to quit.
pub open spec fn asks(event: EventView) -> bool {
    event matches EventView::Request(request) && !(request is Quit)
}

/// A stopped coordinator stays as it is and asks for nothing, and the only
/// way to stop a coordinator is the request to quit, taken while it is idle.
pub proof fn stopped_for_good(before: CoordinatorView, event: EventView)
    ensures
        before.phase is Stopped ==> before.step(event) == (before, Seq::<ActionView>::empty()),
        before.step(event).0.phase is Stopped <==> before.phase is Stopped || (before.phase is Idle
            && event == EventView::Request(CmdView::Quit)),
        !(before.phase is Stopped) && before.step(event).0.phase is Stopped ==> before.step(
            event,
        ).1 == seq![ActionView::Stop],
{
}

/// Every request but the one to quit is answered with exactly one reply, and
/// nothing else is: over a step that takes a fitting event, the replies
/// given and the replies still owed add up to the replies owed before, and
/// one more where the event is such a request. The coordinator owes nothing
/// while it is idle, so the reply is given before the next request is taken.
pub proof fn one_reply_for_each_request(before: CoordinatorView, event: EventView)
    requires
        fits(before.phase, event),
    ensures
        ({
            let (after, actions) = before.step(event);
            replies(actions) + owed(after.phase) == owed(before.phase) + if asks(event) {
                1nat
            } else {
                0nat
            }
        }),
        owed(PhaseView::Idle) == 0,
{
    reveal_with_fuel(replies, 4);
    let (after, actions) = before.step(event);
    match (before.phase, event) {
        (PhaseView::Idle, EventView::Request(request)) => {
            match request {
                CmdView::OnInit => {
                    if before.auto_run {
                        assert(actions.drop_last().drop_last() =~= Seq::<ActionView>::empty());
                    } else {
                        assert(actions.drop_last() =~= Seq::<ActionView>::empty());
                    }
                },
                _ => {
                    assert(actions.drop_last() =~= Seq::<ActionView>::empty());
                },
            }
        },
        (PhaseView::WriteHandOff(_), EventView::HandedOff(_)) => {
            if actions.len() == 2 {
                assert(actions.drop_last().drop_last() =~= Seq::<ActionView>::empty());
            } else {
                assert(actions.drop_last() =~= Seq::<ActionView>::empty());
            }
        },
        _ => {
            if actions.len() > 0 {
                assert(actions.drop_last() =~= Seq::<ActionView>::empty());
            }
        },
    }
}

/// No reply is empty: whatever the step, every reply among its actions holds
/// a message, so that who waits for the reply receives one.
pub proof fn every_reply_holds_a_message(before: CoordinatorView, event: EventView)
    ensures
        forall|i: int|
            0 <= i < before.step(event).1.len() && (#[trigger] before.step(event).1[i]) is Reply
                ==> before.step(event).1[i]->Reply_0.len() >= 1,
{
}

/// An event that does not fit is answered with one reply that tells of the
/// error, and leaves the coordinator idle with its configuration as it was.
pub proof fn misfit_is_reported(before: CoordinatorView, event: EventView)
    requires
        !(before.phase is Stopped),
        !fits(before.phase, event),
    ensures
        before.step(event) == before.confused(),
        before.step(event).0.phase is Idle,
        before.step(event).0.config == before.config,
        replies(before.step(event).1) == 1,
{
    reveal_with_fuel(replies, 2);
    let actions = before.step(event).1;
    assert(actions.drop_last() =~= Seq::<ActionView>::empty());
}

/// Only the requests that say so change the configuration: the path changes
/// with the request to set it, the names with the requests to add or remove
/// one, the distribution with the request to set it, each taken while idle;
/// the address found last changes when a query has given one. The list of
/// distributions and the wish for a write at the start never change.
pub proof fn configuration_changes_on_request(before: CoordinatorView, event: EventView)
    ensures
        ({
            let after = before.step(event).0;
            &&& after.distros == before.distros
            &&& after.auto_run == before.auto_run
            &&& after.config.hosts_path != before.config.hosts_path ==> before.phase is Idle
                && event is Request && event->Request_0 is SetHostsFile
            &&& after.config.names != before.config.names ==> before.phase is Idle
                && event is Request && (event->Request_0 is AddName
                || event->Request_0 is RemoveName)
            &&& after.config.distro != before.config.distro ==> before.phase is Idle
                && event is Request && event->Request_0 is SetDistro
            &&& after.config.last_address != before.config.last_address ==> event is Discovered
                && (before.phase is PreviewAddress || before.phase is WriteAddress
                || before.phase is StartAddress)
        }),
{
}

/// A well-formed configuration stays well-formed over every step, unless the
/// event is a request to add an empty name or to set an empty path.
pub proof fn configuration_stays_well_formed(before: CoordinatorView, event: EventView)
    requires
        before.config.wf(),
        event is Request && event->Request_0 is AddName ==> event->Request_0->AddName_0.len() > 0,
        event is Request && event->Request_0 is SetHostsFile
            ==> event->Request_0->SetHostsFile_0.len() > 0,
    ensures
        before.step(event).0.config.wf(),
{
    match (before.phase, event) {
        (PhaseView::Idle, EventView::Request(CmdView::RemoveName(name))) => {
            removal_keeps_the_rest(before.config.names, name);
            let rest = before.config.names.filter(differs_from(name));
            assert forall|k: int| 0 <= k < rest.len() implies (#[trigger] rest[k]).len() > 0 by {
                assert(rest.contains(rest[k]));
                let j = choose|j: int|
                    0 <= j < before.config.names.len() && before.config.names[j] == rest[k];
            }
        },
        _ => {},
    }
}

/// Events are taken in the order in which they come, and the actions come in
/// that order too: a row of events may be cut anywhere, and what the second
/// part leads to, from where the first part left off, follows what the first
/// part led to.
pub proof fn events_are_taken_in_order(
    before: CoordinatorView,
    first: Seq<EventView>,
    second: Seq<EventView>,
)
    ensures
        before.run(first + second) == ({
            let (between, earlier) = before.run(first);
            let (after, later) = between.run(second);
            (after, earlier + later)
        }),
    decreases second.len(),
{
    let (between, earlier) = before.run(first);
    if second.len() == 0 {
        assert(first + second =~= first);
        assert(earlier + Seq::<ActionView>::empty() =~= earlier);
    } else {
        let all = first + second;
        assert(all.drop_last() =~= first + second.drop_last());
        assert(all.last() == second.last());
        events_are_taken_in_order(before, first, second.drop_last());
        let (middle, some) = between.run(second.drop_last());
        let (after, last) = middle.step(second.last());
        assert(earlier + (some + last) =~= (earlier + some) + last);
    }
}

/// A stopped coordinator takes a row of events as it takes one: it stays as
/// it is and asks for nothing.
pub proof fn nothing_after_the_stop(before: CoordinatorView, events: Seq<EventView>)
    requires
        before.phase is Stopped,
    ensures
        before.run(events) == (before, Seq::<ActionView>::empty()),
    decreases events.len(),
{
    if events.len() > 0 {
        nothing_after_the_stop(before, events.drop_last());
        assert(Seq::<ActionView>::empty() + Seq::<ActionView>::empty() =~= Seq::<
            ActionView,
        >::empty());
    }
}

} // verus!
