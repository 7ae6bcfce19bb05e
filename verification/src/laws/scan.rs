//! What holds of a scan from its first step to its last.

use vstd::prelude::*;
use crate::laws::vendors::{law_vendor_of_mac, prefix_of};
use crate::models::{opt_text, ArpHit, DeviceUpdate};
use crate::net::{ip_text, mac_text};
use crate::scanner::{
    action_after, at_host, first_state, host_action, host_name, state_after, update_for, ScanAction,
    ScanEvent, ScanPhase, ScanState, ONLINE_WINDOW_MINUTES,
};

verus! {

/// The state of a scan after some events.
pub open spec fn state_after_all(state: ScanState, events: Seq<ScanEvent>) -> ScanState
    decreases events.len(),
{
    if events.len() == 0 {
        state
    } else {
        state_after_all(state_after(state, events.first()), events.drop_first())
    }
}

/// What a scan has saved by the end of some events.
pub open spec fn saved_by(
    state: ScanState,
    events: Seq<ScanEvent>,
    vendors: Map<Seq<char>, Seq<char>>,
) -> Seq<DeviceUpdate<Seq<char>>>
    decreases events.len(),
{
    if events.len() == 0 {
        Seq::empty()
    } else {
        let rest = saved_by(state_after(state, events.first()), events.drop_first(), vendors);
        match action_after(state, events.first(), vendors) {
            ScanAction::SaveDevice(update) => seq![update] + rest,
            _ => rest,
        }
    }
}

/// The last action of a scan after some events, `action` being the last one before
/// them.
pub open spec fn last_action(
    state: ScanState,
    action: ScanAction<Seq<char>>,
    events: Seq<ScanEvent>,
    vendors: Map<Seq<char>, Seq<char>>,
) -> ScanAction<Seq<char>>
    decreases events.len(),
{
    if events.len() == 0 {
        action
    } else {
        last_action(
            state_after(state, events.first()),
            action_after(state, events.first(), vendors),
            events.drop_first(),
            vendors,
        )
    }
}

/// The events of some hosts: for each the name that was found, or none, and
/// whether it could be saved.
pub open spec fn host_events(names: Seq<Option<String>>, outcomes: Seq<bool>) -> Seq<ScanEvent>
    decreases names.len(),
{
    if names.len() == 0 {
        Seq::empty()
    } else {
        seq![ScanEvent::NameFound(names.first()), ScanEvent::SaveDone(outcomes.first())]
            + host_events(names.drop_first(), outcomes.drop_first())
    }
}

proof fn lemma_one_host_is_saved(
    state: ScanState,
    name: Option<String>,
    outcome: bool,
    rest: Seq<ScanEvent>,
    vendors: Map<Seq<char>, Seq<char>>,
)
    requires
        state.phase == ScanPhase::Resolving,
    ensures
        ({
            let events = seq![ScanEvent::NameFound(name), ScanEvent::SaveDone(outcome)] + rest;
            let next = at_host(state, state.done + 1);
            &&& state_after_all(state, events) == state_after_all(next, rest)
            &&& saved_by(state, events, vendors) == seq![
                update_for(state.hits[state.done as int], opt_text(name), vendors),
            ] + saved_by(next, rest, vendors)
            &&& forall|action: ScanAction<Seq<char>>| #[trigger]
                last_action(state, action, events, vendors) == last_action(
                    next,
                    host_action(state.hits, state.done + 1),
                    rest,
                    vendors,
                )
        }),
{
    let events = seq![ScanEvent::NameFound(name), ScanEvent::SaveDone(outcome)] + rest;
    let saving = ScanState { phase: ScanPhase::Saving, ..state };
    let tail = seq![ScanEvent::SaveDone(outcome)] + rest;
    assert(events.first() == ScanEvent::NameFound(name));
    assert(events.drop_first() =~= tail);
    assert(state_after(state, events.first()) == saving);
    assert(tail.first() == ScanEvent::SaveDone(outcome));
    assert(tail.drop_first() =~= rest);
    assert(state_after(saving, tail.first()) == at_host(state, state.done + 1));
    assert(state_after_all(saving, tail) == state_after_all(
        at_host(state, state.done + 1),
        rest,
    ));
    assert(saved_by(saving, tail, vendors) == saved_by(
        at_host(state, state.done + 1),
        rest,
        vendors,
    ));
    assert forall|action: ScanAction<Seq<char>>| #[trigger]
        last_action(state, action, events, vendors) == last_action(
            at_host(state, state.done + 1),
            host_action(state.hits, state.done + 1),
            rest,
            vendors,
        ) by {
        let saved = action_after(state, events.first(), vendors);
        assert(last_action(state, action, events, vendors) == last_action(
            saving,
            saved,
            tail,
            vendors,
        ));
        assert(last_action(saving, saved, tail, vendors) == last_action(
            at_host(state, state.done + 1),
            host_action(state.hits, state.done + 1),
            rest,
            vendors,
        ));
    }
}

/// Every host that answered is saved, once, in the order of the answers, and
/// whether or not saving another one failed; then the stale devices are marked.
pub proof fn law_every_host_is_saved(
    state: ScanState,
    action: ScanAction<Seq<char>>,
    names: Seq<Option<String>>,
    outcomes: Seq<bool>,
    vendors: Map<Seq<char>, Seq<char>>,
)
    requires
        state.phase == ScanPhase::Resolving,
        state.valid(),
        names.len() == state.hits.len() - state.done,
        outcomes.len() == names.len(),
    ensures
        state_after_all(state, host_events(names, outcomes)) == (ScanState {
            phase: ScanPhase::Marking,
            done: state.hits.len(),
            ..state
        }),
        saved_by(state, host_events(names, outcomes), vendors).len() == names.len(),
        forall|i: int|
            0 <= i < names.len() ==> #[trigger] saved_by(
                state,
                host_events(names, outcomes),
                vendors,
            )[i] == update_for(state.hits[state.done + i], opt_text(names[i]), vendors),
        last_action(state, action, host_events(names, outcomes), vendors) == ScanAction::<
            Seq<char>,
        >::MarkStale(ONLINE_WINDOW_MINUTES),
    decreases names.len(),
{
    let rest = host_events(names.drop_first(), outcomes.drop_first());
    let next = at_host(state, state.done + 1);
    let update = update_for(state.hits[state.done as int], opt_text(names.first()), vendors);
    let later = saved_by(next, rest, vendors);
    lemma_one_host_is_saved(state, names.first(), outcomes.first(), rest, vendors);
    assert(saved_by(state, host_events(names, outcomes), vendors) == seq![update] + later);
    let next_action = host_action(state.hits, state.done + 1);
    assert(last_action(state, action, host_events(names, outcomes), vendors) == last_action(
        next,
        next_action,
        rest,
        vendors,
    ));
    if names.len() > 1 {
        law_every_host_is_saved(
            next,
            next_action,
            names.drop_first(),
            outcomes.drop_first(),
            vendors,
        );
        assert forall|i: int| 0 <= i < names.len() implies #[trigger] saved_by(
            state,
            host_events(names, outcomes),
            vendors,
        )[i] == update_for(state.hits[state.done + i], opt_text(names[i]), vendors) by {
            if i > 0 {
                assert(later[i - 1] == update_for(
                    next.hits[next.done + (i - 1)],
                    opt_text(names.drop_first()[i - 1]),
                    vendors,
                ));
            }
        }
    } else {
        assert(rest =~= Seq::empty());
        assert(later =~= Seq::empty());
    }
}

/// A scan of which every step but saving devices succeeds is completed: each
/// host that answered is saved, then the stale devices are marked, the scan is
/// recorded as completed with the number of hosts, and that number is reported.
pub proof fn law_scan_completes(
    id: i64,
    hits: Vec<ArpHit>,
    names: Seq<Option<String>>,
    outcomes: Seq<bool>,
    vendors: Map<Seq<char>, Seq<char>>,
)
    requires
        names.len() == hits@.len(),
        outcomes.len() == hits@.len(),
    ensures
        ({
            let started = state_after(first_state(), ScanEvent::Started(id));
            let swept = state_after(started, ScanEvent::Swept(hits));
            let first = action_after(started, ScanEvent::Swept(hits), vendors);
            let served = state_after_all(swept, host_events(names, outcomes));
            let marked = state_after(served, ScanEvent::StaleMarked);
            let saved = saved_by(swept, host_events(names, outcomes), vendors);
            &&& action_after(first_state(), ScanEvent::Started(id), vendors) is Sweep
            &&& saved.len() == hits@.len()
            &&& forall|i: int|
                0 <= i < hits@.len() ==> #[trigger] saved[i] == update_for(
                    hits@[i],
                    opt_text(names[i]),
                    vendors,
                )
            &&& last_action(swept, first, host_events(names, outcomes), vendors) == ScanAction::<
                Seq<char>,
            >::MarkStale(ONLINE_WINDOW_MINUTES)
            &&& action_after(served, ScanEvent::StaleMarked, vendors) == ScanAction::<
                Seq<char>,
            >::FinishScan(id, hits@.len() as i64)
            &&& action_after(marked, ScanEvent::Finished, vendors) == ScanAction::<
                Seq<char>,
            >::Complete(hits@.len() as usize)
        }),
{
    let started = state_after(first_state(), ScanEvent::Started(id));
    let swept = state_after(started, ScanEvent::Swept(hits));
    let first = action_after(started, ScanEvent::Swept(hits), vendors);
    if hits@.len() > 0 {
        law_every_host_is_saved(swept, first, names, outcomes, vendors);
    } else {
        assert(host_events(names, outcomes) =~= Seq::empty());
    }
}

/// A failure other than in saving a device ends the scan, and nothing revives
/// it.
pub proof fn law_failure_ends_the_scan(
    state: ScanState,
    event: ScanEvent,
    vendors: Map<Seq<char>, Seq<char>>,
)
    requires
        event is Failed || state.phase == ScanPhase::Over,
    ensures
        state_after(state, event).phase == ScanPhase::Over,
        action_after(state, event, vendors) is Abort,
{
}

// ---- what is saved of a host ----

/// What is saved of a host that answered is its own MAC and address, and the vendor that
/// the table has under the upper-case digits of the first three octets of its MAC, whatever
/// name has been found or not; no vendor is saved only where the table has no such entry.
pub proof fn law_saved_host(
    hit: ArpHit,
    found: Option<Seq<char>>,
    vendors: Map<Seq<char>, Seq<char>>,
)
    ensures
        update_for(hit, found, vendors).mac == mac_text(hit.mac),
        update_for(hit, found, vendors).ip == ip_text(hit.ip),
        vendors.contains_key(prefix_of(hit.mac)) ==> update_for(hit, found, vendors).vendor == Some(
            vendors[prefix_of(hit.mac)],
        ),
        !vendors.contains_key(prefix_of(hit.mac)) ==> update_for(hit, found, vendors).vendor
            is None,
{
    law_vendor_of_mac(vendors, hit.mac);
}

/// The name that is saved of a host is the one that was found for it, unless that is empty
/// or its own address; it depends on nothing else.
pub proof fn law_saved_name(
    hit: ArpHit,
    name: Seq<char>,
    vendors: Map<Seq<char>, Seq<char>>,
)
    ensures
        update_for(hit, None, vendors).hostname is None,
        name.len() == 0 || name == ip_text(hit.ip) ==> update_for(
            hit,
            Some(name),
            vendors,
        ).hostname is None,
        name.len() > 0 && name != ip_text(hit.ip) ==> update_for(hit, Some(name), vendors).hostname
            == Some(name),
        host_name(hit.ip, Some(name)) == update_for(hit, Some(name), vendors).hostname,
        host_name(hit.ip, None) is None,
{
}

/// The name and the rest of what is saved are independent: two lookups that end
/// differently change the name alone, and two vendor tables the vendor alone.
pub proof fn law_name_and_vendor_are_independent(
    hit: ArpHit,
    a: Option<Seq<char>>,
    b: Option<Seq<char>>,
    vendors: Map<Seq<char>, Seq<char>>,
    others: Map<Seq<char>, Seq<char>>,
)
    ensures
        update_for(hit, a, vendors) == (DeviceUpdate {
            hostname: update_for(hit, a, vendors).hostname,
            ..update_for(hit, b, vendors)
        }),
        update_for(hit, a, vendors) == (DeviceUpdate {
            vendor: update_for(hit, a, vendors).vendor,
            ..update_for(hit, a, others)
        }),
{
}

// ---- the actions of a scan ----

/// The actions of a scan that answer some events.
pub open spec fn actions_by(
    state: ScanState,
    events: Seq<ScanEvent>,
    vendors: Map<Seq<char>, Seq<char>>,
) -> Seq<ScanAction<Seq<char>>>
    decreases events.len(),
{
    if events.len() == 0 {
        Seq::empty()
    } else {
        seq![action_after(state, events.first(), vendors)] + actions_by(
            state_after(state, events.first()),
            events.drop_first(),
            vendors,
        )
    }
}

/// What is done about some hosts: the name of each is looked up under its address, then it
/// is saved with the name that was found for it; at the end the devices not seen for 15
/// minutes are marked.
pub open spec fn work_on_hosts(
    hits: Seq<ArpHit>,
    names: Seq<Option<String>>,
    vendors: Map<Seq<char>, Seq<char>>,
) -> Seq<ScanAction<Seq<char>>>
    decreases hits.len(),
{
    if hits.len() == 0 {
        seq![ScanAction::MarkStale(15)]
    } else {
        seq![
            ScanAction::ResolveName(hits[0].ip),
            ScanAction::SaveDevice(update_for(hits[0], opt_text(names[0]), vendors)),
        ] + work_on_hosts(hits.drop_first(), names.drop_first(), vendors)
    }
}

proof fn lemma_work_on_one_host(
    state: ScanState,
    name: Option<String>,
    outcome: bool,
    rest: Seq<ScanEvent>,
    vendors: Map<Seq<char>, Seq<char>>,
)
    requires
        state.phase == ScanPhase::Resolving,
    ensures
        actions_by(
            state,
            seq![ScanEvent::NameFound(name), ScanEvent::SaveDone(outcome)] + rest,
            vendors,
        ) == seq![
            ScanAction::SaveDevice(
                update_for(state.hits[state.done as int], opt_text(name), vendors),
            ),
            host_action(state.hits, state.done + 1),
        ] + actions_by(at_host(state, state.done + 1), rest, vendors),
{
    let events = seq![ScanEvent::NameFound(name), ScanEvent::SaveDone(outcome)] + rest;
    let saving = ScanState { phase: ScanPhase::Saving, ..state };
    let next = at_host(state, state.done + 1);
    let tail = seq![ScanEvent::SaveDone(outcome)] + rest;
    let save = action_after(state, ScanEvent::NameFound(name), vendors);
    let step = host_action(state.hits, state.done + 1);
    let after = actions_by(next, rest, vendors);
    assert(events.first() == ScanEvent::NameFound(name));
    assert(events.drop_first() =~= tail);
    assert(state_after(state, ScanEvent::NameFound(name)) == saving);
    assert(tail.first() == ScanEvent::SaveDone(outcome));
    assert(tail.drop_first() =~= rest);
    assert(state_after(saving, ScanEvent::SaveDone(outcome)) == next);
    assert(action_after(saving, ScanEvent::SaveDone(outcome), vendors) == step);
    assert(actions_by(saving, tail, vendors) == seq![step] + after);
    assert(actions_by(state, events, vendors) == seq![save] + (seq![step] + after));
    assert(seq![save] + (seq![step] + after) =~= seq![save, step] + after);
}

proof fn lemma_regrouped<A>(a: A, b: A, c: A, then: Seq<A>, done: Seq<A>, after: Seq<A>)
    requires
        seq![c] + then == done + after,
    ensures
        seq![a] + (seq![b, c] + then) == seq![a, b] + done + after,
{
    assert(seq![a] + (seq![b, c] + then) =~= seq![a, b] + (seq![c] + then));
    assert(seq![a, b] + (done + after) =~= seq![a, b] + done + after);
}

proof fn lemma_work_on_hosts(
    state: ScanState,
    names: Seq<Option<String>>,
    outcomes: Seq<bool>,
    rest: Seq<ScanEvent>,
    vendors: Map<Seq<char>, Seq<char>>,
)
    requires
        state == at_host(state, state.done),
        state.done <= state.hits.len(),
        names.len() == state.hits.len() - state.done,
        outcomes.len() == names.len(),
    ensures
        seq![host_action(state.hits, state.done)] + actions_by(
            state,
            host_events(names, outcomes) + rest,
            vendors,
        ) == work_on_hosts(state.hits.skip(state.done as int), names, vendors) + actions_by(
            at_host(state, state.hits.len()),
            rest,
            vendors,
        ),
    decreases names.len(),
{
    let hits = state.hits.skip(state.done as int);
    let end = at_host(state, state.hits.len());
    let after = actions_by(end, rest, vendors);
    if names.len() == 0 {
        assert(host_events(names, outcomes) + rest =~= rest);
        assert(state.done == state.hits.len());
        assert(hits.len() == 0);
    } else {
        let next = at_host(state, state.done + 1);
        let later = host_events(names.drop_first(), outcomes.drop_first()) + rest;
        let done = work_on_hosts(hits.drop_first(), names.drop_first(), vendors);
        lemma_work_on_hosts(next, names.drop_first(), outcomes.drop_first(), rest, vendors);
        assert(hits.drop_first() =~= next.hits.skip(next.done as int));
        assert(at_host(next, next.hits.len()) == end);
        lemma_work_on_next_host(state, names, outcomes, later, rest, done, after, vendors);
    }
}

proof fn lemma_work_on_next_host(
    state: ScanState,
    names: Seq<Option<String>>,
    outcomes: Seq<bool>,
    later: Seq<ScanEvent>,
    rest: Seq<ScanEvent>,
    done: Seq<ScanAction<Seq<char>>>,
    after: Seq<ScanAction<Seq<char>>>,
    vendors: Map<Seq<char>, Seq<char>>,
)
    requires
        state.phase == ScanPhase::Resolving,
        state.done < state.hits.len(),
        names.len() > 0,
        later == host_events(names.drop_first(), outcomes.drop_first()) + rest,
        done == work_on_hosts(
            state.hits.skip(state.done as int).drop_first(),
            names.drop_first(),
            vendors,
        ),
        seq![host_action(state.hits, state.done + 1)] + actions_by(
            at_host(state, state.done + 1),
            later,
            vendors,
        ) == done + after,
    ensures
        seq![host_action(state.hits, state.done)] + actions_by(
            state,
            host_events(names, outcomes) + rest,
            vendors,
        ) == work_on_hosts(state.hits.skip(state.done as int), names, vendors) + after,
{
    let hits = state.hits.skip(state.done as int);
    let pair = seq![
        ScanEvent::NameFound(names.first()),
        ScanEvent::SaveDone(outcomes.first()),
    ];
    let tail = host_events(names.drop_first(), outcomes.drop_first());
    let now = host_action(state.hits, state.done);
    let save = ScanAction::SaveDevice(update_for(hits[0], opt_text(names[0]), vendors));
    let step = host_action(state.hits, state.done + 1);
    let then = actions_by(at_host(state, state.done + 1), later, vendors);
    assert(host_events(names, outcomes) == pair + tail);
    assert((pair + tail) + rest =~= pair + (tail + rest));
    lemma_work_on_one_host(state, names.first(), outcomes.first(), later, vendors);
    lemma_regrouped(now, save, step, then, done, after);
    assert(hits[0] == state.hits[state.done as int]);
    assert(now == ScanAction::<Seq<char>>::ResolveName(hits[0].ip));
    assert(work_on_hosts(hits, names, vendors) == seq![now, save] + done);
}

/// The whole of a scan of which every step but saving devices succeeds: sweep; look up the
/// name of each host that answered and save it, in the order of the answers and whether or
/// not another one could be saved; mark the stale devices; record the scan under its id as
/// completed with the number of hosts; report that number.
pub proof fn law_actions_of_a_scan(
    id: i64,
    hits: Vec<ArpHit>,
    names: Seq<Option<String>>,
    outcomes: Seq<bool>,
    vendors: Map<Seq<char>, Seq<char>>,
)
    requires
        names.len() == hits@.len(),
        outcomes.len() == hits@.len(),
    ensures
        actions_by(
            first_state(),
            seq![ScanEvent::Started(id), ScanEvent::Swept(hits)] + (host_events(names, outcomes)
                + seq![ScanEvent::StaleMarked, ScanEvent::Finished]),
            vendors,
        ) == seq![ScanAction::<Seq<char>>::Sweep] + (work_on_hosts(hits@, names, vendors) + seq![
            ScanAction::<Seq<char>>::FinishScan(id, hits@.len() as i64),
            ScanAction::<Seq<char>>::Complete(hits@.len() as usize),
        ]),
{
    let ending = seq![ScanEvent::StaleMarked, ScanEvent::Finished];
    let middle = host_events(names, outcomes) + ending;
    let events = seq![ScanEvent::Started(id), ScanEvent::Swept(hits)] + middle;
    let second = seq![ScanEvent::Swept(hits)] + middle;
    let started = state_after(first_state(), ScanEvent::Started(id));
    let swept = state_after(started, ScanEvent::Swept(hits));
    assert(events.first() == ScanEvent::Started(id));
    assert(events.drop_first() =~= second);
    assert(second.first() == ScanEvent::Swept(hits));
    assert(second.drop_first() =~= middle);
    assert(swept == at_host(swept, swept.done));
    assert(swept.done == 0 && swept.hits == hits@ && swept.scan_id == id);
    lemma_work_on_hosts(swept, names, outcomes, ending, vendors);
    assert(hits@.skip(0) =~= hits@);
    let marking = at_host(swept, swept.hits.len());
    let last = seq![ScanEvent::Finished];
    let finishing = state_after(marking, ScanEvent::StaleMarked);
    assert(ending.first() == ScanEvent::StaleMarked);
    assert(ending.drop_first() =~= last);
    assert(last.first() == ScanEvent::Finished);
    assert(last.drop_first() =~= Seq::empty());
    let finish = ScanAction::<Seq<char>>::FinishScan(id, hits@.len() as i64);
    let complete = ScanAction::<Seq<char>>::Complete(hits@.len() as usize);
    assert(actions_by(state_after(finishing, ScanEvent::Finished), Seq::empty(), vendors)
        =~= Seq::empty());
    assert(actions_by(finishing, last, vendors) =~= seq![complete]);
    assert(actions_by(marking, ending, vendors) =~= seq![finish, complete]);
    assert(actions_by(started, second, vendors) == seq![host_action(hits@, 0)] + actions_by(
        swept,
        middle,
        vendors,
    ));
    assert(actions_by(first_state(), events, vendors) == seq![ScanAction::<Seq<char>>::Sweep]
        + actions_by(started, second, vendors));
}

/// In contracts an action is the one that programs carry out.
pub proof fn law_actions_are_seen(
    ip: u32,
    update: DeviceUpdate,
    minutes: i64,
    id: i64,
    found: i64,
    hosts: usize,
)
    ensures
        ScanAction::<String>::StartScan@ == ScanAction::<Seq<char>>::StartScan,
        ScanAction::<String>::Sweep@ == ScanAction::<Seq<char>>::Sweep,
        ScanAction::<String>::ResolveName(ip)@ == ScanAction::<Seq<char>>::ResolveName(ip),
        ScanAction::<String>::SaveDevice(update)@ == ScanAction::<Seq<char>>::SaveDevice(update@),
        ScanAction::<String>::MarkStale(minutes)@ == ScanAction::<Seq<char>>::MarkStale(minutes),
        ScanAction::<String>::FinishScan(id, found)@ == ScanAction::<Seq<char>>::FinishScan(
            id,
            found,
        ),
        ScanAction::<String>::Complete(hosts)@ == ScanAction::<Seq<char>>::Complete(hosts),
        ScanAction::<String>::Abort@ == ScanAction::<Seq<char>>::Abort,
{
}

/// Each phase of a scan goes on with one kind of event alone; any other ends it.
pub proof fn law_event_out_of_turn_ends_the_scan(
    state: ScanState,
    event: ScanEvent,
    vendors: Map<Seq<char>, Seq<char>>,
)
    requires
        state.phase == ScanPhase::Starting ==> event !is Started,
        state.phase == ScanPhase::Sweeping ==> event !is Swept,
        state.phase == ScanPhase::Resolving ==> event !is NameFound,
        state.phase == ScanPhase::Saving ==> event !is SaveDone,
        state.phase == ScanPhase::Marking ==> event !is StaleMarked,
        state.phase == ScanPhase::Finishing ==> event !is Finished,
    ensures
        state_after(state, event).phase == ScanPhase::Over,
        action_after(state, event, vendors) is Abort,
{
}

/// Whether a device could be saved makes no difference to how the scan goes on.
pub proof fn law_failed_save_does_not_matter(
    state: ScanState,
    vendors: Map<Seq<char>, Seq<char>>,
)
    ensures
        state_after(state, ScanEvent::SaveDone(false)) == state_after(
            state,
            ScanEvent::SaveDone(true),
        ),
        action_after(state, ScanEvent::SaveDone(false), vendors) == action_after(
            state,
            ScanEvent::SaveDone(true),
            vendors,
        ),
{
}

} // verus!
