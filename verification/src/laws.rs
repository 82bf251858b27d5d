//! What holds of the arbiter over whole runs, stated over the model and
//! proved from the transitions alone.

use crate::model::{
    hide_command, in_range, keys_within, msg_step, pick, seeded, submit_step, ChoiceView, Choices,
    Msg, ReplyView, RequestView, Step,
};
use crate::response::{AccessError, PortalResponse};
use vstd::prelude::*;

verus! {

/// The state and the resolutions, in order, after `requests` have been
/// submitted one after the other, starting with `current`.
pub open spec fn submit_all<S>(current: Option<RequestView<S>>, requests: Seq<RequestView<S>>) -> (
    Option<RequestView<S>>,
    Seq<ReplyView<S>>,
)
    decreases requests.len(),
{
    if requests.len() == 0 {
        (current, Seq::empty())
    } else {
        let (before, replies) = submit_all(current, requests.drop_last());
        let step = submit_step(before, requests.last());
        (
            step.current,
            match step.reply {
                Some(reply) => replies.push(reply),
                None => replies,
            },
        )
    }
}

/// The resolutions that a run of submissions owes: one cancellation for the
/// request that was current at the start, if any, and one for every
/// submitted request but the last, in the order of submission.
pub open spec fn cancellations<S>(
    current: Option<RequestView<S>>,
    requests: Seq<RequestView<S>>,
) -> Seq<ReplyView<S>> {
    let superseded = match current {
        Some(first) => seq![first].add(requests.drop_last()),
        None => requests.drop_last(),
    };
    superseded.map_values(|r: RequestView<S>| r.cancelled())
}

/// Whatever is submitted, in whatever number: every request except the last
/// is resolved exactly once, as cancelled, and the last one is current.
pub proof fn law_submissions_cancel_predecessors<S>(
    current: Option<RequestView<S>>,
    requests: Seq<RequestView<S>>,
)
    requires
        requests.len() > 0,
    ensures
        submit_all(current, requests).0 == Some(requests.last()),
        submit_all(current, requests).1 == cancellations(current, requests),
    decreases requests.len(),
{
    let earlier = requests.drop_last();
    if earlier.len() == 0 {
        assert(submit_all(current, earlier).1 =~= Seq::<ReplyView<S>>::empty());
        assert(submit_all(current, requests).1 =~= cancellations(current, requests));
    } else {
        law_submissions_cancel_predecessors(current, earlier);
        assert(submit_all(current, requests).1 =~= cancellations(current, requests));
    }
}

/// The cancellation of a request is handed out by the very submission that
/// installs its successor, not later.
pub proof fn law_cancellation_precedes_installation<S>(requests: Seq<RequestView<S>>, i: int)
    requires
        0 <= i < requests.len() - 1,
    ensures
        ({
            let before = submit_all(None, requests.take(i + 1)).0;
            let step = submit_step(before, requests[i + 1]);
            &&& before == Some(requests[i])
            &&& step.reply == Some(requests[i].cancelled())
            &&& step.current == Some(requests[i + 1])
        }),
{
    let prefix = requests.take(i + 1);
    law_submissions_cancel_predecessors(None, prefix);
    assert(prefix.last() == requests[i]);
}

/// A pick that names no option of the current request leaves the selection,
/// and with it the whole state, as it was, and resolves nothing.
pub proof fn law_stray_pick_changes_nothing<S>(
    current: Option<RequestView<S>>,
    group_index: usize,
    option_index: usize,
)
    requires
        current matches Some(r) ==> !in_range(r.groups, group_index as int, option_index as int),
    ensures
        msg_step(current, Msg::Choice(group_index, option_index)) == Ok::<Step<S>, AccessError>(
            Step { current, commands: Seq::empty(), reply: None },
        ),
{
}

/// No pick, in range or not, resolves the reply sink or ends the request.
pub proof fn law_pick_never_resolves<S>(
    current: Option<RequestView<S>>,
    group_index: usize,
    option_index: usize,
)
    ensures
        msg_step(current, Msg::Choice(group_index, option_index)) matches Ok(step) && step.reply
            is None && step.commands.len() == 0 && (step.current is Some <==> current is Some),
{
}

/// Dismissing yields `Cancelled` for the current request, whatever has been
/// selected.
pub proof fn law_cancel_ignores_selection<S>(request: RequestView<S>, selection: Choices)
    ensures
        msg_step(Some(RequestView { selection, ..request }), Msg::Cancel) == Ok::<
            Step<S>,
            AccessError,
        >(
            Step {
                current: None,
                commands: seq![hide_command(request.modal)],
                reply: Some(ReplyView { tx: request.tx, response: PortalResponse::Cancelled }),
            },
        ),
{
}

/// With no current request, granting and dismissing are invariant
/// violations.
pub proof fn law_decision_needs_request<S>(msg: Msg)
    requires
        msg is Allow || msg is Cancel,
    ensures
        msg_step(None::<RequestView<S>>, msg) == Err::<Step<S>, AccessError>(
            AccessError::InvariantViolation,
        ),
{
}

/// The selection a request starts with has no key but ids of its groups.
pub proof fn law_seeded_within_groups(groups: Seq<ChoiceView>)
    ensures
        keys_within(groups, seeded(groups)),
    decreases groups.len(),
{
    if groups.len() > 0 {
        let earlier = groups.drop_last();
        law_seeded_within_groups(earlier);
        assert forall|k: Seq<char>| #[trigger] seeded(groups).contains_key(k) implies exists|
            i: int,
        |
            0 <= i < groups.len() && (#[trigger] groups[i]).id == k by {
            if seeded(earlier).contains_key(k) {
                let i = choose|i: int| 0 <= i < earlier.len() && (#[trigger] earlier[i]).id == k;
                assert(groups[i] == earlier[i]);
            } else {
                assert(groups[groups.len() - 1].id == k);
            }
        }
    }
}

/// A pick keeps the keys of the selection among the ids of the groups.
pub proof fn law_pick_within_groups(groups: Seq<ChoiceView>, selection: Choices, g: int, o: int)
    requires
        keys_within(groups, selection),
    ensures
        keys_within(groups, pick(groups, selection, g, o)),
{
    let after = pick(groups, selection, g, o);
    assert forall|k: Seq<char>| #[trigger] after.contains_key(k) implies exists|i: int|
        0 <= i < groups.len() && (#[trigger] groups[i]).id == k by {
        if selection.contains_key(k) {
        } else {
            assert(groups[g].id == k);
        }
    }
}

/// The selection after the picks `picks`, each an index of a group and an
/// index of an option, have been recorded in order.
pub open spec fn pick_all(
    groups: Seq<ChoiceView>,
    selection: Choices,
    picks: Seq<(usize, usize)>,
) -> Choices
    decreases picks.len(),
{
    if picks.len() == 0 {
        selection
    } else {
        pick(
            groups,
            pick_all(groups, selection, picks.drop_last()),
            picks.last().0 as int,
            picks.last().1 as int,
        )
    }
}

/// The state after the picks `picks` have arrived as dialog events.
pub open spec fn after_picks<S>(
    current: Option<RequestView<S>>,
    picks: Seq<(usize, usize)>,
) -> Option<RequestView<S>>
    decreases picks.len(),
{
    if picks.len() == 0 {
        current
    } else {
        msg_step(
            after_picks(current, picks.drop_last()),
            Msg::Choice(picks.last().0, picks.last().1),
        ).unwrap().current
    }
}

/// The pick `p` names an option of a group whose id is `id`.
pub open spec fn touches(groups: Seq<ChoiceView>, p: (usize, usize), id: Seq<char>) -> bool {
    in_range(groups, p.0 as int, p.1 as int) && groups[p.0 as int].id == id
}

/// None of the picks from position `from` on touches `id`.
pub open spec fn untouched_from(
    groups: Seq<ChoiceView>,
    picks: Seq<(usize, usize)>,
    from: int,
    id: Seq<char>,
) -> bool {
    forall|k: int| from <= k < picks.len() ==> !touches(groups, #[trigger] picks[k], id)
}

/// Group `i` names an initial option, and no later group with the same id
/// names one.
pub open spec fn seeds(groups: Seq<ChoiceView>, i: int) -> bool {
    &&& 0 <= i < groups.len()
    &&& groups[i].initial.len() > 0
    &&& forall|j: int|
        i < j < groups.len() && (#[trigger] groups[j]).id == groups[i].id ==> groups[j].initial.len()
            == 0
}

/// No group with the id `id` names an initial option.
pub open spec fn unseeded(groups: Seq<ChoiceView>, id: Seq<char>) -> bool {
    forall|j: int|
        0 <= j < groups.len() && (#[trigger] groups[j]).id == id ==> groups[j].initial.len() == 0
}

/// Picks as events do to a current request what `pick_all` does to its
/// selection, and nothing else.
pub proof fn law_picks_update_selection_only<S>(
    request: RequestView<S>,
    picks: Seq<(usize, usize)>,
)
    ensures
        after_picks(Some(request), picks) == Some(
            RequestView { selection: pick_all(request.groups, request.selection, picks), ..request },
        ),
    decreases picks.len(),
{
    if picks.len() > 0 {
        law_picks_update_selection_only(request, picks.drop_last());
    }
}

/// What the initial selection holds for the id of a group that seeds it.
pub proof fn lemma_seeded_value(groups: Seq<ChoiceView>, i: int)
    requires
        seeds(groups, i),
    ensures
        seeded(groups).contains_key(groups[i].id),
        seeded(groups)[groups[i].id] == groups[i].initial,
    decreases groups.len(),
{
    let n = groups.len() - 1;
    let earlier = groups.drop_last();
    if i < n {
        assert(earlier[i] == groups[i]);
        assert(seeds(earlier, i)) by {
            assert forall|j: int|
                i < j < earlier.len() && (#[trigger] earlier[j]).id
                    == earlier[i].id implies earlier[j].initial.len() == 0 by {
                assert(earlier[j] == groups[j]);
            }
        }
        lemma_seeded_value(earlier, i);
        assert(groups[n].id == groups[i].id ==> groups[n].initial.len() == 0);
    }
}

/// The initial selection has no entry for an id that no group seeds.
pub proof fn lemma_seeded_absent(groups: Seq<ChoiceView>, id: Seq<char>)
    requires
        unseeded(groups, id),
    ensures
        !seeded(groups).contains_key(id),
    decreases groups.len(),
{
    if groups.len() > 0 {
        let earlier = groups.drop_last();
        assert forall|j: int| 0 <= j < earlier.len() && (#[trigger] earlier[j]).id
            == id implies earlier[j].initial.len() == 0 by {
            assert(earlier[j] == groups[j]);
        }
        lemma_seeded_absent(earlier, id);
        assert(groups[groups.len() - 1].id == id ==> groups[groups.len() - 1].initial.len() == 0);
    }
}

/// Picks that do not touch an id leave its entry as it was.
pub proof fn lemma_picks_keep_untouched(
    groups: Seq<ChoiceView>,
    selection: Choices,
    picks: Seq<(usize, usize)>,
    id: Seq<char>,
)
    requires
        untouched_from(groups, picks, 0, id),
    ensures
        pick_all(groups, selection, picks).contains_key(id) == selection.contains_key(id),
        pick_all(groups, selection, picks)[id] == selection[id],
    decreases picks.len(),
{
    if picks.len() > 0 {
        let earlier = picks.drop_last();
        assert forall|k: int| 0 <= k < earlier.len() implies !touches(
            groups,
            #[trigger] earlier[k],
            id,
        ) by {
            assert(earlier[k] == picks[k]);
        }
        lemma_picks_keep_untouched(groups, selection, earlier, id);
        assert(!touches(groups, picks[picks.len() - 1], id));
    }
}

/// After a run of picks an id holds the option of the last pick that
/// touched it.
pub proof fn lemma_last_pick_stands(
    groups: Seq<ChoiceView>,
    selection: Choices,
    picks: Seq<(usize, usize)>,
    k: int,
)
    requires
        0 <= k < picks.len(),
        in_range(groups, picks[k].0 as int, picks[k].1 as int),
        untouched_from(groups, picks, k + 1, groups[picks[k].0 as int].id),
    ensures
        pick_all(groups, selection, picks).contains_key(groups[picks[k].0 as int].id),
        pick_all(groups, selection, picks)[groups[picks[k].0 as int].id]
            == groups[picks[k].0 as int].options[picks[k].1 as int].0,
    decreases picks.len(),
{
    let n = picks.len() - 1;
    let id = groups[picks[k].0 as int].id;
    if k < n {
        let earlier = picks.drop_last();
        assert(earlier[k] == picks[k]);
        assert forall|j: int| k + 1 <= j < earlier.len() implies !touches(
            groups,
            #[trigger] earlier[j],
            id,
        ) by {
            assert(earlier[j] == picks[j]);
        }
        lemma_last_pick_stands(groups, selection, earlier, k);
        assert(!touches(groups, picks[n], id));
    }
}

/// Granting a request that was submitted and then met the picks `picks`
/// resolves its reply sink with a selection in which
/// - the id of a group that no pick touched maps to the group's initial
///   option, where the group names one (and is the last of its id to do so),
/// - an id that a pick touched maps to the option of the last such pick,
/// - an id that no pick touched and no group seeds has no entry.
pub proof fn law_approval_reports_selection<S>(request: RequestView<S>, picks: Seq<(usize, usize)>)
    requires
        request.selection == seeded(request.groups),
    ensures
        ({
            let groups = request.groups;
            let chosen = pick_all(groups, seeded(groups), picks);
            &&& msg_step(after_picks(Some(request), picks), Msg::Allow) matches Ok(step)
            &&& step.reply == Some(
                ReplyView { tx: request.tx, response: PortalResponse::Success(chosen) },
            )
            &&& forall|i: int|
                seeds(groups, i) && untouched_from(groups, picks, 0, (#[trigger] groups[i]).id)
                    ==> chosen.contains_key(groups[i].id) && chosen[groups[i].id]
                    == groups[i].initial
            &&& forall|k: int|
                0 <= k < picks.len() && in_range(
                    groups,
                    (#[trigger] picks[k]).0 as int,
                    picks[k].1 as int,
                ) && untouched_from(groups, picks, k + 1, groups[picks[k].0 as int].id)
                    ==> chosen.contains_key(groups[picks[k].0 as int].id)
                    && chosen[groups[picks[k].0 as int].id]
                    == groups[picks[k].0 as int].options[picks[k].1 as int].0
            &&& forall|id: Seq<char>|
                unseeded(groups, id) && untouched_from(groups, picks, 0, id)
                    ==> !#[trigger] chosen.contains_key(id)
        }),
{
    let groups = request.groups;
    let chosen = pick_all(groups, seeded(groups), picks);
    law_picks_update_selection_only(request, picks);
    assert forall|i: int|
        seeds(groups, i) && untouched_from(
            groups,
            picks,
            0,
            (#[trigger] groups[i]).id,
        ) implies chosen.contains_key(groups[i].id) && chosen[groups[i].id]
        == groups[i].initial by {
        lemma_seeded_value(groups, i);
        lemma_picks_keep_untouched(groups, seeded(groups), picks, groups[i].id);
    }
    assert forall|k: int|
        0 <= k < picks.len() && in_range(groups, (#[trigger] picks[k]).0 as int, picks[k].1 as int)
            && untouched_from(
            groups,
            picks,
            k + 1,
            groups[picks[k].0 as int].id,
        ) implies chosen.contains_key(groups[picks[k].0 as int].id)
        && chosen[groups[picks[k].0 as int].id]
        == groups[picks[k].0 as int].options[picks[k].1 as int].0 by {
        lemma_last_pick_stands(groups, seeded(groups), picks, k);
    }
    assert forall|id: Seq<char>|
        unseeded(groups, id) && untouched_from(groups, picks, 0, id) implies !#[trigger] chosen.contains_key(
        id,
    ) by {
        lemma_seeded_absent(groups, id);
        lemma_picks_keep_untouched(groups, seeded(groups), picks, id);
    }
}

/// What can happen to the arbiter: a request is submitted, or the dialog
/// reports an event.
pub enum Event<S> {
    Submit(RequestView<S>),
    Dialog(Msg),
}

/// The state and the resolutions, in order, after `events` have happened one
/// after the other, starting with `current`. An event that fails leaves the
/// state as it was and resolves nothing.
pub open spec fn run<S>(current: Option<RequestView<S>>, events: Seq<Event<S>>) -> (
    Option<RequestView<S>>,
    Seq<ReplyView<S>>,
)
    decreases events.len(),
{
    if events.len() == 0 {
        (current, Seq::empty())
    } else {
        let (before, replies) = run(current, events.drop_last());
        let outcome = match events.last() {
            Event::Submit(request) => Ok(submit_step(before, request)),
            Event::Dialog(msg) => msg_step(before, msg),
        };
        match outcome {
            Ok(step) => (
                step.current,
                match step.reply {
                    Some(reply) => replies.push(reply),
                    None => replies,
                },
            ),
            Err(_) => (before, replies),
        }
    }
}

/// The requests that `events` submit, in order.
pub open spec fn submitted<S>(events: Seq<Event<S>>) -> Seq<RequestView<S>>
    decreases events.len(),
{
    if events.len() == 0 {
        Seq::empty()
    } else {
        match events.last() {
            Event::Submit(request) => submitted(events.drop_last()).push(request),
            Event::Dialog(_) => submitted(events.drop_last()),
        }
    }
}

/// Whatever happens, in whatever order: the reply sinks are resolved in the
/// order in which their requests were submitted, each one once; the only
/// request not yet resolved is the current one, which is the one submitted
/// last; and the groups of a request never change while it is current.
pub proof fn law_each_request_resolved_once<S>(events: Seq<Event<S>>)
    ensures
        ({
            let (current, replies) = run(None, events);
            let requests = submitted(events);
            &&& replies.len() + (if current is Some { 1int } else { 0int }) == requests.len()
            &&& forall|i: int|
                0 <= i < replies.len() ==> (#[trigger] replies[i]).tx == requests[i].tx
            &&& current matches Some(r) ==> r.tx == requests.last().tx && r.groups
                == requests.last().groups
        }),
    decreases events.len(),
{
    if events.len() > 0 {
        let earlier = events.drop_last();
        law_each_request_resolved_once(earlier);
        let (before, replies_before) = run(None::<RequestView<S>>, earlier);
        let (current, replies) = run(None::<RequestView<S>>, events);
        let requests = submitted(events);
        assert forall|i: int| 0 <= i < replies.len() implies (#[trigger] replies[i]).tx
            == requests[i].tx by {
            if i < replies_before.len() {
                assert(replies[i] == replies_before[i]);
            }
        }
    }
}

} // verus!
