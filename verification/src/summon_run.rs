//! Whole runs of summoning: what holds of every sequence of answers, and that each
//! escalation with a cartridge is called once, in order.
use vstd::prelude::*;

use crate::outcome::{EscalationModel, OutcomeModel, ReportModel, VerdictModel};
use crate::summon::{
    dispatched, lemma_adds_nothing, lemma_adds_trans, lemma_dispatched_adds,
    lemma_dispatched_verdicts, lemma_recorded_adds, only_adds, record_of, recorded, routed,
    routing_goes_by_group, summon_report, summon_step, summoning_only_adds, undispatched,
    SummonPointModel, SummonStepModel,
};

verus! {

/// The outcome after a sequence of answers, whatever they are.
pub open spec fn summoned(outcome: OutcomeModel, points: Seq<SummonPointModel>) -> OutcomeModel
    decreases points.len(),
{
    if points.len() == 0 {
        outcome
    } else {
        summon_step(summoned(outcome, points.drop_last()), points.last()).0
    }
}

/// A whole run of summoning only adds: after any sequence of answers a red outcome is red,
/// no escalation was dropped or downgraded and no evidence was lost, and an outcome that
/// is not red is as it was.
pub proof fn a_run_of_summoning_only_adds(outcome: OutcomeModel, points: Seq<SummonPointModel>)
    ensures
        outcome matches OutcomeModel::Red { report } ==> (summoned(
            outcome,
            points,
        ) matches OutcomeModel::Red { report: after } && only_adds(report, after)),
        !(outcome is Red) ==> summoned(outcome, points) == outcome,
    decreases points.len(),
{
    if points.len() == 0 {
        if let OutcomeModel::Red { report } = outcome {
            lemma_adds_nothing(report);
        }
    } else {
        let head = points.drop_last();
        a_run_of_summoning_only_adds(outcome, head);
        let before = summoned(outcome, head);
        summoning_only_adds(before, points.last());
        if let OutcomeModel::Red { report } = outcome {
            let mid = before->Red_report;
            let after = summon_step(before, points.last()).0->Red_report;
            lemma_adds_trans(report, mid, after);
        }
    }
}

/// Does a cartridge stand for the group of the escalation? One does for every group but
/// gate triage.
pub open spec fn has_route(e: EscalationModel) -> bool {
    !(e.group is GateTriage)
}

/// An escalation is routed exactly where a cartridge stands for its group.
pub proof fn routes_are_cartridges(e: EscalationModel, path: Seq<char>)
    ensures
        routed(e, path) is Some <==> has_route(e),
{
}

/// The positions from `i` on of the escalations that a cartridge stands for, in order.
pub open spec fn call_order(escalations: Seq<EscalationModel>, i: int) -> Seq<int>
    decreases escalations.len() - i,
{
    if i < 0 || i >= escalations.len() {
        seq![]
    } else if has_route(escalations[i]) {
        seq![i] + call_order(escalations, i + 1)
    } else {
        call_order(escalations, i + 1)
    }
}

/// The positions are those of the escalations with a cartridge, all of them, each once and
/// in ascending order.
pub proof fn the_call_order_is_exact(escalations: Seq<EscalationModel>, i: int)
    requires
        0 <= i,
    ensures
        forall|k: int|
            0 <= k < call_order(escalations, i).len() ==> i <= #[trigger] call_order(
                escalations,
                i,
            )[k] < escalations.len() && has_route(escalations[call_order(escalations, i)[k]]),
        forall|j: int, k: int|
            0 <= j < k < call_order(escalations, i).len() ==> #[trigger] call_order(
                escalations,
                i,
            )[j] < #[trigger] call_order(escalations, i)[k],
        forall|p: int|
            i <= p < escalations.len() && has_route(#[trigger] escalations[p]) ==> call_order(
                escalations,
                i,
            ).contains(p),
    decreases escalations.len() - i,
{
    if i < escalations.len() {
        the_call_order_is_exact(escalations, i + 1);
        let rest = call_order(escalations, i + 1);
        let all = call_order(escalations, i);
        if has_route(escalations[i]) {
            assert forall|k: int| 0 <= k < all.len() implies i <= #[trigger] all[k]
                < escalations.len() && has_route(escalations[all[k]]) by {
                if k > 0 {
                    assert(all[k] == rest[k - 1]);
                }
            }
            assert forall|j: int, k: int| 0 <= j < k < all.len() implies #[trigger] all[j]
                < #[trigger] all[k] by {
                assert(all[k] == rest[k - 1]);
                if j > 0 {
                    assert(all[j] == rest[j - 1]);
                }
            }
            assert forall|p: int|
                i <= p < escalations.len() && has_route(
                    #[trigger] escalations[p],
                ) implies all.contains(p) by {
                if p == i {
                    assert(all[0] == i);
                } else {
                    let k = choose|k: int| 0 <= k < rest.len() && rest[k] == p;
                    assert(all[k + 1] == p);
                }
            }
        }
    }
}

/// Are the checks and the groups of the escalations the same?
spec fn same_cases(a: Seq<EscalationModel>, b: Seq<EscalationModel>) -> bool {
    &&& a.len() == b.len()
    &&& forall|i: int|
        0 <= i < a.len() ==> (#[trigger] a[i]).check == b[i].check && a[i].group == b[i].group
}

proof fn lemma_only_adds_same_cases(before: ReportModel, after: ReportModel)
    requires
        only_adds(before, after),
    ensures
        same_cases(before.escalations, after.escalations),
{
    assert forall|i: int| 0 <= i < before.escalations.len() implies (
    #[trigger] before.escalations[i]).check == after.escalations[i].check
        && before.escalations[i].group == after.escalations[i].group by {
        assert(after.escalations[i].check == before.escalations[i].check);
    }
}

proof fn lemma_same_order(a: Seq<EscalationModel>, b: Seq<EscalationModel>, i: int)
    requires
        same_cases(a, b),
    ensures
        call_order(a, i) == call_order(b, i),
    decreases a.len() - i,
{
    if 0 <= i < a.len() {
        lemma_same_order(a, b, i + 1);
        assert(a[i].group == b[i].group);
    }
}

/// What is asked next is the first call of the order, or nothing where the order is empty.
proof fn lemma_dispatched_order(report: ReportModel, i: int, path: Seq<char>)
    requires
        0 <= i,
    ensures
        ({
            let order = call_order(report.escalations, i);
            let (after, step) = dispatched(report, i, path);
            if order.len() == 0 {
                step is Finished
            } else {
                &&& step matches SummonStepModel::AskCall { index, repo_path, call }
                &&& index == order[0]
                &&& repo_path == path
                &&& 0 <= index < after.escalations.len()
                &&& routed(after.escalations[index], path) == Some(call)
                &&& order.drop_first() == call_order(report.escalations, index + 1)
            }
        }),
    decreases report.escalations.len() - i,
{
    if i < report.escalations.len() {
        routes_are_cartridges(report.escalations[i], path);
        if has_route(report.escalations[i]) {
            assert((seq![i] + call_order(report.escalations, i + 1)).drop_first() =~= call_order(
                report.escalations,
                i + 1,
            ));
        } else {
            let next = undispatched(report, i);
            assert forall|k: int| 0 <= k < report.escalations.len() implies (
            #[trigger] report.escalations[k]).check == next.escalations[k].check
                && report.escalations[k].group == next.escalations[k].group by {}
            assert(same_cases(report.escalations, next.escalations));
            lemma_dispatched_order(next, i + 1, path);
            lemma_same_order(report.escalations, next.escalations, i + 1);
            let order = call_order(report.escalations, i);
            if order.len() > 0 {
                lemma_same_order(report.escalations, next.escalations, order[0] + 1);
            }
        }
    }
}

/// The first call is that of the first escalation with a cartridge; where there is none,
/// nothing is called.
pub proof fn the_first_call_is_the_first_routed(
    report: ReportModel,
    path: Seq<char>,
    alive: Seq<char>,
)
    ensures
        match summon_report(report, SummonPointModel::Ready { root: Ok(path), health: Ok(alive) }).1 {
            SummonStepModel::AskCall { index, repo_path, .. } => {
                &&& 0 <= index < report.escalations.len()
                &&& repo_path == path
                &&& has_route(report.escalations[index])
                &&& forall|p: int|
                    0 <= p < index ==> !has_route(#[trigger] report.escalations[p])
            },
            SummonStepModel::Finished => forall|p: int|
                0 <= p < report.escalations.len() ==> !has_route(#[trigger] report.escalations[p]),
            SummonStepModel::AskReady => false,
        },
{
    lemma_dispatched_order(report, 0, path);
    lemma_dispatched_adds(report, 0, path);
    lemma_next_of_order(report.escalations, 0);
}

/// The head of the order is the first position with a cartridge.
proof fn lemma_next_of_order(escalations: Seq<EscalationModel>, i: int)
    requires
        0 <= i,
    ensures
        ({
            let order = call_order(escalations, i);
            if order.len() == 0 {
                forall|p: int| i <= p < escalations.len() ==> !has_route(#[trigger] escalations[p])
            } else {
                &&& i <= order[0] < escalations.len()
                &&& has_route(escalations[order[0]])
                &&& forall|p: int| i <= p < order[0] ==> !has_route(#[trigger] escalations[p])
            }
        }),
{
    the_call_order_is_exact(escalations, i);
    let order = call_order(escalations, i);
    if order.len() == 0 {
        assert forall|p: int| i <= p < escalations.len() implies !has_route(
            #[trigger] escalations[p],
        ) by {
            if has_route(escalations[p]) {
                assert(order.contains(p));
            }
        }
    } else {
        assert forall|p: int| i <= p < order[0] implies !has_route(#[trigger] escalations[p]) by {
            if has_route(escalations[p]) {
                assert(order.contains(p));
                let k = choose|k: int| 0 <= k < order.len() && order[k] == p;
                if k > 0 {
                    assert(order[0] < order[k]);
                }
            }
        }
    }
}

/// After a call the next one is that of the next escalation with a cartridge; where none is
/// left, the run is finished. So the host's loop moves forward and ends.
pub proof fn the_next_call_is_the_next_routed(
    report: ReportModel,
    index: int,
    path: Seq<char>,
    verdict: Result<Seq<char>, Seq<char>>,
)
    requires
        0 <= index < report.escalations.len(),
        has_route(report.escalations[index]),
    ensures
        match summon_report(
            report,
            SummonPointModel::Called { index, repo_path: path, verdict },
        ).1 {
            SummonStepModel::AskCall { index: next, repo_path, .. } => {
                &&& index < next < report.escalations.len()
                &&& repo_path == path
                &&& has_route(report.escalations[next])
                &&& forall|p: int|
                    index < p < next ==> !has_route(#[trigger] report.escalations[p])
            },
            SummonStepModel::Finished => forall|p: int|
                index < p < report.escalations.len() ==> !has_route(
                    #[trigger] report.escalations[p],
                ),
            SummonStepModel::AskReady => false,
        },
{
    routes_are_cartridges(report.escalations[index], path);
    let call = routed(report.escalations[index], path)->Some_0;
    let mid = recorded(report, index, call, verdict);
    lemma_recorded_adds(report, index, call, verdict);
    lemma_only_adds_same_cases(report, mid);
    lemma_dispatched_order(mid, index + 1, path);
    lemma_same_order(report.escalations, mid.escalations, index + 1);
    lemma_next_of_order(report.escalations, index + 1);
    lemma_dispatched_adds(mid, index + 1, path);
}

/// The run from a step on, where the host answers each call that is asked for with the next
/// of `verdicts`, until nothing more is asked or no answer is left.
pub open spec fn answered(
    at: (ReportModel, SummonStepModel),
    verdicts: Seq<Result<Seq<char>, Seq<char>>>,
) -> (ReportModel, SummonStepModel)
    decreases verdicts.len(),
{
    match at.1 {
        SummonStepModel::AskCall { index, repo_path, .. } => if verdicts.len() > 0 {
            answered(
                summon_report(
                    at.0,
                    SummonPointModel::Called { index, repo_path, verdict: verdicts[0] },
                ),
                verdicts.drop_first(),
            )
        } else {
            at
        },
        _ => at,
    }
}

/// The records of the first `n` calls of an order, each with its answer.
pub open spec fn records(
    escalations: Seq<EscalationModel>,
    order: Seq<int>,
    path: Seq<char>,
    verdicts: Seq<Result<Seq<char>, Seq<char>>>,
    n: nat,
) -> Seq<VerdictModel> {
    Seq::new(
        n,
        |k: int|
            record_of(
                escalations[order[k]].check,
                routed(escalations[order[k]], path)->Some_0,
                verdicts[k],
            ),
    )
}

/// How many of the calls are made where the host has `answers` answers.
pub open spec fn calls_made(order: Seq<int>, answers: nat) -> nat {
    if answers < order.len() {
        answers
    } else {
        order.len()
    }
}

proof fn lemma_answered(
    report: ReportModel,
    i: int,
    path: Seq<char>,
    verdicts: Seq<Result<Seq<char>, Seq<char>>>,
)
    requires
        0 <= i,
    ensures
        ({
            let order = call_order(report.escalations, i);
            let n = calls_made(order, verdicts.len());
            let (after, step) = answered(dispatched(report, i, path), verdicts);
            &&& only_adds(report, after)
            &&& after.expert_verdicts == report.expert_verdicts + records(
                report.escalations,
                order,
                path,
                verdicts,
                n,
            )
            &&& if verdicts.len() < order.len() {
                step matches SummonStepModel::AskCall { index, .. } && index
                    == order[verdicts.len() as int]
            } else {
                step is Finished
            }
        }),
    decreases verdicts.len(),
{
    let order = call_order(report.escalations, i);
    let n = calls_made(order, verdicts.len());
    let at = dispatched(report, i, path);
    let start = report.expert_verdicts;
    let made = records(report.escalations, order, path, verdicts, n);
    lemma_dispatched_order(report, i, path);
    lemma_dispatched_adds(report, i, path);
    lemma_dispatched_verdicts(report, i, path);
    if n == 0 {
        assert(start + made =~= start);
    } else {
        let index = order[0];
        let mid = at.0;
        let e = mid.escalations[index];
        let call = routed(e, path)->Some_0;
        let next = recorded(mid, index, call, verdicts[0]);
        let rest = verdicts.drop_first();
        lemma_recorded_adds(mid, index, call, verdicts[0]);
        lemma_adds_trans(report, mid, next);
        lemma_only_adds_same_cases(report, next);
        lemma_only_adds_same_cases(report, mid);
        lemma_same_order(report.escalations, next.escalations, index + 1);
        the_call_order_is_exact(report.escalations, i);
        lemma_answered(next, index + 1, path, rest);
        let after = answered(at, verdicts).0;
        assert(answered(at, verdicts) == answered(dispatched(next, index + 1, path), rest));
        lemma_adds_trans(report, next, after);
        let tail = order.drop_first();
        let m = calls_made(tail, rest.len());
        let later = records(next.escalations, tail, path, rest, m);
        assert(m + 1 == n);
        assert(next.expert_verdicts == start.push(record_of(e.check, call, verdicts[0])));
        assert forall|k: int| 0 <= k < n implies #[trigger] (seq![
            record_of(e.check, call, verdicts[0]),
        ] + later)[k] == made[k] by {
            let p = order[k];
            assert(0 <= p < report.escalations.len());
            let x = report.escalations[p];
            if k == 0 {
                assert(x.check == e.check && x.group == e.group);
                routing_goes_by_group(x, e, path);
            } else {
                assert(tail[k - 1] == p);
                let y = next.escalations[p];
                assert(x.check == y.check && x.group == y.group);
                routes_are_cartridges(x, path);
                routing_goes_by_group(x, y, path);
                assert(rest[k - 1] == verdicts[k]);
            }
        }
        assert(start.push(record_of(e.check, call, verdicts[0])) + later =~= start + made);
    }
}

/// Every escalation with a cartridge is called once and in order. Once the server lives and
/// the place of the checkout is known, a host that answers each call finds, after as many
/// answers as there are such escalations, that the run is finished, and the report holds
/// one new record for each of them, with its answer, and no other. With fewer answers the
/// run asks for the call of the next of them.
pub proof fn every_routed_escalation_is_called_once_in_order(
    report: ReportModel,
    path: Seq<char>,
    alive: Seq<char>,
    verdicts: Seq<Result<Seq<char>, Seq<char>>>,
)
    ensures
        ({
            let order = call_order(report.escalations, 0);
            let n = calls_made(order, verdicts.len());
            let ready = SummonPointModel::Ready { root: Ok(path), health: Ok(alive) };
            let (after, step) = answered(summon_report(report, ready), verdicts);
            &&& only_adds(report, after)
            &&& after.expert_verdicts == report.expert_verdicts + records(
                report.escalations,
                order,
                path,
                verdicts,
                n,
            )
            &&& step is Finished <==> verdicts.len() >= order.len()
            &&& step is Finished ==> after.expert_verdicts.len() == report.expert_verdicts.len()
                + order.len()
            &&& !(step is Finished) ==> (step matches SummonStepModel::AskCall { index, .. }
                && index == order[verdicts.len() as int])
        }),
{
    lemma_answered(report, 0, path, verdicts);
}

} // verus!
