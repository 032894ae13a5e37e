//! What becomes of a task that fails every time.
use crate::laws;
use crate::laws::Operation;
use crate::model::QueueModel;
use crate::step_laws;
use crate::task::{Task, TaskMetadata};
use vstd::prelude::*;

verus! {

/// A task as it is when it has been tried again a number of times.
pub open spec fn tried_again(task: Task, times: usize) -> Task {
    Task { metadata: TaskMetadata { retry_count: times, ..task.metadata }, ..task }
}

/// How many times a course of operations reports what came of running a task.
pub open spec fn times_run(ops: Seq<Operation>, task: Task) -> nat
    decreases ops.len(),
{
    if ops.len() == 0 {
        0
    } else {
        let before = times_run(ops.drop_last(), task);
        match ops.last() {
            Operation::FinishTask(done, _, _) => if done == task {
                before + 1
            } else {
                before
            },
            _ => before,
        }
    }
}

/// Whenever a course of operations reports what came of running the task, it is an error
/// or a panic.
pub open spec fn always_fails(ops: Seq<Operation>, task: Task) -> bool {
    forall|i: int, times: usize|
        #![trigger ops[i], tried_again(task, times)]
        0 <= i < ops.len() ==> (ops[i] matches Operation::FinishTask(done, _, result) ==> done
            == tried_again(task, times) ==> !(result matches Ok(Ok(_))))
}

/// A task comes to wait as tried again so many times whenever a run of it with one time
/// less fails, and as not tried again whenever it is submitted.
proof fn lemma_arrivals(queue: QueueModel, ops: Seq<Operation>, task: Task, times: usize)
    requires
        laws::all_possible(queue, ops),
        always_fails(ops, task),
    ensures
        laws::arrivals(ops).to_multiset().count(tried_again(task, times)) == (if times == 0 {
            laws::submissions(ops).to_multiset().count(tried_again(task, times))
        } else if times <= task.metadata.max_retries {
            times_run(ops, tried_again(task, (times - 1) as usize))
        } else {
            0
        }),
    decreases ops.len(),
{
    broadcast use vstd::multiset::group_multiset_axioms;
    broadcast use vstd::seq_lib::group_to_multiset_ensures;

    let now = tried_again(task, times);
    let earlier = tried_again(task, (times - 1) as usize);
    if ops.len() > 0 {
        let before = ops.drop_last();
        let op = ops.last();
        let (submitted, retried) = (laws::submitted_by(op), laws::retried_by(op));
        assert forall|i: int, n: usize|
            #![trigger before[i], tried_again(task, n)]
            0 <= i < before.len() implies (before[i] matches Operation::FinishTask(done, _, result)
            ==> done == tried_again(task, n) ==> !(result matches Ok(Ok(_)))) by {
            assert(before[i] == ops[i]);
        }
        lemma_arrivals(queue, before, task, times);
        vstd::seq_lib::lemma_multiset_commutative(laws::arrivals(before), submitted);
        vstd::seq_lib::lemma_multiset_commutative(laws::arrivals(before) + submitted, retried);
        vstd::seq_lib::lemma_multiset_commutative(laws::submissions(before), submitted);
        assert(submitted.to_multiset().count(now) > 0 ==> times == 0) by {
            if op is Submit {
                assert(submitted == Seq::<Task>::empty().push(op->Submit_0));
            }
        }
        if let Operation::FinishTask(done, _, result) = op {
            assert(ops[ops.len() - 1] == op);
            step_laws::law_only_success_is_no_failure(result);
            if retried.len() > 0 {
                step_laws::law_put_back_task_is_the_same(done);
                assert(retried == Seq::<Task>::empty().push(done.retried()));
                assert(done.retried() == now ==> times > 0 && times <= task.metadata.max_retries
                    && done == earlier);
            }
            if times > 0 && times <= task.metadata.max_retries && done == earlier {
                assert(done.retried() == now);
            }
        }
    }
}

/// A task that is run is run by some operation.
proof fn lemma_some_run(ops: Seq<Operation>, task: Task) -> (at: int)
    requires
        times_run(ops, task) > 0,
    ensures
        0 <= at < ops.len(),
        ops[at] is FinishTask,
        ops[at]->FinishTask_0 == task,
    decreases ops.len(),
{
    match ops.last() {
        Operation::FinishTask(done, _, _) if done == task => ops.len() - 1,
        _ => lemma_some_run(ops.drop_last(), task),
    }
}

/// What a course of operations comes to is what its second part comes to after its first.
proof fn lemma_run_in_parts(queue: QueueModel, ops: Seq<Operation>, at: int)
    requires
        0 <= at <= ops.len(),
    ensures
        laws::run(queue, ops) == laws::run(laws::run(queue, ops.take(at)), ops.skip(at)),
        laws::all_possible(queue, ops) ==> laws::all_possible(queue, ops.take(at)),
    decreases ops.len() - at,
{
    if at == ops.len() {
        assert(ops.take(at) =~= ops);
    } else {
        lemma_run_in_parts(queue, ops.drop_last(), at);
        assert(ops.drop_last().take(at) =~= ops.take(at));
        assert(ops.drop_last().skip(at) =~= ops.skip(at).drop_last());
        assert(ops.skip(at).last() == ops.last());
    }
}

/// How often a task that fails every time has been handed out, tried again so many times.
proof fn lemma_handed_out(ops: Seq<Operation>, task: Task, times: usize)
    requires
        laws::all_possible(QueueModel::empty(), ops),
        task.metadata.retry_count == 0,
        laws::submissions(ops).to_multiset().count(task) == 1,
        always_fails(ops, task),
        forall|n: usize|
            laws::handed_out(QueueModel::empty(), ops).to_multiset().count(
                #[trigger] tried_again(task, n),
            ) == times_run(ops, tried_again(task, n)),
        forall|n: usize|
            laws::run(QueueModel::empty(), ops).state.schedule().to_multiset().count(
                #[trigger] tried_again(task, n),
            ) == 0,
    ensures
        laws::handed_out(QueueModel::empty(), ops).to_multiset().count(tried_again(task, times))
            == (if times <= task.metadata.max_retries {
            1nat
        } else {
            0
        }),
    decreases times,
{
    broadcast use vstd::multiset::group_multiset_axioms;
    broadcast use vstd::seq_lib::group_to_multiset_ensures;

    let start = QueueModel::empty();
    let now = tried_again(task, times);
    laws::law_each_task_is_handed_out_once(start, ops);
    lemma_arrivals(start, ops, task, times);
    assert(start.state.schedule() =~= Seq::<Task>::empty());
    let out = laws::handed_out(start, ops).to_multiset();
    let left = laws::run(start, ops).state.schedule().to_multiset();
    let came = laws::arrivals(ops).to_multiset();
    assert(out.add(left).count(now) == start.state.schedule().to_multiset().add(came).count(now));
    assert(out.count(now) == came.count(now));
    if times == 0 {
        assert(now == task);
    } else {
        lemma_handed_out(ops, task, (times - 1) as usize);
    }
}

/// A task that is submitted once, is run each time that it is handed out, and fails every
/// time, is handed out once for its first try and once for each of its retries, and no
/// more often; then a dead letter has been written with its id and with one attempt more
/// than it had retries.
pub proof fn law_failing_task_uses_all_its_retries(ops: Seq<Operation>, task: Task)
    requires
        laws::all_possible(QueueModel::empty(), ops),
        task.metadata.retry_count == 0,
        laws::submissions(ops).to_multiset().count(task) == 1,
        always_fails(ops, task),
        forall|n: usize|
            laws::handed_out(QueueModel::empty(), ops).to_multiset().count(
                #[trigger] tried_again(task, n),
            ) == times_run(ops, tried_again(task, n)),
        forall|n: usize|
            laws::run(QueueModel::empty(), ops).state.schedule().to_multiset().count(
                #[trigger] tried_again(task, n),
            ) == 0,
    ensures
        forall|n: usize|
            laws::handed_out(QueueModel::empty(), ops).to_multiset().count(
                #[trigger] tried_again(task, n),
            ) == (if n <= task.metadata.max_retries {
                1nat
            } else {
                0
            }),
        ({
            let letters = laws::run(QueueModel::empty(), ops).state.dead_letters;
            exists|i: int|
                0 <= i < letters.len() && (#[trigger] letters[i]).id == task.id
                    && letters[i].attempts == task.metadata.max_retries + 1
        }),
{
    let start = QueueModel::empty();
    assert forall|n: usize|
        laws::handed_out(start, ops).to_multiset().count(#[trigger] tried_again(task, n)) == (if n
            <= task.metadata.max_retries {
            1nat
        } else {
            0
        }) by {
        lemma_handed_out(ops, task, n);
    }
    let last = tried_again(task, task.metadata.max_retries);
    lemma_handed_out(ops, task, task.metadata.max_retries);
    let at = lemma_some_run(ops, last);
    let before = laws::run(start, ops.take(at));
    let failed = laws::run(start, ops.take(at + 1));
    lemma_run_in_parts(start, ops, at + 1);
    lemma_run_in_parts(start, ops.take(at + 1), at);
    assert(ops.take(at + 1).drop_last() =~= ops.take(at));
    assert(ops.take(at + 1).last() == ops[at]);
    assert(laws::possible(before, ops[at]));
    let result = ops[at]->FinishTask_2;
    step_laws::law_only_success_is_no_failure(result);
    step_laws::law_failure_without_retries_left(
        before.state,
        last,
        ops[at]->FinishTask_1,
        result,
    );
    laws::law_dead_letters_are_kept(failed, ops.skip(at + 1));
    let letters = laws::run(start, ops).state.dead_letters;
    let place = failed.state.dead_letters.len() - 1;
    assert(letters[place] == failed.state.dead_letters[place]);
}

} // verus!
