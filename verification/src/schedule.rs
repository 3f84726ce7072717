//! Sharing the sources out among workers, and putting their trees together
//! again in the order of the sources.

use crate::error::Error;
use ara_parser::tree::Tree;
use vstd::arithmetic::div_mod::lemma_fundamental_div_mod;
use vstd::prelude::*;

verus! {

/// The sources from `start` up to, not including, `end`.
#[derive(Clone, Copy, Debug, PartialEq, Eq, Structural)]
pub struct Slice {
    pub start: usize,
    pub end: usize,
}

/// How many sources the worker `worker` of `workers` gets out of `files`:
/// the quotient, and one more for each of the first workers until the
/// remainder is used up.
pub open spec fn share(files: nat, workers: nat, worker: nat) -> nat {
    if worker < files % workers {
        files / workers + 1
    } else {
        files / workers
    }
}

/// The index of the first source of the worker `worker`: the shares of the
/// workers before it.
pub open spec fn slice_start(files: nat, workers: nat, worker: nat) -> nat
    decreases worker,
{
    if worker == 0 {
        0
    } else {
        slice_start(files, workers, (worker - 1) as nat) + share(
            files,
            workers,
            (worker - 1) as nat,
        )
    }
}

/// The slices of `files` sources for `workers` workers, in worker order.
pub open spec fn slices(files: nat, workers: nat) -> Seq<Slice> {
    Seq::new(
        workers,
        |k: int|
            Slice {
                start: slice_start(files, workers, k as nat) as usize,
                end: slice_start(files, workers, (k + 1) as nat) as usize,
            },
    )
}

/// The slices begin where the closed form says: `k` quotients and one for
/// each worker before `k` that got one more.
pub proof fn lemma_slice_start(files: nat, workers: nat, worker: nat)
    requires
        workers > 0,
    ensures
        slice_start(files, workers, worker) == worker * (files / workers) + if worker < files
            % workers {
            worker
        } else {
            files % workers
        },
    decreases worker,
{
    if worker > 0 {
        lemma_slice_start(files, workers, (worker - 1) as nat);
        let quotient = (files / workers) as int;
        let before = (worker - 1) as int;
        assert((before + 1) * quotient == before * quotient + quotient) by (nonlinear_arith);
        assert(worker * (files / workers) == (before + 1) * quotient);
        assert(((worker - 1) as nat) * (files / workers) == before * quotient);
    } else {
        assert(worker * (files / workers) == 0) by (nonlinear_arith)
            requires
                worker == 0,
        {
        }
    }
}

/// The slices share out all sources and no more: they begin at the first
/// source, each begins where the one before it ends, none begins after it
/// ends, and the last ends after the last source.
pub proof fn lemma_slices_cover(files: nat, workers: nat)
    requires
        workers > 0,
    ensures
        slice_start(files, workers, 0) == 0,
        slice_start(files, workers, workers) == files,
        forall|j: nat, k: nat|
            j <= k <= workers ==> #[trigger] slice_start(files, workers, j) <= #[trigger] slice_start(
                files,
                workers,
                k,
            ) <= files,
{
    lemma_slice_start(files, workers, workers);
    lemma_fundamental_div_mod(files as int, workers as int);
    assert(workers * (files / workers) == (workers as int) * ((files as int) / (workers as int)));
    assert forall|j: nat, k: nat| j <= k <= workers implies #[trigger] slice_start(
        files,
        workers,
        j,
    ) <= #[trigger] slice_start(files, workers, k) <= files by {
        lemma_slice_start_grows(files, workers, j, k);
        lemma_slice_start_grows(files, workers, k, workers);
    }
}

/// Later workers begin later, or at the same source where shares are empty.
pub proof fn lemma_slice_start_grows(files: nat, workers: nat, from: nat, to: nat)
    requires
        from <= to,
    ensures
        slice_start(files, workers, from) <= slice_start(files, workers, to),
    decreases to - from,
{
    if from < to {
        lemma_slice_start_grows(files, workers, from, (to - 1) as nat);
    }
}

/// The shares are balanced: no worker gets more than a worker before it,
/// and none gets less than another by more than one source. With no more
/// workers than sources, no share is empty.
pub proof fn lemma_shares_are_balanced(files: nat, workers: nat, first: nat, second: nat)
    requires
        first <= second < workers,
    ensures
        share(files, workers, second) <= share(files, workers, first) <= share(
            files,
            workers,
            second,
        ) + 1,
        workers <= files ==> share(files, workers, second) >= 1,
{
    if workers <= files {
        lemma_fundamental_div_mod(files as int, workers as int);
        assert(files / workers >= 1) by (nonlinear_arith)
            requires
                0 < workers <= files,
                files == workers * (files / workers) + files % workers,
                0 <= files % workers < workers,
        {
        }
    }
}

/// Shares `files` sources out among `workers` workers.
///
/// The slices come in worker order, are contiguous and together hold every
/// source once; the first `files % workers` of them hold one source more
/// than the others.
pub fn partition(files: usize, workers: usize) -> (plan: Vec<Slice>)
    requires
        1 <= workers <= files,
    ensures
        plan@ == slices(files as nat, workers as nat),
{
    let quotient = files / workers;
    let remainder = files % workers;
    let mut plan: Vec<Slice> = Vec::new();
    let mut start: usize = 0;
    let mut worker: usize = 0;
    while worker < workers
        invariant
            1 <= workers <= files,
            quotient == files / workers,
            remainder == files % workers,
            worker <= workers,
            start == slice_start(files as nat, workers as nat, worker as nat),
            plan@.len() == worker,
            forall|k: int|
                0 <= k < worker ==> plan@[k] == (Slice {
                    start: slice_start(files as nat, workers as nat, k as nat) as usize,
                    end: slice_start(files as nat, workers as nat, (k + 1) as nat) as usize,
                }),
        decreases workers - worker,
    {
        proof {
            lemma_slices_cover(files as nat, workers as nat);
            assert(slice_start(files as nat, workers as nat, (worker + 1) as nat) <= files);
        }
        let length = if worker < remainder {
            quotient + 1
        } else {
            quotient
        };
        let end = start + length;
        plan.push(Slice { start, end });
        start = end;
        worker += 1;
    }
    assert(plan@ =~= slices(files as nat, workers as nat));
    plan
}

/// The trees of a list of outcomes, in order; where an outcome is an
/// error, the first error of the list.
pub open spec fn gathered(results: Seq<Result<Tree, Error>>) -> Result<Seq<Tree>, Error>
    decreases results.len(),
{
    if results.len() == 0 {
        Ok(Seq::empty())
    } else {
        match gathered(results.drop_last()) {
            Err(error) => Err(error),
            Ok(trees) => match results.last() {
                Ok(tree) => Ok(trees.push(tree)),
                Err(error) => Err(error),
            },
        }
    }
}

/// The trees of the workers one after the other, in worker order; where a
/// worker ended in an error, the error of the first such worker.
pub open spec fn reassembled(outputs: Seq<Result<Seq<Tree>, Error>>) -> Result<Seq<Tree>, Error>
    decreases outputs.len(),
{
    if outputs.len() == 0 {
        Ok(Seq::empty())
    } else {
        match reassembled(outputs.drop_last()) {
            Err(error) => Err(error),
            Ok(trees) => match outputs.last() {
                Ok(more) => Ok(trees + more),
                Err(error) => Err(error),
            },
        }
    }
}

/// What the workers hand in, as sequences.
pub open spec fn output_views(outputs: Seq<Result<Vec<Tree>, Error>>) -> Seq<
    Result<Seq<Tree>, Error>,
> {
    outputs.map_values(
        |output: Result<Vec<Tree>, Error>|
            match output {
                Ok(trees) => Ok(trees@),
                Err(error) => Err(error),
            },
    )
}

/// Gathering two lists one after the other is gathering the first and then
/// the second: the first error of the first list decides, then the first
/// error of the second.
pub proof fn lemma_gathered_append(
    first: Seq<Result<Tree, Error>>,
    second: Seq<Result<Tree, Error>>,
)
    ensures
        gathered(first + second) == match gathered(first) {
            Err(error) => Err(error),
            Ok(trees) => match gathered(second) {
                Ok(more) => Ok(trees + more),
                Err(error) => Err(error),
            },
        },
    decreases second.len(),
{
    if second.len() == 0 {
        assert(first + second =~= first);
        if let Ok(trees) = gathered(first) {
            assert(trees + Seq::<Tree>::empty() =~= trees);
        }
    } else {
        let whole = first + second;
        assert(whole.drop_last() =~= first + second.drop_last());
        assert(whole.last() == second.last());
        lemma_gathered_append(first, second.drop_last());
        if let Ok(trees) = gathered(first) {
            if let Ok(more) = gathered(second.drop_last()) {
                if let Ok(tree) = second.last() {
                    assert((trees + more).push(tree) =~= trees + more.push(tree));
                }
            }
        }
    }
}

/// Where all outcomes are trees, there is one tree for each outcome, at the
/// same index.
pub proof fn lemma_gathered_is_aligned(results: Seq<Result<Tree, Error>>)
    ensures
        gathered(results) matches Ok(trees) ==> {
            &&& trees.len() == results.len()
            &&& forall|i: int| 0 <= i < results.len() ==> results[i] == Ok::<Tree, Error>(trees[i])
        },
        gathered(results) matches Err(error) ==> exists|i: int|
            {
                &&& 0 <= i < results.len()
                &&& #[trigger] results[i] == Err::<Tree, Error>(error)
                &&& forall|j: int| 0 <= j < i ==> results[j] is Ok
            },
    decreases results.len(),
{
    if results.len() > 0 {
        let front = results.drop_last();
        lemma_gathered_is_aligned(front);
        match gathered(front) {
            Ok(trees) => {
                match results.last() {
                    Ok(tree) => {
                        assert forall|i: int| 0 <= i < results.len() implies results[i] == Ok::<
                            Tree,
                            Error,
                        >(trees.push(tree)[i]) by {
                            if i < front.len() {
                                assert(results[i] == front[i]);
                            }
                        }
                    },
                    Err(error) => {
                        let at = results.len() - 1;
                        assert(results[at] == Err::<Tree, Error>(error));
                        assert forall|j: int| 0 <= j < at implies results[j] is Ok by {
                            assert(results[j] == front[j]);
                        }
                    },
                }
            },
            Err(error) => {
                let at = choose|i: int|
                    {
                        &&& 0 <= i < front.len()
                        &&& #[trigger] front[i] == Err::<Tree, Error>(error)
                        &&& forall|j: int| 0 <= j < i ==> front[j] is Ok
                    };
                assert(results[at] == front[at]);
                assert forall|j: int| 0 <= j < at implies results[j] is Ok by {
                    assert(results[j] == front[j]);
                }
            },
        }
    }
}

/// What the worker `worker` of `workers` hands in, when the outcomes of all
/// sources, in source order, are `results`: the gathered outcomes of its
/// slice.
pub open spec fn output_of(results: Seq<Result<Tree, Error>>, workers: nat, worker: nat) -> Result<
    Seq<Tree>,
    Error,
> {
    gathered(
        results.subrange(
            slice_start(results.len(), workers, worker) as int,
            slice_start(results.len(), workers, worker + 1) as int,
        ),
    )
}

/// What the workers hand in, in worker order.
pub open spec fn outputs_of(results: Seq<Result<Tree, Error>>, workers: nat) -> Seq<
    Result<Seq<Tree>, Error>,
> {
    Seq::new(workers, |k: int| output_of(results, workers, k as nat))
}

/// Index alignment. However many workers share the sources, putting their
/// outputs together gives what one worker would have gathered from all
/// sources: the tree of the i-th source at index i, or the first error in
/// source order.
pub proof fn lemma_index_alignment(results: Seq<Result<Tree, Error>>, workers: nat)
    requires
        1 <= workers <= results.len(),
    ensures
        reassembled(outputs_of(results, workers)) == gathered(results),
        gathered(results) matches Ok(trees) ==> {
            &&& trees.len() == results.len()
            &&& forall|i: int| 0 <= i < results.len() ==> results[i] == Ok::<Tree, Error>(trees[i])
        },
{
    lemma_slices_cover(results.len(), workers);
    lemma_reassembled_prefix(results, workers, workers);
    assert(outputs_of(results, workers).take(workers as int) =~= outputs_of(results, workers));
    assert(results.take(results.len() as int) =~= results);
    lemma_gathered_is_aligned(results);
}

/// The outputs of the first `upto` workers, put together, are the gathered
/// outcomes of the sources before the slice of the next worker.
proof fn lemma_reassembled_prefix(results: Seq<Result<Tree, Error>>, workers: nat, upto: nat)
    requires
        1 <= workers,
        upto <= workers,
    ensures
        reassembled(outputs_of(results, workers).take(upto as int)) == gathered(
            results.take(slice_start(results.len(), workers, upto) as int),
        ),
    decreases upto,
{
    let files = results.len();
    let outputs = outputs_of(results, workers);
    lemma_slices_cover(files, workers);
    if upto == 0 {
        assert(outputs.take(0) =~= Seq::<Result<Seq<Tree>, Error>>::empty());
        assert(results.take(0) =~= Seq::<Result<Tree, Error>>::empty());
    } else {
        let before = (upto - 1) as nat;
        lemma_reassembled_prefix(results, workers, before);
        let from = slice_start(files, workers, before) as int;
        let to = slice_start(files, workers, upto) as int;
        assert(slice_start(files, workers, before) <= slice_start(files, workers, upto) <= files);
        assert(outputs.take(upto as int).drop_last() =~= outputs.take(before as int));
        assert(outputs.take(upto as int).last() == output_of(results, workers, before));
        assert(results.take(to) =~= results.take(from) + results.subrange(from, to));
        lemma_gathered_append(results.take(from), results.subrange(from, to));
    }
}

/// Turns a list around.
fn reversed<T>(items: Vec<T>) -> (turned: Vec<T>)
    ensures
        turned@ == items@.reverse(),
{
    let mut items = items;
    let ghost all = items@;
    let mut turned: Vec<T> = Vec::new();
    while items.len() > 0
        invariant
            items@.len() + turned@.len() == all.len(),
            items@ == all.take(items@.len() as int),
            forall|j: int| 0 <= j < turned@.len() ==> turned@[j] == all[all.len() - 1 - j],
        decreases items@.len(),
    {
        let item = items.pop().unwrap();
        turned.push(item);
    }
    assert(turned@ =~= all.reverse());
    turned
}

/// Gathers the outcomes of one worker: its trees in order, or its first
/// error.
pub fn gather(results: Vec<Result<Tree, Error>>) -> (outcome: Result<Vec<Tree>, Error>)
    ensures
        match gathered(results@) {
            Ok(trees) => outcome matches Ok(found) && found@ == trees,
            Err(error) => outcome == Err::<Vec<Tree>, Error>(error),
        },
{
    let ghost all = results@;
    let mut rest = reversed(results);
    let mut trees: Vec<Tree> = Vec::new();
    assert(all.take(0) =~= Seq::<Result<Tree, Error>>::empty());
    while rest.len() > 0
        invariant
            all == results@,
            rest@.len() <= all.len(),
            forall|j: int| 0 <= j < rest@.len() ==> rest@[j] == all[all.len() - 1 - j],
            gathered(all.take(all.len() - rest@.len())) == Ok::<Seq<Tree>, Error>(trees@),
        decreases rest@.len(),
    {
        let ghost done = all.len() - rest@.len();
        let result = rest.pop().unwrap();
        proof {
            assert(result == all[done]);
            assert(all.take(done + 1).drop_last() =~= all.take(done));
            assert(all.take(done + 1).last() == all[done]);
        }
        match result {
            Ok(tree) => {
                trees.push(tree);
            },
            Err(error) => {
                proof {
                    let head = all.take(done + 1);
                    assert(all =~= head + all.skip(done + 1));
                    lemma_gathered_append(head, all.skip(done + 1));
                }
                return Err(error);
            },
        }
    }
    assert(all.take(all.len() as int) =~= all);
    Ok(trees)
}

/// Puts the outputs of the workers together, in worker order: all trees, or
/// the error of the first worker that ended in one.
pub fn reassemble(outputs: Vec<Result<Vec<Tree>, Error>>) -> (outcome: Result<Vec<Tree>, Error>)
    ensures
        match reassembled(output_views(outputs@)) {
            Ok(trees) => outcome matches Ok(found) && found@ == trees,
            Err(error) => outcome == Err::<Vec<Tree>, Error>(error),
        },
{
    let ghost all = output_views(outputs@);
    let mut rest = reversed(outputs);
    let mut trees: Vec<Tree> = Vec::new();
    assert(all.take(0) =~= Seq::<Result<Seq<Tree>, Error>>::empty());
    while rest.len() > 0
        invariant
            all == output_views(outputs@),
            rest@.len() <= all.len(),
            forall|j: int| 0 <= j < rest@.len() ==> rest@[j] == outputs@[all.len() - 1 - j],
            reassembled(all.take(all.len() - rest@.len())) == Ok::<Seq<Tree>, Error>(trees@),
        decreases rest@.len(),
    {
        let ghost done = all.len() - rest@.len();
        let output = rest.pop().unwrap();
        proof {
            assert(output == outputs@[done]);
            assert(all.take(done + 1).drop_last() =~= all.take(done));
            assert(all.take(done + 1).last() == all[done]);
        }
        match output {
            Ok(more) => {
                let mut more = more;
                trees.append(&mut more);
            },
            Err(error) => {
                proof {
                    lemma_reassembled_is_final(all, done + 1);
                }
                return Err(error);
            },
        }
    }
    assert(all.take(all.len() as int) =~= all);
    Ok(trees)
}

/// Once a worker has decided the error, the workers after it do not change
/// it.
pub proof fn lemma_reassembled_is_final(outputs: Seq<Result<Seq<Tree>, Error>>, upto: int)
    requires
        0 <= upto <= outputs.len(),
        reassembled(outputs.take(upto)) is Err,
    ensures
        reassembled(outputs) == reassembled(outputs.take(upto)),
    decreases outputs.len() - upto,
{
    if upto == outputs.len() {
        assert(outputs.take(upto) =~= outputs);
    } else {
        assert(outputs.take(upto + 1).drop_last() =~= outputs.take(upto));
        lemma_reassembled_is_final(outputs, upto + 1);
    }
}

} // verus!
