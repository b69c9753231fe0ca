//! What a worker pool reports of its jobs: success, the job's own error, or
//! a panic, and how the reports of a batch of jobs add up.
use vstd::prelude::*;

verus! {

/// How a job failed.
#[derive(Debug)]
pub enum Error<E> {
    /// The job panicked; the worker went on with the next job.
    Panic,
    /// The job returned an error.
    Value(E),
}

/// The report of one job from what its closure did: `None` when it
/// panicked, else what it returned.
pub fn job_result<E>(outcome: Option<Result<(), E>>) -> (r: Result<(), Error<E>>)
    ensures
        outcome is None ==> r == Err::<(), Error<E>>(Error::Panic),
        outcome matches Some(Ok(())) ==> r is Ok,
        outcome matches Some(Err(e)) ==> r == Err::<(), Error<E>>(Error::Value(e)),
{
    match outcome {
        None => Err(Error::Panic),
        Some(Ok(())) => Ok(()),
        Some(Err(e)) => Err(Error::Value(e)),
    }
}

/// The errors among the reports, in order.
pub open spec fn errors_of<E>(results: Seq<Result<(), Error<E>>>) -> Seq<Error<E>>
    decreases results.len(),
{
    if results.len() == 0 {
        Seq::empty()
    } else {
        let rest = errors_of(results.drop_last());
        match results.last() {
            Ok(()) => rest,
            Err(e) => rest.push(e),
        }
    }
}

/// Waits for a batch, given the reports in submission order: success when
/// no job failed, else every failure in order. One failure does not hide
/// the others.
pub fn collect_results<E>(results: Vec<Result<(), Error<E>>>) -> (r: Result<(), Vec<Error<E>>>)
    ensures
        errors_of(results@).len() == 0 ==> r is Ok,
        errors_of(results@).len() > 0 ==> (r matches Err(v) && v@ == errors_of(results@)),
{
    let mut errors: Vec<Error<E>> = Vec::new();
    let mut rest = results;
    let ghost all = rest@;
    let ghost done: int = 0;
    while rest.len() > 0
        invariant
            0 <= done <= all.len(),
            rest@ == all.subrange(done, all.len() as int),
            errors@ == errors_of(all.subrange(0, done)),
        decreases rest@.len(),
    {
        let x = rest.remove(0);
        proof {
            assert(all.subrange(0, done + 1).drop_last() =~= all.subrange(0, done));
            assert(all[done] == x);
            done = done + 1;
        }
        match x {
            Ok(()) => {},
            Err(e) => {
                errors.push(e);
            },
        }
        assert(rest@ =~= all.subrange(done, all.len() as int));
    }
    assert(all.subrange(0, all.len() as int) =~= all);
    if errors.len() == 0 {
        Ok(())
    } else {
        Err(errors)
    }
}

} // verus!
