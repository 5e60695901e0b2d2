//! The course of a call that carries remarks: what is done in which order,
//! and what ends it.
//!
//! The work itself is done by the runtime: checking before the call,
//! dispatching the call, checking after it, depositing the event. What is
//! decided here is which of these comes next, given how the last one ended.

use vstd::prelude::*;

verus! {

/// A piece of work that the runtime does for a call with remarks.
#[derive(Clone, Copy, Debug, PartialEq, Eq)]
pub enum Stage {
    /// The handler checks the remarks before the call is dispatched.
    PreDispatchCheck,
    /// The call is dispatched, with an origin that lets no call with remarks
    /// through.
    Dispatch,
    /// The handler checks the remarks after the call was dispatched.
    PostDispatchCheck,
    /// The event with the remarks and the call is deposited.
    DepositEvent,
}

/// Why a call with remarks failed.
#[derive(Clone, Copy, Debug, PartialEq, Eq)]
pub enum RemarkError<E> {
    /// The call carried no remarks.
    NoRemarks,
    /// A piece of work failed with this error.
    Failed(E),
}

/// What comes next in the course of a call with remarks.
#[derive(Debug, PartialEq, Eq)]
pub enum Progress<E> {
    /// This piece of work is to be done.
    Perform(Stage),
    /// The call has ended with this result.
    Finished(Result<(), RemarkError<E>>),
}

/// How a call with `remarks` remarks begins.
pub open spec fn spec_begin<E>(remarks: nat) -> Progress<E> {
    if remarks == 0 {
        Progress::Finished(Err(RemarkError::NoRemarks))
    } else {
        Progress::Perform(Stage::PreDispatchCheck)
    }
}

/// What follows a piece of work that ended with `outcome`.
pub open spec fn spec_advance<E>(done: Stage, outcome: Result<(), E>) -> Progress<E> {
    match outcome {
        Err(e) => Progress::Finished(Err(RemarkError::Failed(e))),
        Ok(_) => match done {
            Stage::PreDispatchCheck => Progress::Perform(Stage::Dispatch),
            Stage::Dispatch => Progress::Perform(Stage::PostDispatchCheck),
            Stage::PostDispatchCheck => Progress::Perform(Stage::DepositEvent),
            Stage::DepositEvent => Progress::Finished(Ok(())),
        },
    }
}

/// The result of a call with remarks, from how its pieces of work would end:
/// the first failure in their order, or success.
pub open spec fn remark_result<E>(
    remarks: nat,
    pre_check: Result<(), E>,
    dispatch: Result<(), E>,
    post_check: Result<(), E>,
) -> Result<(), RemarkError<E>> {
    if remarks == 0 {
        Err(RemarkError::NoRemarks)
    } else {
        match (pre_check, dispatch, post_check) {
            (Err(e), _, _) => Err(RemarkError::Failed(e)),
            (Ok(_), Err(e), _) => Err(RemarkError::Failed(e)),
            (Ok(_), Ok(_), Err(e)) => Err(RemarkError::Failed(e)),
            (Ok(_), Ok(_), Ok(_)) => Ok(()),
        }
    }
}

/// The course of a call from a piece of work on, where the pieces of work
/// end as given: the result that it comes to.
pub open spec fn course<E>(
    from: Progress<E>,
    pre_check: Result<(), E>,
    dispatch: Result<(), E>,
    post_check: Result<(), E>,
) -> Result<(), RemarkError<E>>
    decreases
            (match from {
                Progress::Perform(Stage::PreDispatchCheck) => 4nat,
                Progress::Perform(Stage::Dispatch) => 3nat,
                Progress::Perform(Stage::PostDispatchCheck) => 2nat,
                Progress::Perform(Stage::DepositEvent) => 1nat,
                Progress::Finished(_) => 0nat,
            }),
{
    match from {
        Progress::Finished(result) => result,
        Progress::Perform(stage) => {
            let outcome = match stage {
                Stage::PreDispatchCheck => pre_check,
                Stage::Dispatch => dispatch,
                Stage::PostDispatchCheck => post_check,
                Stage::DepositEvent => Ok(()),
            };
            course(spec_advance(stage, outcome), pre_check, dispatch, post_check)
        },
    }
}

/// Whether the origin with which the call is dispatched lets a call through:
/// every call but one that carries remarks itself.
pub fn passes_filter(carries_remarks: bool) -> (pass: bool)
    ensures
        pass == !carries_remarks,
{
    !carries_remarks
}

/// How a call with `remarks` remarks begins: with the check before the
/// dispatch, or, without remarks, with its failure.
pub fn begin<E>(remarks: usize) -> (next: Progress<E>)
    ensures
        next == spec_begin::<E>(remarks as nat),
{
    if remarks == 0 {
        Progress::Finished(Err(RemarkError::NoRemarks))
    } else {
        Progress::Perform(Stage::PreDispatchCheck)
    }
}

/// What follows the piece of work `done`, which ended with `outcome`: the
/// next piece in order, or the end of the call, with the error of the piece
/// that failed or after the event was deposited.
pub fn advance<E>(done: Stage, outcome: Result<(), E>) -> (next: Progress<E>)
    ensures
        next == spec_advance(done, outcome),
{
    match outcome {
        Err(e) => Progress::Finished(Err(RemarkError::Failed(e))),
        Ok(_) => match done {
            Stage::PreDispatchCheck => Progress::Perform(Stage::Dispatch),
            Stage::Dispatch => Progress::Perform(Stage::PostDispatchCheck),
            Stage::PostDispatchCheck => Progress::Perform(Stage::DepositEvent),
            Stage::DepositEvent => Progress::Finished(Ok(())),
        },
    }
}

/// Step by step, a call with remarks comes to the first failure among its
/// pieces of work, taken in their order, and to success where none fails.
pub proof fn lemma_course_of_remark<E>(
    remarks: nat,
    pre_check: Result<(), E>,
    dispatch: Result<(), E>,
    post_check: Result<(), E>,
)
    ensures
        course(spec_begin::<E>(remarks), pre_check, dispatch, post_check) == remark_result(
            remarks,
            pre_check,
            dispatch,
            post_check,
        ),
{
    reveal_with_fuel(course, 6);
}

/// The event is deposited only after all three pieces of work before it
/// succeeded, and nothing is dispatched after a check that failed.
pub proof fn lemma_order_of_stages<E>(done: Stage, outcome: Result<(), E>)
    ensures
        spec_advance(done, outcome) == Progress::<E>::Perform(Stage::Dispatch) ==> done
            == Stage::PreDispatchCheck && outcome is Ok,
        spec_advance(done, outcome) == Progress::<E>::Perform(Stage::PostDispatchCheck) ==> done
            == Stage::Dispatch && outcome is Ok,
        spec_advance(done, outcome) == Progress::<E>::Perform(Stage::DepositEvent) ==> done
            == Stage::PostDispatchCheck && outcome is Ok,
        spec_advance(done, outcome) != Progress::<E>::Perform(Stage::PreDispatchCheck),
        spec_advance(done, outcome) == Progress::<E>::Finished(Ok(())) ==> done
            == Stage::DepositEvent && outcome is Ok,
{
}

} // verus!
