use mock_builder::remarks::{advance, begin, passes_filter, Progress, RemarkError, Stage};

/// What the runtime would answer to each piece of work.
struct Runtime {
    pre_check: Result<(), &'static str>,
    dispatch: Result<(), &'static str>,
    post_check: Result<(), &'static str>,
}

const WILLING: Runtime = Runtime { pre_check: Ok(()), dispatch: Ok(()), post_check: Ok(()) };

/// Runs a call with `remarks` remarks, and says which pieces of work were
/// done and how the call ended.
fn remark(runtime: &Runtime, remarks: usize) -> (Vec<Stage>, Result<(), RemarkError<&'static str>>) {
    let mut performed = Vec::new();
    let mut next = begin(remarks);
    loop {
        match next {
            Progress::Finished(result) => return (performed, result),
            Progress::Perform(stage) => {
                performed.push(stage);
                let outcome = match stage {
                    Stage::PreDispatchCheck => runtime.pre_check,
                    Stage::Dispatch => runtime.dispatch,
                    Stage::PostDispatchCheck => runtime.post_check,
                    Stage::DepositEvent => Ok(()),
                };
                next = advance(stage, outcome);
            }
        }
    }
}

#[test]
fn success() {
    let (performed, result) = remark(&WILLING, 3);
    assert_eq!(result, Ok(()));
    assert_eq!(
        performed,
        vec![
            Stage::PreDispatchCheck,
            Stage::Dispatch,
            Stage::PostDispatchCheck,
            Stage::DepositEvent
        ]
    );
}

#[test]
fn no_remarks() {
    let (performed, result) = remark(&WILLING, 0);
    assert_eq!(result, Err(RemarkError::NoRemarks));
    assert_eq!(performed, vec![]);
}

#[test]
fn pre_dispatch_failure() {
    let runtime = Runtime { pre_check: Err("pre-dispatch error"), ..WILLING };
    let (performed, result) = remark(&runtime, 3);
    assert_eq!(result, Err(RemarkError::Failed("pre-dispatch error")));
    assert_eq!(performed, vec![Stage::PreDispatchCheck]);
}

#[test]
fn post_dispatch_failure() {
    let runtime = Runtime { post_check: Err("post-dispatch error"), ..WILLING };
    let (performed, result) = remark(&runtime, 3);
    assert_eq!(result, Err(RemarkError::Failed("post-dispatch error")));
    assert_eq!(
        performed,
        vec![Stage::PreDispatchCheck, Stage::Dispatch, Stage::PostDispatchCheck]
    );
}

#[test]
fn nested_remark_call_failure() {
    assert!(!passes_filter(true));
    let dispatch = if passes_filter(true) { Ok(()) } else { Err("CallFiltered") };
    let runtime = Runtime { dispatch, ..WILLING };
    let (performed, result) = remark(&runtime, 3);
    assert_eq!(result, Err(RemarkError::Failed("CallFiltered")));
    assert_eq!(performed, vec![Stage::PreDispatchCheck, Stage::Dispatch]);
}

#[test]
fn remark_in_batch_call_success() {
    // The call that is dispatched is a batch, not a call with remarks.
    assert!(passes_filter(false));
    let (_, result) = remark(&WILLING, 3);
    assert_eq!(result, Ok(()));
}

#[test]
fn inner_call_failure() {
    let runtime = Runtime { dispatch: Err("BadOrigin"), ..WILLING };
    let (performed, result) = remark(&runtime, 3);
    assert_eq!(result, Err(RemarkError::Failed("BadOrigin")));
    assert_eq!(performed, vec![Stage::PreDispatchCheck, Stage::Dispatch]);
}

#[test]
fn inner_proxy_call_failure() {
    let runtime = Runtime { dispatch: Err("NotProxy"), ..WILLING };
    let (performed, result) = remark(&runtime, 1);
    assert_eq!(result, Err(RemarkError::Failed("NotProxy")));
    assert_eq!(performed, vec![Stage::PreDispatchCheck, Stage::Dispatch]);
}

#[test]
fn the_first_failure_ends_the_call() {
    let runtime = Runtime {
        pre_check: Err("first"),
        dispatch: Err("second"),
        post_check: Err("third"),
    };
    assert_eq!(remark(&runtime, 1).1, Err(RemarkError::Failed("first")));
    let runtime = Runtime { pre_check: Ok(()), ..runtime };
    assert_eq!(remark(&runtime, 1).1, Err(RemarkError::Failed("second")));
    assert_eq!(remark(&runtime, 0).1, Err(RemarkError::NoRemarks));
}

#[test]
fn every_step_follows_the_one_before() {
    assert_eq!(begin::<()>(1), Progress::Perform(Stage::PreDispatchCheck));
    assert_eq!(begin::<()>(usize::MAX), Progress::Perform(Stage::PreDispatchCheck));
    assert_eq!(
        advance::<()>(Stage::PreDispatchCheck, Ok(())),
        Progress::Perform(Stage::Dispatch)
    );
    assert_eq!(
        advance::<()>(Stage::Dispatch, Ok(())),
        Progress::Perform(Stage::PostDispatchCheck)
    );
    assert_eq!(
        advance::<()>(Stage::PostDispatchCheck, Ok(())),
        Progress::Perform(Stage::DepositEvent)
    );
    assert_eq!(advance::<()>(Stage::DepositEvent, Ok(())), Progress::Finished(Ok(())));
    assert_eq!(
        advance(Stage::DepositEvent, Err(7)),
        Progress::Finished(Err(RemarkError::Failed(7)))
    );
}
