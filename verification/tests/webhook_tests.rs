use reposerve::webhook::{interpret_run, response_class, DispatchError, ResponseClass, RunOutcome,
    WebhookRegistry};

fn registry() -> WebhookRegistry {
    WebhookRegistry::new(vec![
        ("deploy".to_owned(), "/usr/local/bin/deploy.sh".to_owned()),
        ("purge".to_owned(), "/usr/local/bin/purge.sh".to_owned()),
    ])
}

#[test]
fn lookup_finds_registered_script() {
    let reg = registry();
    assert_eq!(reg.lookup("deploy").map(String::as_str), Some("/usr/local/bin/deploy.sh"));
    assert_eq!(reg.lookup("purge").map(String::as_str), Some("/usr/local/bin/purge.sh"));
}

#[test]
fn lookup_misses_unregistered_name() {
    let reg = registry();
    assert!(reg.lookup("missing-name").is_none());
}

#[test]
fn first_registration_wins_for_duplicate_names() {
    let reg = WebhookRegistry::new(vec![
        ("x".to_owned(), "first".to_owned()),
        ("x".to_owned(), "second".to_owned()),
    ]);
    assert_eq!(reg.lookup("x").map(String::as_str), Some("first"));
}

#[test]
fn successful_run_yields_captured_output() {
    let r = interpret_run(RunOutcome::Completed { exit_ok: true, stdout: "done\n".to_owned() });
    assert_eq!(r, Ok("done\n".to_owned()));
}

#[test]
fn nonzero_exit_yields_execution_failure() {
    let r = interpret_run(RunOutcome::Completed { exit_ok: false, stdout: "boom".to_owned() });
    assert_eq!(r, Err(DispatchError::ExecutionFailed("boom".to_owned())));
}

#[test]
fn spawn_failure_yields_execution_failure() {
    let r = interpret_run(RunOutcome::SpawnFailed { message: "no such file".to_owned() });
    assert_eq!(r, Err(DispatchError::ExecutionFailed("no such file".to_owned())));
}

#[test]
fn unknown_name_and_failed_run_are_indistinguishable_to_callers() {
    let missing = response_class(&Err(DispatchError::NotFound));
    let failed = response_class(&interpret_run(RunOutcome::Completed {
        exit_ok: false,
        stdout: String::new(),
    }));
    let unspawnable = response_class(&interpret_run(RunOutcome::SpawnFailed {
        message: "denied".to_owned(),
    }));
    assert_eq!(missing, ResponseClass::NotFoundClass);
    assert_eq!(missing, failed);
    assert_eq!(missing, unspawnable);
}

#[test]
fn success_is_its_own_response_class() {
    let ok = response_class(&Ok("out".to_owned()));
    assert_eq!(ok, ResponseClass::Success);
}
