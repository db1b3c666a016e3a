use deltalake_gcp::registry::SchemeRegistry;
use deltalake_gcp::register_handlers;
use deltalake_gcp::storage::{
    finish_create, rename_start, rename_step, CreateOutcome, ProviderEvent, RenameAction,
    RenameState,
};

#[test]
fn reregistering_a_scheme_is_not_an_error_and_the_second_wins() {
    let mut reg: SchemeRegistry<u32> = SchemeRegistry::new();
    reg.register("gs".to_string(), 1);
    reg.register("gs".to_string(), 2);
    assert_eq!(reg.lookup("gs"), Some(&2));
    assert_eq!(reg.lookup("s3"), None);
}

#[test]
fn register_handlers_is_idempotent() {
    let mut reg = SchemeRegistry::new();
    register_handlers(&mut reg, None);
    register_handlers(&mut reg, None);
    assert!(reg.lookup("gs").is_some());
    assert!(reg.lookup("file").is_none());
}

#[test]
fn create_outcomes_are_surfaced_faithfully() {
    assert!(matches!(finish_create(ProviderEvent::Success), CreateOutcome::Created));
    assert!(matches!(
        finish_create(ProviderEvent::AlreadyExists),
        CreateOutcome::AlreadyExists
    ));
    match finish_create(ProviderEvent::Other("boom".to_string())) {
        CreateOutcome::Failed(m) => assert_eq!(m, "boom"),
        _ => panic!("a provider failure must surface as a failure"),
    }
}

#[test]
fn concurrent_creates_have_exactly_one_winner() {
    let a = finish_create(ProviderEvent::Success);
    let b = finish_create(ProviderEvent::AlreadyExists);
    let created =
        matches!(a, CreateOutcome::Created) as u32 + matches!(b, CreateOutcome::Created) as u32;
    let lost = matches!(a, CreateOutcome::AlreadyExists) as u32
        + matches!(b, CreateOutcome::AlreadyExists) as u32;
    assert_eq!(created, 1);
    assert_eq!(lost, 1);
}

#[test]
fn rename_protocol_runs_copy_then_delete() {
    let (st, first) = rename_start();
    assert_eq!(first, RenameAction::CopyIfAbsent);
    let (st, action) = rename_step(st, ProviderEvent::Success);
    assert!(matches!(st, RenameState::AwaitDelete));
    assert_eq!(action, Some(RenameAction::DeleteSource));
    let (st, action) = rename_step(st, ProviderEvent::Success);
    assert!(matches!(st, RenameState::Done));
    assert_eq!(action, None);
}

#[test]
fn rename_protocol_stops_on_a_lost_race_without_deleting() {
    let (st, _) = rename_start();
    let (st, action) = rename_step(st, ProviderEvent::AlreadyExists);
    assert!(matches!(st, RenameState::Lost));
    assert_eq!(action, None);
}

#[test]
fn rename_protocol_surfaces_provider_failures() {
    let (st, _) = rename_start();
    let (st, action) = rename_step(st, ProviderEvent::Other("boom".to_string()));
    assert_eq!(action, None);
    match st {
        RenameState::Failed(ProviderEvent::Other(m)) => assert_eq!(m, "boom"),
        _ => panic!("a provider failure must surface"),
    }
}
