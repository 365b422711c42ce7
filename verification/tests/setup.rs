use std::sync::Arc;

use codex_local::client::{
    LemonadeClient, LEMONADE_CONNECTION_ERROR, LEMONADE_OSS_PROVIDER_ID,
};
use codex_local::config::{Config, ModelProviderInfo};
use codex_local::error::{ClientError, ErrorKind};
use codex_local::ready::{ensure_oss_ready, OssAction, OssEvent, OssSetup, DEFAULT_OSS_MODEL};
use codex_local::registry::{
    register_test_thread_store, remove_test_thread_store, test_thread_store, TestThreadStores,
};
use codex_local::startup::{Startup, StartupAction, StartupEvent};

fn failure(message: &str) -> ClientError {
    ClientError { kind: ErrorKind::Other, message: message.to_string() }
}

fn checked(up: bool) -> StartupEvent<&'static str> {
    StartupEvent::Checked(if up { Ok(()) } else { Err(failure("down")) })
}

fn begin() -> Startup<&'static str> {
    LemonadeClient::from_base_url("http://host".to_string()).ensure_server_running()
}

#[test]
fn a_running_server_is_left_alone() {
    let startup = begin();
    assert_eq!(startup.action(), Some(StartupAction::CheckServer));
    let startup = startup.next(checked(true));
    assert_eq!(startup.action(), None);
    assert!(startup.result().unwrap().is_ok());
}

fn waiting() -> Startup<&'static str> {
    let startup = begin().next(checked(false));
    assert_eq!(startup.action(), Some(StartupAction::FindServerExe));
    let startup = startup.next(StartupEvent::Located(Ok("server.exe")));
    assert_eq!(startup.action(), Some(StartupAction::StartServer(&"server.exe")));
    let startup = startup.next(StartupEvent::Started(Ok(())));
    assert_eq!(startup.action(), Some(StartupAction::ReadClock));
    startup
}

#[test]
fn a_started_server_is_waited_for() {
    let mut startup = waiting();
    for round in 0..3 {
        startup = startup.next(StartupEvent::Clock(500 * round));
        assert_eq!(startup.action(), Some(StartupAction::CheckServer));
        startup = startup.next(checked(false));
        assert_eq!(startup.action(), Some(StartupAction::Sleep(500)));
        startup = startup.next(StartupEvent::Slept);
        assert_eq!(startup.action(), Some(StartupAction::ReadClock));
    }
    let startup = startup.next(StartupEvent::Clock(29_999)).next(checked(true));
    assert!(startup.result().unwrap().is_ok());
}

#[test]
fn a_silent_server_is_given_up_after_thirty_seconds() {
    let err = waiting()
        .next(StartupEvent::Clock(30_000))
        .result()
        .unwrap()
        .unwrap_err();
    assert_eq!(err.kind, ErrorKind::Other);
    assert_eq!(
        err.message,
        format!(
            "Lemonade Server did not become ready within 30 seconds. {}",
            LEMONADE_CONNECTION_ERROR
        )
    );
}

#[test]
fn waiting_ends_after_sixty_one_rounds_at_the_latest() {
    let mut startup = waiting();
    let mut rounds = 0;
    while startup.action().is_some() {
        startup = startup.next(StartupEvent::Clock(500 * rounds));
        startup = startup.next(checked(false));
        startup = startup.next(StartupEvent::Slept);
        rounds += 1;
    }
    assert_eq!(rounds, 61);
    assert!(startup.result().unwrap().is_err());
}

#[test]
fn a_server_that_cannot_be_found_or_started_is_an_error() {
    let startup = begin().next(checked(false)).next(StartupEvent::Located(Err(failure("none"))));
    assert_eq!(startup.result().unwrap().unwrap_err().message, "none");
    let startup = begin()
        .next(checked(false))
        .next(StartupEvent::Located(Ok("server.exe")))
        .next(StartupEvent::Started(Err(failure("stuck"))));
    assert_eq!(startup.action(), None);
    assert_eq!(startup.result().unwrap().unwrap_err().message, "stuck");
}

#[test]
fn an_event_that_answers_nothing_is_passed_over() {
    let startup = begin().next(StartupEvent::Slept).next(StartupEvent::Clock(99_999));
    assert_eq!(startup.action(), Some(StartupAction::CheckServer));
    assert!(startup.result().is_none());
    let startup = begin().next(checked(true)).next(checked(false));
    assert!(startup.result().unwrap().is_ok());
}

#[test]
fn the_program_that_was_found_is_the_one_to_start() {
    for path in ["a", "b"] {
        let startup = begin()
            .next(StartupEvent::Located(Ok("too early")))
            .next(checked(false))
            .next(StartupEvent::Located(Ok(path)))
            .next(StartupEvent::Located(Ok("too late")));
        assert_eq!(startup.action(), Some(StartupAction::StartServer(&path)));
    }
}

fn setup(model: Option<&str>) -> OssSetup {
    let mut config = Config::new(model.map(|m| m.to_string()));
    config.add_provider(
        LEMONADE_OSS_PROVIDER_ID.to_string(),
        ModelProviderInfo { base_url: Some("http://host".to_string()) },
    );
    ensure_oss_ready(&config).ok().unwrap()
}

fn listed(models: &[&str]) -> OssEvent {
    OssEvent::Fetched(Ok(models.iter().map(|m| m.to_string()).collect()))
}

#[test]
fn the_default_model_is_used_where_none_is_asked_for() {
    assert_eq!(DEFAULT_OSS_MODEL, "Qwen3-30B-A3B-Instruct-2507-GGUF");
    assert_eq!(setup(None).model(), DEFAULT_OSS_MODEL);
    assert_eq!(setup(Some("tiny")).model(), "tiny");
    assert_eq!(setup(None).client().models_url(), "http://host/models");
}

#[test]
fn a_setup_needs_the_built_in_provider() {
    let err = ensure_oss_ready(&Config::new(None)).err().unwrap();
    assert_eq!(err.kind, ErrorKind::NotFound);
}

#[test]
fn a_model_on_disk_is_loaded_without_download() {
    let setup = setup(Some("tiny"));
    assert_eq!(setup.action(), Some(OssAction::EnsureServerRunning));
    let setup = setup.next(OssEvent::ServerRunning(Ok(())));
    assert_eq!(setup.action(), Some(OssAction::FetchModels));
    let setup = setup.next(listed(&["big", "tiny"]));
    assert_eq!(setup.action(), Some(OssAction::SpawnLoad));
    let setup = setup.next(OssEvent::LoadSpawned);
    assert_eq!(setup.action(), None);
    assert!(setup.result().unwrap().is_ok());
}

#[test]
fn a_missing_model_is_downloaded() {
    let fetched = || setup(Some("tiny")).next(OssEvent::ServerRunning(Ok(()))).next(listed(&["big"]));
    assert_eq!(fetched().action(), Some(OssAction::DownloadModel));
    let done = fetched().next(OssEvent::Downloaded(Ok(())));
    assert_eq!(done.action(), Some(OssAction::SpawnLoad));
    let failed = fetched().next(OssEvent::Downloaded(Err(failure("disk full"))));
    assert_eq!(failed.action(), None);
    assert_eq!(failed.result().unwrap().unwrap_err().message, "disk full");
}

#[test]
fn a_failure_to_list_the_models_is_no_failure() {
    let setup = setup(None)
        .next(OssEvent::ServerRunning(Ok(())))
        .next(OssEvent::Fetched(Err(failure("no list"))));
    assert_eq!(setup.action(), Some(OssAction::SpawnLoad));
    assert!(setup.result().is_none());
}

#[test]
fn a_server_that_does_not_run_is_a_failure() {
    let setup = setup(None).next(OssEvent::ServerRunning(Err(failure("down"))));
    assert_eq!(setup.action(), None);
    assert_eq!(setup.result().unwrap().unwrap_err().message, "down");
}

trait Store {
    fn name(&self) -> &str;
}

struct Named(&'static str);

impl Store for Named {
    fn name(&self) -> &str {
        self.0
    }
}

#[test]
fn stores_are_registered_found_and_removed() {
    let mut stores: TestThreadStores<dyn Store> = TestThreadStores::new();
    assert!(test_thread_store(&stores, "test://a").is_none());
    let first: Arc<dyn Store> = Arc::new(Named("first"));
    register_test_thread_store(&mut stores, "test://a".to_string(), first.clone());
    register_test_thread_store(&mut stores, "test://b".to_string(), Arc::new(Named("other")));
    let found = test_thread_store(&stores, "test://a").unwrap();
    assert!(Arc::ptr_eq(&found, &first));
    assert_eq!(test_thread_store(&stores, "test://b").unwrap().name(), "other");

    register_test_thread_store(&mut stores, "test://a".to_string(), Arc::new(Named("second")));
    assert_eq!(test_thread_store(&stores, "test://a").unwrap().name(), "second");

    let removed = remove_test_thread_store(&mut stores, "test://a").unwrap();
    assert_eq!(removed.name(), "second");
    assert!(test_thread_store(&stores, "test://a").is_none());
    assert!(remove_test_thread_store(&mut stores, "test://a").is_none());
    assert_eq!(test_thread_store(&stores, "test://b").unwrap().name(), "other");
}
