use voice2text::auth::ClientStatus;
use voice2text::coordinator::{
    selected_device, Command, PttState, StartDecision, StopDecision, Trigger, TriggerCoordinator,
};
use voice2text::error::PttError;

fn client(status: &str) -> ClientStatus {
    ClientStatus {
        status: status.to_string(),
        valid_until: "2030-01-01".to_string(),
        signature: "sig".to_string(),
        token: format!("token-of-{}", status),
        now: "2026-01-01".to_string(),
        messages: Vec::new(),
    }
}

fn active_coordinator() -> TriggerCoordinator {
    let mut coordinator = TriggerCoordinator::new();
    assert_eq!(coordinator.start_recording(Some(&client("active"))), Ok(StartDecision::OpenCapture));
    coordinator.capture_started();
    coordinator
}

#[test]
fn a_new_coordinator_is_idle() {
    assert_eq!(TriggerCoordinator::new().state(), PttState::Idle);
}

#[test]
fn is_banned_reads_the_status_word() {
    assert!(client("banned").is_banned());
    assert!(!client("active").is_banned());
    assert!(!client("trial").is_banned());
    assert!(!client("Banned").is_banned());
    assert!(!client("").is_banned());
}

#[test]
fn start_opens_a_capture_for_trial_and_active_clients() {
    let coordinator = TriggerCoordinator::new();
    assert_eq!(coordinator.start_recording(Some(&client("trial"))), Ok(StartDecision::OpenCapture));
    assert_eq!(coordinator.start_recording(Some(&client("active"))), Ok(StartDecision::OpenCapture));
    assert_eq!(coordinator.state(), PttState::Idle);
}

#[test]
fn the_state_turns_active_when_the_capture_has_started() {
    let coordinator = active_coordinator();
    assert_eq!(coordinator.state(), PttState::Active);
}

#[test]
fn start_while_active_is_a_no_op() {
    let coordinator = active_coordinator();
    assert_eq!(coordinator.start_recording(Some(&client("active"))), Ok(StartDecision::AlreadyActive));
    assert_eq!(coordinator.start_recording(Some(&client("banned"))), Ok(StartDecision::AlreadyActive));
    assert_eq!(coordinator.start_recording(None), Ok(StartDecision::AlreadyActive));
    assert_eq!(coordinator.state(), PttState::Active);
}

#[test]
fn stop_while_idle_is_a_no_op() {
    let mut coordinator = TriggerCoordinator::new();
    assert_eq!(coordinator.stop_recording(Some(&client("active"))), Ok(StopDecision::AlreadyIdle));
    assert_eq!(coordinator.stop_recording(None), Ok(StopDecision::AlreadyIdle));
    assert_eq!(coordinator.state(), PttState::Idle);
}

#[test]
fn start_of_a_banned_client_is_denied() {
    let coordinator = TriggerCoordinator::new();
    assert_eq!(coordinator.start_recording(Some(&client("banned"))), Err(PttError::AccessDenied));
    assert_eq!(coordinator.state(), PttState::Idle);
}

#[test]
fn start_without_a_status_is_not_ready() {
    let coordinator = TriggerCoordinator::new();
    assert_eq!(coordinator.start_recording(None), Err(PttError::NotReady));
    assert_eq!(coordinator.state(), PttState::Idle);
}

#[test]
fn stop_closes_the_capture_and_hands_out_the_token() {
    let mut coordinator = active_coordinator();
    assert_eq!(
        coordinator.stop_recording(Some(&client("active"))),
        Ok(StopDecision::CloseCapture { token: "token-of-active".to_string() })
    );
    assert_eq!(coordinator.state(), PttState::Idle);
}

#[test]
fn stop_without_a_status_leaves_the_recording_active() {
    let mut coordinator = active_coordinator();
    assert_eq!(coordinator.stop_recording(None), Err(PttError::NotReady));
    assert_eq!(coordinator.state(), PttState::Active);
}

#[test]
fn stop_lets_a_banned_client_end_its_recording() {
    let mut coordinator = active_coordinator();
    assert_eq!(
        coordinator.stop_recording(Some(&client("banned"))),
        Ok(StopDecision::CloseCapture { token: "token-of-banned".to_string() })
    );
    assert_eq!(coordinator.state(), PttState::Idle);
}

#[test]
fn a_hotkey_press_toggles() {
    let idle = TriggerCoordinator::new();
    assert_eq!(idle.command(Trigger::HotkeyPress), Command::Start);
    let active = active_coordinator();
    assert_eq!(active.command(Trigger::HotkeyPress), Command::Stop);
}

#[test]
fn hook_edges_start_and_stop_whatever_the_state() {
    let idle = TriggerCoordinator::new();
    let active = active_coordinator();
    assert_eq!(idle.command(Trigger::HookDown), Command::Start);
    assert_eq!(active.command(Trigger::HookDown), Command::Start);
    assert_eq!(idle.command(Trigger::HookUp), Command::Stop);
    assert_eq!(active.command(Trigger::HookUp), Command::Stop);
}

#[test]
fn two_sources_open_one_capture() {
    let mut coordinator = TriggerCoordinator::new();
    let status = client("active");
    let mut opened = 0;
    for trigger in [Trigger::HookDown, Trigger::HotkeyPress, Trigger::HookDown, Trigger::HookUp, Trigger::HookUp] {
        match coordinator.command(trigger) {
            Command::Start => {
                if coordinator.start_recording(Some(&status)) == Ok(StartDecision::OpenCapture) {
                    opened += 1;
                    coordinator.capture_started();
                }
            }
            Command::Stop => {
                if let Ok(StopDecision::CloseCapture { .. }) = coordinator.stop_recording(Some(&status)) {
                    opened -= 1;
                }
            }
        }
        assert!(opened == 0 || opened == 1);
        assert_eq!(opened == 1, coordinator.state() == PttState::Active);
    }
    assert_eq!(coordinator.state(), PttState::Idle);
}

#[test]
fn the_word_default_selects_no_device() {
    assert_eq!(selected_device("Default".to_string()), None);
    assert_eq!(selected_device("default".to_string()), Some("default".to_string()));
    assert_eq!(selected_device("USB Microphone".to_string()), Some("USB Microphone".to_string()));
    assert_eq!(selected_device(String::new()), Some(String::new()));
}
