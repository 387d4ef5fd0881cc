use neutron_components_app::commands::CommandId;
use neutron_components_app::error::{AppClosed, RuntimeError, RuntimeOperation};
use neutron_components_app::handles::Readiness;
use neutron_components_app::lifecycle::{
    AppEvent, EventQueue, LaunchRequest, OpenRequest, ReentrantQueue, ShutdownReason,
};
use neutron_components_app::liveness::{should_exit, ExitPolicy, InitialActivation, Liveness};
use neutron_components_app::phases::{Phase, PhaseTracker, STARTUP_PHASES};

fn open(url: &str) -> AppEvent {
    AppEvent::OpenRequested(OpenRequest { urls: vec![url.to_string()] })
}

#[test]
fn runtime_error_preserves_operation_context_and_source() {
    let error = RuntimeError::command(CommandId::new("app.settings"), anyhow::Error::msg("settings failed"));
    assert_eq!(error.operation(), RuntimeOperation::Command);
    assert_eq!(error.command_id(), Some(CommandId::new("app.settings")));
    assert!(error.event().is_none());
    assert_eq!(error.source_error().to_string(), "settings failed");
}

#[test]
fn module_error_preserves_module_context_and_source() {
    let error = RuntimeError::module("theme_watcher", anyhow::Error::msg("watch failed"));
    assert_eq!(error.operation(), RuntimeOperation::Module);
    assert_eq!(error.module_id(), Some("theme_watcher"));
    assert_eq!(error.command_id(), None);
    assert!(error.event().is_none());
    assert_eq!(error.source_error().to_string(), "watch failed");
    assert_eq!(error.to_text(), "module `theme_watcher` failed: watch failed");
}

#[test]
fn lifecycle_error_preserves_the_typed_event_and_stable_display_name() {
    let error = RuntimeError::lifecycle(
        AppEvent::Started(LaunchRequest::default()),
        anyhow::Error::msg("plugin failed"),
    );
    assert_eq!(error.operation(), RuntimeOperation::Lifecycle);
    assert!(matches!(error.event(), Some(AppEvent::Started(_))));
    assert_eq!(error.command_id(), None);
    assert_eq!(error.to_text(), "lifecycle operation `started` failed: plugin failed");
}

#[test]
fn shutdown_error_preserves_operation_and_distinct_display() {
    let error = RuntimeError::shutdown(anyhow::Error::msg("flush failed"));
    assert_eq!(error.operation(), RuntimeOperation::Shutdown);
    assert_eq!(error.module_id(), None);
    assert_eq!(error.command_id(), None);
    assert!(error.event().is_none());
    assert_eq!(error.to_text(), "shutdown operation failed: flush failed");
}

#[test]
fn command_error_names_its_command_and_closed_app_has_a_message() {
    let error = RuntimeError::command(CommandId::new("app.quit"), anyhow::Error::msg("boom"));
    assert_eq!(error.to_text(), "command `app.quit` failed: boom");
    assert!(!AppClosed.to_text().is_empty());
}

#[test]
fn starting_latches_only_first_quit_reason() {
    let mut readiness = Readiness::Starting { deferred_quit: None };
    assert!(readiness.defer_quit(ShutdownReason::Requested));
    assert!(readiness.defer_quit(ShutdownReason::LastWindowClosed));
    assert_eq!(readiness.finish_start(), Some(ShutdownReason::Requested));
    assert!(matches!(readiness, Readiness::Ready));
}

#[test]
fn ready_and_failed_do_not_defer_quit() {
    let mut ready = Readiness::Ready;
    assert!(!ready.defer_quit(ShutdownReason::Requested));
    let mut failed = Readiness::Failed;
    assert!(!failed.defer_quit(ShutdownReason::Requested));
}

#[test]
fn buffers_until_ready_then_drains_fifo() {
    let mut q = EventQueue::new();
    assert!(q.push(open("a")).is_none());
    assert!(q.push(open("b")).is_none());
    assert_eq!(q.len(), 2);
    assert!(!q.is_ready());

    q.mark_ready();
    let drained = q.drain();
    assert_eq!(drained.len(), 2);
    match (&drained[0], &drained[1]) {
        (AppEvent::OpenRequested(a), AppEvent::OpenRequested(b)) => {
            assert_eq!(a.urls, vec!["a".to_string()]);
            assert_eq!(b.urls, vec!["b".to_string()]);
        }
        _ => panic!("unexpected drained events"),
    }
    assert!(q.is_empty());
}

#[test]
fn push_after_ready_signals_immediate_delivery() {
    let mut q = EventQueue::new();
    q.mark_ready();
    assert!(
        matches!(q.push(open("late")), Some(AppEvent::OpenRequested(_))),
        "post-ready push must hand the event back for delivery"
    );
    assert!(q.is_empty(), "post-ready push must not buffer");
}

#[test]
fn reentrant_queue_defers_nested_events_and_preserves_order() {
    let mut q = ReentrantQueue::new();
    assert!(q.try_enter(&AppEvent::Started(LaunchRequest::default())));
    assert!(q.is_delivering());
    assert!(!q.try_enter(&AppEvent::Reopened));
    assert!(!q.try_enter(&open("nested")));
    assert!(matches!(q.take_next(), Some(AppEvent::Reopened)));
    assert!(matches!(q.take_next(), Some(AppEvent::OpenRequested(_))));
    assert!(q.take_next().is_none());
    assert!(!q.is_delivering());
    assert!(q.try_enter(&AppEvent::Reopened));
}

#[test]
fn early_reopen_is_buffered_until_ready() {
    let mut q = EventQueue::new();
    assert!(q.push(AppEvent::Reopened).is_none());
    q.mark_ready();
    let drained = q.drain();
    assert!(matches!(drained.as_slice(), [AppEvent::Reopened]));
}

#[test]
fn event_names_are_stable() {
    assert_eq!(AppEvent::Started(LaunchRequest::default()).name(), "started");
    assert_eq!(AppEvent::Reopened.name(), "reopened");
    assert_eq!(open("x").name(), "open_requested");
    assert_eq!(AppEvent::LastWindowClosed.name(), "last_window_closed");
    assert_eq!(AppEvent::ShutdownRequested(ShutdownReason::Requested).name(), "shutdown_requested");
    assert_eq!(AppEvent::WillExit.name(), "will_exit");
}

#[test]
fn when_idle_exits_only_with_no_windows_and_no_holds() {
    assert!(should_exit(ExitPolicy::WhenIdle, 0, 0));
    assert!(!should_exit(ExitPolicy::WhenIdle, 1, 0));
    assert!(!should_exit(ExitPolicy::WhenIdle, 0, 1));
    assert!(!should_exit(ExitPolicy::WhenIdle, 2, 3));
}

#[test]
fn explicit_never_auto_exits() {
    assert!(!should_exit(ExitPolicy::Explicit, 0, 0));
    assert!(!should_exit(ExitPolicy::Explicit, 5, 5));
}

#[test]
fn startup_idle_whenidle_app_is_eligible_to_exit() {
    assert!(should_exit(ExitPolicy::WhenIdle, 0, 0));
    assert!(!should_exit(ExitPolicy::WhenIdle, 0, 1));
    assert!(!should_exit(ExitPolicy::WhenIdle, 1, 0));
    assert!(!should_exit(ExitPolicy::Explicit, 0, 0));
}

#[test]
fn liveness_records_policies_and_activation_once() {
    let mut liveness = Liveness::new(ExitPolicy::Explicit, InitialActivation::Passive);
    assert_eq!(liveness.exit_policy(), ExitPolicy::Explicit);
    assert_eq!(liveness.initial_activation(), InitialActivation::Passive);
    assert!(!liveness.activated());
    liveness.mark_activated();
    assert!(liveness.activated());
    assert_eq!(liveness.hold_count(), 0);
    assert_eq!(ExitPolicy::default(), ExitPolicy::WhenIdle);
    assert_eq!(InitialActivation::default(), InitialActivation::Regular);
}

#[test]
fn startup_phases_are_strictly_increasing() {
    for pair in STARTUP_PHASES().windows(2) {
        assert!(pair[0] < pair[1], "not ordered: {:?}", pair);
    }
}

#[test]
fn shutdown_is_reverse_of_completed() {
    let mut t = PhaseTracker::new();
    t.complete(Phase::Preflight);
    t.complete(Phase::ConfigureApp);
    t.complete(Phase::EarlyListeners);
    assert_eq!(t.shutdown_order(), vec![Phase::EarlyListeners, Phase::ConfigureApp, Phase::Preflight]);
}

#[test]
fn partial_startup_only_unwinds_reached_phases() {
    let mut t = PhaseTracker::new();
    t.complete(Phase::Preflight);
    t.complete(Phase::ConfigureApp);
    assert!(!t.is_complete(Phase::CoreServices));
    assert_eq!(t.shutdown_order(), vec![Phase::ConfigureApp, Phase::Preflight]);
    assert_eq!(t.last(), Some(Phase::ConfigureApp));
}

#[test]
fn full_startup_unwinds_everything() {
    let mut t = PhaseTracker::new();
    for phase in STARTUP_PHASES() {
        t.complete(phase);
    }
    let order = t.shutdown_order();
    assert_eq!(order.len(), STARTUP_PHASES().len());
    assert_eq!(order.first().copied(), Some(Phase::Activation));
    assert_eq!(order.last().copied(), Some(Phase::Preflight));
}
