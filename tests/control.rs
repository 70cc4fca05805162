use immich_uploader::control::{due_passes, Config, ControlError, PathConfig, RunController, TickDecision};
use immich_uploader::cron::Instant;

fn config() -> Config {
    Config {
        server_url: "http://media.local/".to_string(),
        api_key: "SECRET-REDACTED".to_string(),
        paths: vec![
            PathConfig {
                directory: "/photos".to_string(),
                cron_expressions: vec!["0 3 * * 0".to_string(), "*/15 * * * *".to_string()],
                recursive: true,
            },
            PathConfig {
                directory: "/scans".to_string(),
                cron_expressions: vec!["0 * * * *".to_string(), "bad".to_string()],
                recursive: false,
            },
        ],
    }
}

#[test]
fn start_without_config_fails() {
    let mut c = RunController::new();
    assert_eq!(c.start(), Err(ControlError::NoConfig));
    assert!(!c.is_running());
}

#[test]
fn start_twice_fails_stop_twice_succeeds() {
    let mut c = RunController::new();
    c.set_config(config());
    assert_eq!(c.start(), Ok(()));
    assert!(c.is_running());
    assert_eq!(c.start(), Err(ControlError::AlreadyRunning));
    assert!(c.is_running());
    c.stop();
    assert!(!c.is_running());
    c.stop();
    assert!(!c.is_running());
    assert_eq!(c.start(), Ok(()));
}

#[test]
fn tick_stops_after_stop() {
    let mut c = RunController::new();
    c.set_config(config());
    c.start().unwrap();
    assert_eq!(c.tick(), TickDecision::Run);
    c.stop();
    assert_eq!(c.tick(), TickDecision::Stop);
}

#[test]
fn manual_trigger_needs_config() {
    let mut c = RunController::new();
    assert!(matches!(c.manual_trigger("/tmp".to_string(), true), Err(ControlError::NoConfig)));
    c.set_config(config());
    let p = c.manual_trigger("/tmp".to_string(), true).unwrap();
    assert_eq!(p.directory, "/tmp");
    assert!(p.recursive);
    assert!(p.cron_expressions.is_empty());
    assert!(c.config().is_some());
}

#[test]
fn error_messages() {
    assert_eq!(ControlError::NoConfig.message(), "No configuration loaded");
    assert_eq!(ControlError::AlreadyRunning.message(), "Scheduler already running");
}

#[test]
fn due_passes_follow_matching_expressions() {
    let cfg = config();
    // Sunday 03:00: both expressions of the first path, the first of the second
    let t = Instant { minute: 0, hour: 3, day: 5, month: 1, weekday: 0 };
    assert_eq!(due_passes(&cfg, &t), vec![0, 0, 1]);
    // Monday 03:00: the step expression and the hourly one
    let t = Instant { minute: 0, hour: 3, day: 6, month: 1, weekday: 1 };
    assert_eq!(due_passes(&cfg, &t), vec![0, 1]);
    let t = Instant { minute: 7, hour: 3, day: 6, month: 1, weekday: 1 };
    assert_eq!(due_passes(&cfg, &t), Vec::<usize>::new());
}
