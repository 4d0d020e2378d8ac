use app_controller::backend::error::{ApiFailure, NOT_FOUND_CODE};
use app_controller::backend::mock::MockBackend;
use app_controller::backend::{choose_backend, BackendError, BackendKind, NullBackend};
use app_controller::types::{AppConfig, AppStatus, InteractionModel};

fn config(name: &str, images: &[&str], autostart: bool) -> AppConfig {
    AppConfig {
        name: name.to_string(),
        interaction_model: InteractionModel::X11,
        images: images.iter().map(|s| s.to_string()).collect(),
        containers: vec![],
        always_pull_images: false,
        enable_docker: false,
        autostart,
    }
}

#[test]
fn error_messages_match_their_display_text() {
    assert_eq!(BackendError::NotFound.message(), "The app could not be found.");
    assert_eq!(
        BackendError::InternalError("boom".to_string()).message(),
        "An internal error occurred: boom"
    );
    match BackendError::internal("x") {
        BackendError::InternalError(m) => assert_eq!(m, "x"),
        _ => panic!("expected an internal error"),
    }
}

#[test]
fn api_failures_map_to_backend_errors() {
    let not_found = BackendError::from(ApiFailure { code: Some(NOT_FOUND_CODE), message: "gone".to_string() });
    assert!(matches!(not_found, BackendError::NotFound));
    let conflict = BackendError::from(ApiFailure { code: Some(409), message: "conflict".to_string() });
    match conflict {
        BackendError::InternalError(m) => assert_eq!(m, "conflict"),
        _ => panic!("expected an internal error"),
    }
    let transport = BackendError::from(ApiFailure { code: None, message: "refused".to_string() });
    match transport {
        BackendError::InternalError(m) => assert_eq!(m, "refused"),
        _ => panic!("expected an internal error"),
    }
}

#[test]
fn backend_is_chosen_by_name() {
    assert_eq!(choose_backend(None), Some(BackendKind::Kubernetes));
    assert_eq!(choose_backend(Some("kubernetes")), Some(BackendKind::Kubernetes));
    assert_eq!(choose_backend(Some("docker")), Some(BackendKind::Docker));
    assert_eq!(choose_backend(Some("null")), Some(BackendKind::Null));
    assert_eq!(choose_backend(Some("Docker")), None);
    assert_eq!(choose_backend(Some("")), None);
}

#[test]
fn null_backend_gives_fixed_answers() {
    let b = NullBackend;
    let app = b.create_app(config("n", &["alpine"], false)).unwrap();
    assert_eq!(app.id, 0);
    assert_eq!(app.config.name, "n");
    assert_eq!(b.start_app(3).unwrap(), AppStatus::Ready);
    assert_eq!(b.stop_app(3).unwrap(), AppStatus::Stopped);
    assert!(b.delete_app(3).is_ok());
    let got = b.get_app(12).unwrap();
    assert_eq!(got.id, 12);
    assert_eq!(got.config.name, "");
    assert!(got.config.containers.is_empty());
    assert!(b.get_all_apps().unwrap().is_empty());
    assert_eq!(b.get_app_addr(1).unwrap(), ("127.0.0.1".to_string(), 8080));
    assert_eq!(b.get_app_output(7, 2).unwrap(), "Output for app 7 container 2");
    assert_eq!(b.get_app_status(1).unwrap(), AppStatus::NotReady);
}

#[test]
fn mock_backend_hands_out_consecutive_ids() {
    let mut b = MockBackend::new();
    let first = b.create_app(config("one", &["alpine"], false)).unwrap();
    let second = b.create_app(config("two", &["busybox"], true)).unwrap();
    assert_eq!(first.id, 0);
    assert_eq!(second.id, 1);
    assert_eq!(b.get_app_status(0).unwrap(), AppStatus::Stopped);
    assert_eq!(b.get_app_status(1).unwrap(), AppStatus::Running);
    assert_eq!(b.get_app(1).unwrap().config.name, "two");
    let all = b.get_all_apps().unwrap();
    assert_eq!(all.len(), 2);
    let mut ids: Vec<u64> = all.iter().map(|a| a.id).collect();
    ids.sort();
    assert_eq!(ids, vec![0, 1]);
}

#[test]
fn mock_backend_read_after_delete_is_not_found() {
    let mut b = MockBackend::new();
    let app = b.create_app(config("gone", &["alpine"], false)).unwrap();
    assert!(b.delete_app(app.id).is_ok());
    assert!(matches!(b.get_app(app.id), Err(BackendError::NotFound)));
    assert!(matches!(b.get_app_status(app.id), Err(BackendError::NotFound)));
    assert!(matches!(b.delete_app(app.id), Err(BackendError::NotFound)));
    assert!(b.get_all_apps().unwrap().is_empty());
}

#[test]
fn mock_backend_start_and_stop() {
    let mut b = MockBackend::new();
    let app = b.create_app(config("s", &["alpine"], false)).unwrap();
    assert_eq!(b.start_app(app.id).unwrap(), AppStatus::Running);
    assert_eq!(b.get_app_status(app.id).unwrap(), AppStatus::Running);
    assert_eq!(b.stop_app(app.id).unwrap(), AppStatus::Stopped);
    assert_eq!(b.get_app_status(app.id).unwrap(), AppStatus::Stopped);
    assert!(matches!(b.start_app(999999), Err(BackendError::NotFound)));
    assert!(matches!(b.stop_app(999999), Err(BackendError::NotFound)));
}

#[test]
fn mock_backend_output_names_the_image() {
    let mut b = MockBackend::new();
    let app = b.create_app(config("o", &["alpine:latest", "nginx"], false)).unwrap();
    assert_eq!(b.get_app_output(app.id, 1).unwrap(), "Mock output for container 1 (nginx)");
    assert!(matches!(b.get_app_output(app.id, 2), Err(BackendError::NotFound)));
    assert!(matches!(b.get_app_output(99, 0), Err(BackendError::NotFound)));
}

#[test]
fn utf8_errors_are_internal_errors() {
    let err = String::from_utf8(vec![0x61, 0xff]).unwrap_err();
    match BackendError::from(err) {
        BackendError::InternalError(m) => assert_eq!(m, "invalid utf-8 sequence of 1 bytes from index 1"),
        _ => panic!("expected an internal error"),
    }
}
