use app_controller::api::{
    check_create_request, create_app_response, delete_app_response, get_all_apps_response,
    get_app_addr_response, get_app_response, start_app_response, stop_app_response,
    CreateAppResponse, DeleteAppResponse, GetAllAppsResponse, GetAppAddrResponse, GetAppResponse,
    StartAppResponse, StopAppResponse, MAX_CONFIG_BYTES,
};
use app_controller::backend::BackendError;
use app_controller::types::{App, AppConfig, AppStatus, ContainerConfig, ImagePullPolicy, InteractionModel};

fn base(images: Vec<&str>, containers: Vec<ContainerConfig>) -> AppConfig {
    AppConfig {
        name: "api".to_string(),
        interaction_model: InteractionModel::X11,
        images: images.into_iter().map(|s| s.to_string()).collect(),
        containers,
        always_pull_images: true,
        enable_docker: true,
        autostart: false,
    }
}

fn container(image: &str, config: Option<String>) -> ContainerConfig {
    ContainerConfig { image: image.to_string(), config, image_pull_policy: Some(ImagePullPolicy::Never), tty: true }
}

fn internal_text(r: Result<AppConfig, CreateAppResponse>) -> String {
    match r {
        Err(CreateAppResponse::InternalError(m)) => m,
        _ => panic!("expected an internal error"),
    }
}

#[test]
fn images_become_containers() {
    let n = check_create_request(&base(vec!["alpine", "nginx:1"], vec![])).unwrap();
    assert!(n.images.is_empty());
    assert_eq!(n.containers.len(), 2);
    assert_eq!(n.containers[0].image, "alpine");
    assert_eq!(n.containers[0].config, None);
    assert_eq!(n.containers[0].image_pull_policy, Some(ImagePullPolicy::IfNotPresent));
    assert!(!n.containers[0].tty);
    assert_eq!(n.containers[1].image, "nginx:1");
    assert_eq!(n.name, "api");
    assert!(n.always_pull_images);
    assert!(n.enable_docker);
}

#[test]
fn containers_pass_unchanged() {
    let n = check_create_request(&base(vec![], vec![container("busybox", Some("x".to_string()))])).unwrap();
    assert!(n.images.is_empty());
    assert_eq!(n.containers.len(), 1);
    assert_eq!(n.containers[0].image, "busybox");
    assert_eq!(n.containers[0].config, Some("x".to_string()));
    assert_eq!(n.containers[0].image_pull_policy, Some(ImagePullPolicy::Never));
    assert!(n.containers[0].tty);
}

#[test]
fn both_or_neither_are_refused() {
    assert_eq!(
        internal_text(check_create_request(&base(vec!["alpine"], vec![container("busybox", None)]))),
        "Provide either 'images' or 'containers', not both"
    );
    assert_eq!(
        internal_text(check_create_request(&base(vec![], vec![]))),
        "At least one container must be specified"
    );
}

#[test]
fn config_size_limit_is_one_megabyte() {
    let at_limit = "a".repeat(MAX_CONFIG_BYTES);
    assert!(check_create_request(&base(vec![], vec![container("c", Some(at_limit))])).is_ok());
    let over = "a".repeat(MAX_CONFIG_BYTES + 1);
    assert!(matches!(
        check_create_request(&base(vec![], vec![container("c", Some(over))])),
        Err(CreateAppResponse::ConfigTooLarge)
    ));
    // The limit counts bytes: 524289 two-byte characters exceed it.
    let wide = "é".repeat(MAX_CONFIG_BYTES / 2 + 1);
    assert!(matches!(
        check_create_request(&base(vec![], vec![container("c", Some(wide))])),
        Err(CreateAppResponse::ConfigTooLarge)
    ));
    // Too large is reported before the images/containers conflict.
    let over = "a".repeat(MAX_CONFIG_BYTES + 1);
    assert!(matches!(
        check_create_request(&base(vec!["alpine"], vec![container("c", Some(over))])),
        Err(CreateAppResponse::ConfigTooLarge)
    ));
}

#[test]
fn create_responses() {
    let app = App { id: 4, config: base(vec!["alpine"], vec![]) };
    let ok = create_app_response(Ok(app));
    assert_eq!(ok.status_code(), 200);
    assert!(matches!(ok, CreateAppResponse::Success(a) if a.id == 4));
    let err = create_app_response(Err(BackendError::InternalError("disk".to_string())));
    assert_eq!(err.status_code(), 500);
    match err {
        CreateAppResponse::InternalError(m) => assert_eq!(m, "An internal error occurred: disk"),
        _ => panic!("expected an internal error"),
    }
    match create_app_response(Err(BackendError::NotFound)) {
        CreateAppResponse::InternalError(m) => assert_eq!(m, "The app could not be found."),
        _ => panic!("expected an internal error"),
    }
    assert_eq!(CreateAppResponse::ConfigTooLarge.status_code(), 413);
}

#[test]
fn start_and_stop_responses() {
    let r = start_app_response(Ok(AppStatus::Running));
    assert_eq!(r.status_code(), 200);
    assert!(matches!(r, StartAppResponse::Success(AppStatus::Running)));
    let r = start_app_response(Err(BackendError::NotFound));
    assert_eq!(r.status_code(), 404);
    match start_app_response(Err(BackendError::InternalError("x".to_string()))) {
        StartAppResponse::InternalError(m) => assert_eq!(m, "x"),
        _ => panic!("expected an internal error"),
    }
    let r = stop_app_response(Ok(AppStatus::Stopped));
    assert_eq!(r.status_code(), 200);
    assert_eq!(stop_app_response(Err(BackendError::NotFound)).status_code(), 404);
    let r = stop_app_response(Err(BackendError::InternalError("y".to_string())));
    assert_eq!(r.status_code(), 500);
    assert!(matches!(r, StopAppResponse::InternalError(m) if m == "y"));
}

#[test]
fn delete_and_get_responses() {
    assert_eq!(delete_app_response(Ok(())).status_code(), 204);
    assert!(matches!(delete_app_response(Err(BackendError::NotFound)), DeleteAppResponse::NotFound));
    assert_eq!(delete_app_response(Err(BackendError::InternalError("z".to_string()))).status_code(), 500);
    let app = App { id: 8, config: base(vec!["alpine"], vec![]) };
    let r = get_app_response(Ok(app));
    assert_eq!(r.status_code(), 200);
    assert!(matches!(r, GetAppResponse::Success(a) if a.id == 8));
    assert_eq!(get_app_response(Err(BackendError::NotFound)).status_code(), 404);
    assert!(matches!(
        get_app_response(Err(BackendError::InternalError("q".to_string()))),
        GetAppResponse::InternalError(m) if m == "q"
    ));
}

#[test]
fn list_and_address_responses() {
    let r = get_all_apps_response(Ok(vec![]));
    assert_eq!(r.status_code(), 200);
    match get_all_apps_response(Err(BackendError::NotFound)) {
        GetAllAppsResponse::InternalError(m) => assert_eq!(m, "The app could not be found."),
        _ => panic!("expected an internal error"),
    }
    let r = get_app_addr_response(Ok(("10.1.2.3".to_string(), 5911)));
    assert_eq!(r.status_code(), 200);
    match r {
        GetAppAddrResponse::Success(a) => {
            assert_eq!(a.ip, "10.1.2.3");
            assert_eq!(a.port, 5911);
        }
        _ => panic!("expected an address"),
    }
    assert_eq!(get_app_addr_response(Err(BackendError::NotFound)).status_code(), 404);
    let r = get_app_addr_response(Err(BackendError::InternalError("n".to_string())));
    assert_eq!(r.status_code(), 500);
    assert!(matches!(r, GetAppAddrResponse::InternalError));
}
