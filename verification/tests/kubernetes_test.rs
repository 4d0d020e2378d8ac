use app_controller::backend::kubernetes::{
    app_for_deployment, app_selector, apps_from_deployments, container_output, create_annotations,
    create_labels, extract_package, first_or_not_found, make_app_for_deployment, named, plan_app,
    scale_request, service_address, status_from_replicas, DeploymentInfo, PodInfo,
    APP_ADDR_PORT, RUNNING_REPLICAS, STOPPED_REPLICAS,
};
use app_controller::backend::BackendError;
use app_controller::labels::LabelMap;
use app_controller::types::{
    AppConfig, AppStatus, ContainerConfig, ImagePullPolicy, InteractionModel,
};

fn advanced_config() -> AppConfig {
    AppConfig {
        name: "demo".to_string(),
        interaction_model: InteractionModel::X11,
        images: vec![],
        containers: vec![
            ContainerConfig {
                image: "ghcr.io/acme/Firefox-Demo:latest".to_string(),
                config: Some("homepage=about:blank".to_string()),
                image_pull_policy: Some(ImagePullPolicy::Always),
                tty: true,
            },
            ContainerConfig {
                image: "busybox".to_string(),
                config: None,
                image_pull_policy: None,
                tty: false,
            },
        ],
        always_pull_images: true,
        enable_docker: true,
        autostart: true,
    }
}

fn labels(pairs: &[(&str, &str)]) -> LabelMap {
    let mut m = LabelMap::new();
    for (k, v) in pairs {
        m.insert_str(k, v);
    }
    m
}

#[test]
fn extract_package_takes_last_segment_without_tag() {
    assert_eq!(extract_package("ghcr.io/acme/Firefox-Demo:latest"), Some("firefoxdemo".to_string()));
    assert_eq!(extract_package("alpine"), Some("alpine".to_string()));
    assert_eq!(extract_package("library/nginx:1.25"), Some("nginx".to_string()));
    assert_eq!(extract_package(""), Some("".to_string()));
    assert_eq!(extract_package("repo/"), Some("".to_string()));
    assert_eq!(extract_package("a_b.c/Déjà-vu"), Some("déjàvu".to_string()));
}

#[test]
fn labels_carry_the_decimal_id() {
    let m = create_labels(3735928559);
    assert_eq!(m.get("app-controller-id"), Some(&"3735928559".to_string()));
    assert_eq!(m.size_exec(), 1);
}

#[test]
fn annotations_describe_the_app() {
    let m = create_annotations(&advanced_config());
    assert_eq!(m.get("app-controller-name"), Some(&"demo".to_string()));
    assert_eq!(m.get("app-controller-interaction-model"), Some(&"X11".to_string()));
    assert_eq!(m.get("app-controller-always-pull-images"), Some(&"true".to_string()));
    assert_eq!(
        m.get("app-controller-container-0-image"),
        Some(&"ghcr.io/acme/Firefox-Demo:latest".to_string())
    );
    assert_eq!(
        m.get("app-controller-container-0-config"),
        Some(&"homepage=about:blank".to_string())
    );
    assert_eq!(m.get("app-controller-container-1-image"), Some(&"busybox".to_string()));
    assert_eq!(m.get("app-controller-container-1-config"), None);
    assert_eq!(m.get("app-controller-container-0-always-pull"), Some(&"true".to_string()));
    assert_eq!(m.get("app-controller-container-1-always-pull"), Some(&"false".to_string()));
}

#[test]
fn plan_names_resources_after_the_app_and_id() {
    let plan = plan_app(advanced_config(), 0x00ab12cd);
    assert_eq!(plan.id, 0x00ab12cd);
    assert_eq!(plan.name, "demo-00ab12cd");
    assert_eq!(plan.labels.get("app-controller-id"), Some(&"11211469".to_string()));
    assert_eq!(plan.app.id, 0x00ab12cd);
    assert_eq!(plan.app.config.name, "demo");
    assert_eq!(plan.app.config.containers.len(), 2);
    assert!(plan.app.config.enable_docker);
    assert!(plan.app.config.autostart);

    assert_eq!(plan.config_maps.len(), 1);
    assert_eq!(plan.config_maps[0].name, "demo-00ab12cd-container-0-config");
    assert_eq!(plan.config_maps[0].data, "homepage=about:blank");
    assert_eq!(plan.config_maps[0].volume_name, "container-0-config");

    assert_eq!(plan.volumes.len(), 2);
    assert_eq!(plan.volumes[0].name, "container-0-config");
    assert_eq!(plan.volumes[0].config_map, Some("demo-00ab12cd-container-0-config".to_string()));
    assert_eq!(plan.volumes[1].name, "container-outputs");
    assert_eq!(plan.volumes[1].config_map, None);
}

#[test]
fn plan_containers_get_environment_and_mounts() {
    let plan = plan_app(advanced_config(), 7);
    assert_eq!(plan.containers.len(), 2);
    let first = &plan.containers[0];
    assert_eq!(first.name, "firefoxdemo-0");
    assert_eq!(first.image, "ghcr.io/acme/Firefox-Demo:latest");
    assert_eq!(first.image_pull_policy, "Always");
    assert_eq!(
        first.env,
        vec![
            ("DISPLAY".to_string(), ":0.0".to_string()),
            ("AC_CONTAINER_CONFIG".to_string(), "/etc/app-controller/config/config".to_string()),
            ("AC_CONTAINER_OUTPUT".to_string(), "/outputs/container-0.log".to_string()),
        ]
    );
    assert_eq!(
        first.volume_mounts,
        vec![
            ("container-0-config".to_string(), "/etc/app-controller/config".to_string()),
            ("container-outputs".to_string(), "/outputs".to_string()),
        ]
    );
    let second = &plan.containers[1];
    assert_eq!(second.name, "busybox-1");
    assert_eq!(
        second.env,
        vec![
            ("DISPLAY".to_string(), ":0.0".to_string()),
            ("AC_CONTAINER_OUTPUT".to_string(), "/outputs/container-1.log".to_string()),
        ]
    );
    assert_eq!(
        second.volume_mounts,
        vec![("container-outputs".to_string(), "/outputs".to_string())]
    );
}

#[test]
fn plan_pull_policy_follows_always_pull_images() {
    let mut config = advanced_config();
    config.always_pull_images = false;
    let plan = plan_app(config, 1);
    // The container's own policy takes precedence over the app's setting.
    assert_eq!(plan.containers[0].image_pull_policy, "Always");
    assert_eq!(plan.containers[1].image_pull_policy, "IfNotPresent");
    let mut config = advanced_config();
    config.containers[0].image_pull_policy = Some(ImagePullPolicy::Never);
    let plan = plan_app(config, 1);
    assert_eq!(plan.containers[0].image_pull_policy, "Never");
    assert_eq!(plan.containers[1].image_pull_policy, "Always");
}

#[test]
fn plan_deployment_replicas_init_container_and_ports() {
    let plan = plan_app(advanced_config(), 3);
    assert_eq!(plan.replicas, RUNNING_REPLICAS);
    let mut stopped = advanced_config();
    stopped.autostart = false;
    assert_eq!(plan_app(stopped, 3).replicas, STOPPED_REPLICAS);
    assert_eq!(plan.x11_host.name, "x11-host");
    assert_eq!(plan.x11_host.image, "ghcr.io/twizmwazin/app-controller/x11-host");
    assert_eq!(plan.x11_host.ports, vec![5910, 5911]);
    assert_eq!(plan.x11_host.restart_policy, "Always");
    assert!(plan.x11_host.privileged);
    let ports: Vec<(String, String, i32)> = plan
        .service_ports
        .iter()
        .map(|p| (p.name.clone(), p.protocol.clone(), p.port))
        .collect();
    assert_eq!(
        ports,
        vec![
            ("vnc".to_string(), "TCP".to_string(), 5910),
            ("vnc-websocket".to_string(), "TCP".to_string(), 5911)
        ]
    );
}

#[test]
fn package_of_a_package_is_itself() {
    for image in ["ghcr.io/acme/Firefox-Demo:latest", "a_b.c/Déjà-vu", "x:y/z", ""] {
        let p = extract_package(image).unwrap();
        assert_eq!(extract_package(&p), Some(p.clone()));
    }
}

#[test]
fn deployment_roundtrip_keeps_stored_config() {
    let plan = plan_app(advanced_config(), 42);
    let app = make_app_for_deployment(
        Some(plan.name.clone()),
        Some(plan.labels.clone()),
        Some(plan.annotations.clone()),
    )
    .unwrap();
    assert_eq!(app.id, 42);
    assert_eq!(app.config.name, "demo");
    assert_eq!(app.config.interaction_model, InteractionModel::X11);
    assert!(app.config.images.is_empty());
    assert!(app.config.always_pull_images);
    assert!(!app.config.enable_docker);
    assert!(!app.config.autostart);
    let c = &app.config.containers;
    assert_eq!(c.len(), 2);
    assert_eq!(c[0].image, "ghcr.io/acme/Firefox-Demo:latest");
    assert_eq!(c[0].config, Some("homepage=about:blank".to_string()));
    assert_eq!(c[0].image_pull_policy, Some(ImagePullPolicy::Always));
    assert!(!c[0].tty);
    assert_eq!(c[1].image, "busybox");
    assert_eq!(c[1].config, None);
    assert_eq!(c[1].image_pull_policy, None);
    assert!(!c[1].tty);
}

#[test]
fn deployment_errors_name_what_is_missing() {
    let id = labels(&[("app-controller-id", "5")]);
    let good = labels(&[
        ("app-controller-name", "n"),
        ("app-controller-interaction-model", "X11"),
    ]);
    let msg = |r: Result<_, BackendError>| match r {
        Err(BackendError::InternalError(m)) => m,
        other => panic!("unexpected {:?}", other),
    };
    assert_eq!(
        msg(make_app_for_deployment(Some("d".to_string()), None, Some(good.clone()))),
        "Deployment d missing labels"
    );
    assert_eq!(
        msg(make_app_for_deployment(None, Some(LabelMap::new()), Some(good.clone()))),
        "Deployment unknown missing app-controller-id"
    );
    assert_eq!(
        msg(make_app_for_deployment(
            Some("d".to_string()),
            Some(labels(&[("app-controller-id", "4294967296")])),
            Some(good.clone())
        )),
        "Invalid app-controller-id label for deployment d"
    );
    assert_eq!(
        msg(make_app_for_deployment(Some("d".to_string()), Some(id.clone()), None)),
        "Deployment d missing annotations"
    );
    assert_eq!(
        msg(make_app_for_deployment(
            Some("d".to_string()),
            Some(id.clone()),
            Some(labels(&[("app-controller-interaction-model", "X11")]))
        )),
        "Missing app-controller-name annotation for deployment d"
    );
    assert_eq!(
        msg(make_app_for_deployment(
            Some("d".to_string()),
            Some(id.clone()),
            Some(labels(&[("app-controller-name", "n")]))
        )),
        "Missing app-controller-interaction-model annotation for deployment d"
    );
    assert_eq!(
        msg(make_app_for_deployment(
            Some("d".to_string()),
            Some(id.clone()),
            Some(labels(&[
                ("app-controller-name", "n"),
                ("app-controller-interaction-model", "Wayland")
            ]))
        )),
        "failed to parse \"InteractionModel\": Expect a valid enumeration value."
    );
    let app = make_app_for_deployment(Some("d".to_string()), Some(id), Some(good)).unwrap();
    assert_eq!(app.id, 5);
    assert!(!app.config.always_pull_images);
    assert!(app.config.containers.is_empty());
}

#[test]
fn apps_from_deployments_stops_at_first_error() {
    let ok = |n: &str, id: &str| DeploymentInfo {
        name: Some(n.to_string()),
        labels: Some(labels(&[("app-controller-id", id)])),
        annotations: Some(labels(&[
            ("app-controller-name", n),
            ("app-controller-interaction-model", "X11"),
        ])),
    };
    let apps = apps_from_deployments(&vec![ok("a", "1"), ok("b", "2")]).unwrap();
    assert_eq!(apps.len(), 2);
    assert_eq!(apps[0].id, 1);
    assert_eq!(apps[1].config.name, "b");
    let bad = DeploymentInfo { name: Some("x".to_string()), labels: None, annotations: None };
    match apps_from_deployments(&vec![ok("a", "1"), bad, ok("b", "2")]) {
        Err(BackendError::InternalError(m)) => assert_eq!(m, "Deployment x missing labels"),
        _ => panic!("expected an internal error"),
    }
    let single = app_for_deployment(&ok("c", "9")).unwrap();
    assert_eq!(single.id, 9);
}

#[test]
fn selector_and_scaling() {
    assert_eq!(app_selector(17), "app-controller-id=17");
    let (name, replicas, status) = scale_request(Some("dep".to_string()), true).unwrap();
    assert_eq!((name.as_str(), replicas, status), ("dep", RUNNING_REPLICAS, AppStatus::Running));
    let (_, replicas, status) = scale_request(Some("dep".to_string()), false).unwrap();
    assert_eq!((replicas, status), (STOPPED_REPLICAS, AppStatus::Stopped));
    assert!(matches!(scale_request(None, true), Err(BackendError::NotFound)));
}

#[test]
fn status_follows_replicas() {
    assert_eq!(status_from_replicas(Some(1)), AppStatus::Running);
    assert_eq!(status_from_replicas(Some(3)), AppStatus::Running);
    assert_eq!(status_from_replicas(Some(0)), AppStatus::Stopped);
    assert_eq!(status_from_replicas(None), AppStatus::Stopped);
}

#[test]
fn address_comes_from_cluster_ip() {
    assert_eq!(
        service_address(Some(Some("10.0.0.7".to_string()))).unwrap(),
        ("10.0.0.7".to_string(), APP_ADDR_PORT)
    );
    assert_eq!(APP_ADDR_PORT, 5911);
    match service_address(Some(None)) {
        Err(BackendError::InternalError(m)) => assert_eq!(m, "Missing cluster IP in service"),
        _ => panic!("expected an internal error"),
    }
    match service_address(None) {
        Err(BackendError::InternalError(m)) => assert_eq!(m, "Missing spec in service"),
        _ => panic!("expected an internal error"),
    }
}

#[test]
fn first_item_or_not_found() {
    assert_eq!(first_or_not_found(vec![3, 4]).unwrap(), 3);
    assert!(matches!(first_or_not_found::<u8>(vec![]), Err(BackendError::NotFound)));
}

#[test]
fn output_of_pod_containers() {
    let pod = PodInfo {
        name: Some("pod-1".to_string()),
        container_names: Some(vec!["firefox-0".to_string(), "x11-host".to_string()]),
    };
    let pods = vec![pod];
    assert_eq!(container_output(&pods, 0).unwrap(), "Output for container 0 (firefox-0)");
    assert!(matches!(container_output(&pods, 1), Err(BackendError::NotFound)));
    assert!(matches!(container_output(&pods, 2), Err(BackendError::NotFound)));
    assert!(matches!(container_output(&vec![], 0), Err(BackendError::NotFound)));
    let no_spec = vec![PodInfo { name: Some("p".to_string()), container_names: None }];
    match container_output(&no_spec, 0) {
        Err(BackendError::InternalError(m)) => assert_eq!(m, "Pod missing spec"),
        _ => panic!("expected an internal error"),
    }
    let no_name = vec![PodInfo { name: None, container_names: Some(vec!["a-0".to_string()]) }];
    match container_output(&no_name, 0) {
        Err(BackendError::InternalError(m)) => assert_eq!(m, "Pod missing name"),
        _ => panic!("expected an internal error"),
    }
}

#[test]
fn named_keeps_present_names_in_order() {
    let names = vec![Some("a".to_string()), None, Some("c".to_string())];
    assert_eq!(named(&names), vec!["a".to_string(), "c".to_string()]);
}

#[test]
fn scaled_replicas_read_back_as_reported_status() {
    for start in [true, false] {
        let (_, replicas, status) = scale_request(Some("d".to_string()), start).unwrap();
        assert_eq!(status_from_replicas(Some(replicas)), status);
    }
}
