use app_controller::backend::docker::{
    address_from_networks, app_container_filters, app_from_containers, app_status,
    apps_from_containers, categorize_containers, collect_output, container_ids,
    create_app_filters, create_app_labels, create_base_labels, make_app_config_from_labels,
    first_container_id, plan_app, pull_before_create, pull_rule_for, pulls, require_containers,
    start_order, status_after_start, status_after_stop, x11_host_filters, ContainerInfo,
    ContainerPlan, DockerAppPlan, LogChunk, PullRule, VNC_WS_PORT,
};
use app_controller::backend::BackendError;
use app_controller::labels::LabelMap;
use app_controller::types::{
    AppConfig, AppStatus, ContainerConfig, ContainerSpec, ImagePullPolicy, InteractionModel,
};

fn simple_config(name: &str, image: &str) -> AppConfig {
    AppConfig {
        name: name.to_string(),
        interaction_model: InteractionModel::X11,
        images: vec![image.to_string()],
        containers: vec![],
        always_pull_images: true,
        enable_docker: false,
        autostart: false,
    }
}

fn advanced_config(name: &str) -> AppConfig {
    AppConfig {
        name: name.to_string(),
        interaction_model: InteractionModel::X11,
        images: vec![],
        containers: vec![
            ContainerConfig {
                image: "alpine:latest".to_string(),
                config: Some("echo 'Hello from container 1'".to_string()),
                image_pull_policy: Some(ImagePullPolicy::IfNotPresent),
                tty: true,
            },
            ContainerConfig {
                image: "alpine:latest".to_string(),
                config: Some("echo 'Hello from container 2'".to_string()),
                image_pull_policy: Some(ImagePullPolicy::IfNotPresent),
                tty: false,
            },
        ],
        always_pull_images: false,
        enable_docker: false,
        autostart: false,
    }
}

fn info(id: &str, labels: Option<LabelMap>, running: bool) -> ContainerInfo {
    ContainerInfo { id: Some(id.to_string()), labels, running }
}

/// The containers that carrying out a plan creates, as Docker lists them.
fn listed(plan: &DockerAppPlan, running: bool) -> Vec<ContainerInfo> {
    let mut out = vec![info("x11", plan.x11.labels.clone(), running)];
    if let Some(d) = &plan.docker_daemon {
        out.push(info("daemon", d.labels.clone(), running));
    }
    for (i, step) in plan.steps.iter().enumerate() {
        out.push(info(&format!("app{i}"), step.container.labels.clone(), running));
    }
    out
}

fn label(c: &ContainerPlan, key: &str) -> Option<String> {
    c.labels.as_ref().and_then(|l| l.get(key).cloned())
}

#[test]
fn base_labels_hold_the_app() {
    let mut config = simple_config("demo", "alpine:latest");
    config.autostart = true;
    let labels = create_base_labels(&config, 77);
    assert_eq!(labels.get("app-controller-id").map(|s| s.as_str()), Some("77"));
    assert_eq!(labels.get("app-controller-name").map(|s| s.as_str()), Some("demo"));
    assert_eq!(
        labels.get("app-controller-interaction-model").map(|s| s.as_str()),
        Some("X11")
    );
    assert_eq!(labels.get("app-controller-autostart").map(|s| s.as_str()), Some("true"));
    assert_eq!(labels.get("app-controller-enable-docker").map(|s| s.as_str()), Some("false"));
    assert_eq!(labels.get("app-controller-container-0-image"), None);
}

#[test]
fn app_labels_hold_the_containers() {
    let labels = create_app_labels(&advanced_config("adv"), 5);
    assert_eq!(
        labels.get("app-controller-container-0-image").map(|s| s.as_str()),
        Some("alpine:latest")
    );
    assert_eq!(
        labels.get("app-controller-container-1-config").map(|s| s.as_str()),
        Some("echo 'Hello from container 2'")
    );
    assert_eq!(labels.get("app-controller-container-2-image"), None);
}

#[test]
fn labels_round_trip() {
    let mut config = advanced_config("round");
    config.enable_docker = true;
    config.autostart = true;
    let labels = create_app_labels(&config, 1234);
    let app = make_app_config_from_labels(&labels, 1234).expect("labels describe an app");
    assert_eq!(app.id, 1234);
    assert_eq!(app.config.name, "round");
    assert_eq!(app.config.interaction_model, InteractionModel::X11);
    assert!(app.config.images.is_empty());
    assert_eq!(app.config.containers.len(), 2);
    assert_eq!(app.config.containers[0].image, "alpine:latest");
    assert_eq!(
        app.config.containers[0].config.as_deref(),
        Some("echo 'Hello from container 1'")
    );
    assert_eq!(app.config.containers[0].image_pull_policy, None);
    assert!(!app.config.containers[0].tty);
    assert!(app.config.enable_docker);
    assert!(app.config.autostart);
    assert!(!app.config.always_pull_images);
}

#[test]
fn labels_without_name_describe_no_app() {
    let mut labels = LabelMap::new();
    labels.insert_str("app-controller-id", "3");
    assert!(make_app_config_from_labels(&labels, 3).is_none());
}

#[test]
fn unknown_model_reads_as_default() {
    let mut labels = LabelMap::new();
    labels.insert_str("app-controller-name", "x");
    labels.insert_str("app-controller-interaction-model", "Wayland");
    labels.insert_str("app-controller-autostart", "yes");
    let app = make_app_config_from_labels(&labels, 9).unwrap();
    assert_eq!(app.config.interaction_model, InteractionModel::Unknown);
    assert!(!app.config.autostart);
    assert!(app.config.containers.is_empty());
}

#[test]
fn container_gap_ends_the_list() {
    let mut labels = LabelMap::new();
    labels.insert_str("app-controller-name", "gap");
    labels.insert_str("app-controller-container-0-image", "a");
    labels.insert_str("app-controller-container-2-image", "c");
    let app = make_app_config_from_labels(&labels, 1).unwrap();
    assert_eq!(app.config.containers.len(), 1);
}

#[test]
fn plan_names_and_x11() {
    let plan = plan_app(simple_config("test-simple", "alpine:latest"), 0xab);
    assert_eq!(plan.id, 0xab);
    assert_eq!(plan.app_name, "test-simple-000000ab");
    assert_eq!(plan.x11.name, "test-simple-000000ab-x11-host");
    assert_eq!(plan.x11.image, "ghcr.io/twizmwazin/app-controller/x11-host");
    assert_eq!(plan.x11.privileged, Some(true));
    assert_eq!(plan.x11.auto_remove, Some(true));
    assert_eq!(
        plan.x11.exposed_ports,
        Some(vec!["5910/tcp".to_string(), "5911/tcp".to_string()])
    );
    assert_eq!(label(&plan.x11, "app-controller-container-type").as_deref(), Some("x11-host"));
    assert!(plan.docker_daemon.is_none());
    assert_eq!(plan.steps.len(), 1);
    assert!(!plan.autostart);
    assert_eq!(plan.app.id, 0xab);
    assert_eq!(plan.app.config.images, vec!["alpine:latest".to_string()]);
}

#[test]
fn plan_application_container() {
    let plan = plan_app(advanced_config("adv"), 1);
    let step = &plan.steps[0];
    assert_eq!(step.pull, PullRule::IfAbsent);
    let c = &step.container;
    assert_eq!(c.name, "adv-00000001-app-0");
    assert_eq!(c.image, "alpine:latest");
    assert_eq!(c.tty, Some(true));
    assert_eq!(c.network_mode.as_deref(), Some("container:adv-00000001-x11-host"));
    assert_eq!(
        c.env,
        Some(vec![
            "DISPLAY=:0.0".to_string(),
            "AC_CONTAINER_OUTPUT=/outputs/container-0.log".to_string(),
            "AC_CONTAINER_CONFIG=/etc/app-controller/config/config".to_string(),
        ])
    );
    assert_eq!(
        c.binds,
        Some(vec![
            "adv-00000001-outputs:/outputs".to_string(),
            "adv-00000001-container-0-config:/etc/app-controller/config".to_string(),
        ])
    );
    assert_eq!(label(c, "app-controller-container-type").as_deref(), Some("application"));
    assert_eq!(label(c, "app-controller-container-index").as_deref(), Some("0"));
    let writer = step.config_writer.as_ref().expect("container has configuration");
    assert_eq!(writer.name, "adv-00000001-container-0-config-temp-config");
    assert_eq!(writer.image, "alpine:latest");
    assert_eq!(
        writer.env,
        Some(vec!["CONFIG_DATA=echo 'Hello from container 1'".to_string()])
    );
    assert_eq!(
        writer.cmd,
        Some(vec![
            "sh".to_string(),
            "-c".to_string(),
            "echo \"$CONFIG_DATA\" > /config/config".to_string()
        ])
    );
    assert_eq!(
        writer.binds,
        Some(vec!["adv-00000001-container-0-config:/config".to_string()])
    );
    assert_eq!(plan.steps[1].container.tty, Some(false));
}

#[test]
fn plan_docker_daemon() {
    let mut config = advanced_config("dind");
    config.enable_docker = true;
    let plan = plan_app(config, 2);
    let d = plan.docker_daemon.as_ref().expect("docker enabled");
    assert_eq!(d.name, "dind-00000002-docker-daemon");
    assert_eq!(d.image, "docker:dind");
    assert_eq!(d.network_mode.as_deref(), Some("container:dind-00000002-x11-host"));
    assert_eq!(
        d.cmd,
        Some(vec![
            "dockerd".to_string(),
            "--host=tcp://0.0.0.0:2375".to_string(),
            "--tls=false".to_string()
        ])
    );
    assert_eq!(label(d, "app-controller-container-type").as_deref(), Some("docker-daemon"));
    let env = plan.steps[1].container.env.clone().unwrap();
    assert_eq!(env.last().map(|s| s.as_str()), Some("DOCKER_HOST=tcp://127.0.0.1:2375"));
}

#[test]
fn pull_policies() {
    let spec = |p| {
        ContainerSpec::Config(ContainerConfig {
            image: "i".to_string(),
            config: None,
            image_pull_policy: p,
            tty: false,
        })
    };
    for present in [false, true] {
        assert!(pull_before_create(&spec(Some(ImagePullPolicy::Always)), false, present));
        assert!(!pull_before_create(&spec(Some(ImagePullPolicy::Never)), true, present));
        assert!(pull_before_create(&spec(None), true, present));
        assert!(!pull_before_create(&spec(None), false, present));
        assert!(!pull_before_create(&ContainerSpec::Image("i".to_string()), false, present));
    }
    assert!(pull_before_create(&spec(Some(ImagePullPolicy::IfNotPresent)), false, false));
    assert!(!pull_before_create(&spec(Some(ImagePullPolicy::IfNotPresent)), true, true));
    assert_eq!(pull_rule_for(&spec(Some(ImagePullPolicy::IfNotPresent)), true), PullRule::IfAbsent);
    assert_eq!(pull_rule_for(&spec(None), true), PullRule::Always);
    assert_eq!(pull_rule_for(&spec(None), false), PullRule::Never);
    assert!(pulls(PullRule::IfAbsent, false));
    assert!(!pulls(PullRule::IfAbsent, true));
}

#[test]
fn first_container_id_or_not_found() {
    let info = |id: Option<&str>| ContainerInfo { id: id.map(|s| s.to_string()), labels: None, running: false };
    assert_eq!(first_container_id(vec![info(Some("a")), info(Some("b"))]).unwrap(), "a");
    assert!(matches!(first_container_id(vec![info(None), info(Some("b"))]), Err(BackendError::NotFound)));
    assert!(matches!(first_container_id(vec![]), Err(BackendError::NotFound)));
    assert_eq!(status_after_start(), AppStatus::Ready);
    assert_eq!(status_after_stop(), AppStatus::Stopped);
}

#[test]
fn created_app_reads_back() {
    let plan = plan_app(advanced_config("test-advanced"), 42);
    let containers = listed(&plan, false);
    let app = app_from_containers(&containers, 42).expect("app exists");
    assert_eq!(app.id, 42);
    assert_eq!(app.config.name, "test-advanced");
    assert_eq!(app.config.containers.len(), 2);
    assert_eq!(app.config.containers[0].image, "alpine:latest");
    assert_eq!(app.config.containers[1].image, "alpine:latest");
}

#[test]
fn missing_app_is_not_found() {
    let containers: Vec<ContainerInfo> = vec![];
    assert!(matches!(app_from_containers(&containers, 999999), Err(BackendError::NotFound)));
    assert!(matches!(require_containers(vec![]), Err(BackendError::NotFound)));
    assert_eq!(app_status(&containers), AppStatus::Stopped);
    assert!(matches!(address_from_networks(&vec![]), Err(BackendError::NotFound)));
}

#[test]
fn unlabelled_containers_are_an_internal_error() {
    let containers = vec![ContainerInfo { id: Some("a".to_string()), labels: None, running: true }];
    match app_from_containers(&containers, 12) {
        Err(BackendError::InternalError(m)) => {
            assert_eq!(m, "No containers with labels found for app ID 12")
        }
        other => panic!("unexpected {other:?}"),
    }
    let containers = vec![info("a", Some(LabelMap::new()), true)];
    match app_from_containers(&containers, 12) {
        Err(BackendError::InternalError(m)) => {
            assert_eq!(m, "Failed to reconstruct AppConfig from labels for app ID 12")
        }
        other => panic!("unexpected {other:?}"),
    }
}

#[test]
fn status_follows_x11_host() {
    let plan = plan_app(simple_config("s", "alpine:latest"), 3);
    assert_eq!(app_status(&listed(&plan, false)), AppStatus::Stopped);
    assert_eq!(app_status(&listed(&plan, true)), AppStatus::Ready);
    let mut only_apps = listed(&plan, true);
    only_apps.remove(0);
    assert_eq!(app_status(&only_apps), AppStatus::Stopped);
}

#[test]
fn all_apps_are_collected_by_id() {
    let first = plan_app(simple_config("test-all-1", "alpine:latest"), 10);
    let second = plan_app(simple_config("test-all-2", "alpine:latest"), 11);
    let mut containers = listed(&first, false);
    containers.extend(listed(&second, false));
    containers.push(ContainerInfo { id: None, labels: None, running: false });
    let apps = apps_from_containers(&containers);
    assert_eq!(apps.len(), 2);
    let mut ids: Vec<u64> = apps.iter().map(|a| a.id).collect();
    ids.sort();
    assert_eq!(ids, vec![10, 11]);
    let one = apps.iter().find(|a| a.id == 10).unwrap();
    assert_eq!(one.config.name, "test-all-1");
}

#[test]
fn start_order_sorts_application_containers() {
    let mut x11 = LabelMap::new();
    x11.insert_str("app-controller-container-type", "x11-host");
    let mut daemon = LabelMap::new();
    daemon.insert_str("app-controller-container-type", "docker-daemon");
    let app = |i: &str| {
        let mut l = LabelMap::new();
        l.insert_str("app-controller-container-type", "application");
        l.insert_str("app-controller-container-index", i);
        l
    };
    let containers = vec![
        info("app2", Some(app("2")), false),
        info("app0", Some(app("0")), false),
        info("daemon", Some(daemon), false),
        info("appbad", Some(app("x")), false),
        info("x11", Some(x11), false),
        info("app1", Some(app("1")), false),
        ContainerInfo { id: None, labels: Some(app("0")), running: false },
    ];
    let (x, d, a) = categorize_containers(&containers);
    assert_eq!(x, vec!["x11".to_string()]);
    assert_eq!(d, vec!["daemon".to_string()]);
    assert_eq!(
        a,
        vec![
            ("app0".to_string(), 0),
            ("appbad".to_string(), 0),
            ("app1".to_string(), 1),
            ("app2".to_string(), 2)
        ]
    );
    assert_eq!(
        start_order(&containers),
        vec!["x11", "daemon", "app0", "appbad", "app1", "app2"]
            .into_iter()
            .map(String::from)
            .collect::<Vec<_>>()
    );
    assert_eq!(container_ids(&containers).len(), 6);
}

#[test]
fn filters() {
    assert_eq!(create_app_filters(5), vec!["app-controller-id=5".to_string()]);
    assert_eq!(
        x11_host_filters(5),
        vec![
            "app-controller-id=5".to_string(),
            "app-controller-container-type=x11-host".to_string()
        ]
    );
    assert_eq!(
        app_container_filters(5, 1),
        vec![
            "app-controller-id=5".to_string(),
            "app-controller-container-type=application".to_string(),
            "app-controller-container-index=1".to_string()
        ]
    );
}

#[test]
fn address_is_first_non_empty_ip() {
    let ips = vec![None, Some(String::new()), Some("172.17.0.2".to_string()), Some("10.0.0.1".to_string())];
    let (ip, port) = address_from_networks(&ips).unwrap();
    assert_eq!(ip, "172.17.0.2");
    assert_eq!(port, VNC_WS_PORT);
    assert_eq!(port, 5911);
}

#[test]
fn output_joins_stdout_and_stderr() {
    let chunks = vec![
        LogChunk::StdOut(b"hello ".to_vec()),
        LogChunk::StdIn(b"ignored".to_vec()),
        LogChunk::StdErr(b"world".to_vec()),
        LogChunk::Console(b"!".to_vec()),
        LogChunk::StdOut(vec![0xff, b'x']),
    ];
    assert_eq!(collect_output(&chunks), "hello world\u{fffd}x");
}
