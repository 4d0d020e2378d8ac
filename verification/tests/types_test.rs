use app_controller::types::{
    AppConfig, ContainerConfig, ContainerSpec, ImagePullPolicy, InteractionModel,
};

fn config_with_containers() -> AppConfig {
    AppConfig {
        name: "demo".to_string(),
        interaction_model: InteractionModel::X11,
        images: vec![],
        containers: vec![
            ContainerConfig {
                image: "alpine:latest".to_string(),
                config: Some("echo one".to_string()),
                image_pull_policy: Some(ImagePullPolicy::Always),
                tty: true,
            },
            ContainerConfig {
                image: "busybox".to_string(),
                config: None,
                image_pull_policy: None,
                tty: false,
            },
        ],
        always_pull_images: false,
        enable_docker: false,
        autostart: false,
    }
}

#[test]
fn container_spec_accessors_for_image() {
    let spec = ContainerSpec::Image("alpine:latest".to_string());
    assert_eq!(spec.image(), "alpine:latest");
    assert_eq!(spec.config(), None);
    assert_eq!(spec.image_pull_policy(), None);
    assert!(!spec.tty());
}

#[test]
fn container_spec_accessors_for_config() {
    let spec = ContainerSpec::Config(ContainerConfig {
        image: "nginx".to_string(),
        config: Some("data".to_string()),
        image_pull_policy: Some(ImagePullPolicy::Never),
        tty: true,
    });
    assert_eq!(spec.image(), "nginx");
    assert_eq!(spec.config(), Some("data"));
    assert_eq!(spec.image_pull_policy(), Some(ImagePullPolicy::Never));
    assert!(spec.tty());
}

#[test]
fn get_containers_prefers_containers() {
    let config = config_with_containers();
    let specs = config.get_containers();
    assert_eq!(specs.len(), 2);
    assert_eq!(specs[0].image(), "alpine:latest");
    assert_eq!(specs[1].image(), "busybox");
    assert!(matches!(specs[0], ContainerSpec::Config(_)));
}

#[test]
fn get_containers_falls_back_to_images() {
    let mut config = AppConfig::default();
    config.images = vec!["a".to_string(), "b".to_string(), "c".to_string()];
    let specs = config.get_containers();
    assert_eq!(specs.len(), 3);
    for (i, name) in ["a", "b", "c"].iter().enumerate() {
        assert!(matches!(&specs[i], ContainerSpec::Image(s) if s == name));
    }
}

#[test]
fn get_containers_empty() {
    let config = AppConfig::default();
    assert!(config.get_containers().is_empty());
}

#[test]
fn get_container_configs_by_index() {
    let mut config = config_with_containers();
    config.containers.push(ContainerConfig {
        image: "third".to_string(),
        config: Some("three".to_string()),
        image_pull_policy: None,
        tty: false,
    });
    let configs = config.get_container_configs();
    assert_eq!(configs.len(), 2);
    assert_eq!(configs.get(&0).map(|s| s.as_str()), Some("echo one"));
    assert_eq!(configs.get(&1), None);
    assert_eq!(configs.get(&2).map(|s| s.as_str()), Some("three"));
}

#[test]
fn get_container_configs_none_for_images() {
    let mut config = AppConfig::default();
    config.images = vec!["a".to_string()];
    assert!(config.get_container_configs().is_empty());
}

#[test]
fn example_config_is_firefox_demo() {
    let example = AppConfig::example();
    assert_eq!(example.name, "firefox-demo");
    assert_eq!(example.interaction_model, InteractionModel::X11);
    assert!(example.images.is_empty());
    assert_eq!(example.containers.len(), 1);
    assert_eq!(
        example.containers[0].image,
        "ghcr.io/twizmwazin/app-controller/firefox-demo:latest"
    );
    assert_eq!(
        example.containers[0].config.as_deref(),
        Some("Container-specific configuration")
    );
    assert_eq!(
        example.containers[0].image_pull_policy,
        Some(ImagePullPolicy::IfNotPresent)
    );
    assert!(!example.always_pull_images && !example.enable_docker && !example.autostart);
}

#[test]
fn defaults() {
    assert_eq!(ImagePullPolicy::default(), ImagePullPolicy::IfNotPresent);
    assert_eq!(InteractionModel::default(), InteractionModel::Unknown);
    assert_eq!(
        app_controller::types::AppStatus::default(),
        app_controller::types::AppStatus::Unknown
    );
}

#[test]
fn model_names_round_trip() {
    assert_eq!(InteractionModel::X11.name(), "X11");
    assert_eq!(InteractionModel::Unknown.name(), "Unknown");
    assert_eq!(InteractionModel::from_name("X11"), Some(InteractionModel::X11));
    assert_eq!(InteractionModel::from_name("Unknown"), Some(InteractionModel::Unknown));
    assert_eq!(InteractionModel::from_name("x11"), None);
    assert_eq!(ImagePullPolicy::Always.name(), "Always");
    assert_eq!(ImagePullPolicy::IfNotPresent.name(), "IfNotPresent");
    assert_eq!(ImagePullPolicy::Never.name(), "Never");
}
