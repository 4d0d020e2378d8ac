use vstd::prelude::*;
use std::collections::BTreeMap;

verus! {

broadcast use vstd::std_specs::btree::group_btree_axioms;

/// Image pull policy for containers. Determines when to pull the container image.
#[derive(Debug, Clone, Copy, PartialEq, Eq, Structural)]
pub enum ImagePullPolicy {
    /// Always pull the image.
    Always,
    /// Only pull the image if it's not already present.
    IfNotPresent,
    /// Never pull the image, use the local image only.
    Never,
}

impl Default for ImagePullPolicy {
    fn default() -> (p: Self)
        ensures
            p == ImagePullPolicy::IfNotPresent,
    {
        ImagePullPolicy::IfNotPresent
    }
}

/// The name under which a pull policy is written (as Kubernetes spells it).
pub open spec fn pull_policy_name(p: ImagePullPolicy) -> Seq<char> {
    match p {
        ImagePullPolicy::Always => "Always"@,
        ImagePullPolicy::IfNotPresent => "IfNotPresent"@,
        ImagePullPolicy::Never => "Never"@,
    }
}

impl ImagePullPolicy {
    /// The name of this policy, the same as the variant's name.
    pub fn name(&self) -> (s: &'static str)
        ensures
            s@ == pull_policy_name(*self),
    {
        match self {
            ImagePullPolicy::Always => "Always",
            ImagePullPolicy::IfNotPresent => "IfNotPresent",
            ImagePullPolicy::Never => "Never",
        }
    }
}

/// Interaction model used by the app. The idea here is to allow different ways
/// of running and presenting an interactive app. For now, only X11 is
/// supported.
#[derive(Debug, Clone, Copy, PartialEq, Eq, Structural)]
pub enum InteractionModel {
    /// Unknown interaction model.
    Unknown,
    /// X11 interaction model. App container will be spawned with access to an X
    /// socket to render its output.
    X11,
}

impl Default for InteractionModel {
    fn default() -> (m: Self)
        ensures
            m == InteractionModel::Unknown,
    {
        InteractionModel::Unknown
    }
}

/// The name under which an interaction model is written: the variant's name.
pub open spec fn model_name(m: InteractionModel) -> Seq<char> {
    match m {
        InteractionModel::Unknown => seq!['U', 'n', 'k', 'n', 'o', 'w', 'n'],
        InteractionModel::X11 => seq!['X', '1', '1'],
    }
}

/// The interaction model whose name is `s`, if any.
pub open spec fn model_from_name(s: Seq<char>) -> Option<InteractionModel> {
    if s == model_name(InteractionModel::Unknown) {
        Some(InteractionModel::Unknown)
    } else if s == model_name(InteractionModel::X11) {
        Some(InteractionModel::X11)
    } else {
        None
    }
}

/// Reading back the name of a model gives the model.
pub proof fn lemma_model_name_roundtrip(m: InteractionModel)
    ensures
        model_from_name(model_name(m)) == Some(m),
{
    if m == InteractionModel::X11 {
        assert(model_name(InteractionModel::X11)[0] != model_name(InteractionModel::Unknown)[0]);
    }
}

impl InteractionModel {
    /// The name of this model, the same as the variant's name.
    pub fn name(&self) -> (s: &'static str)
        ensures
            s@ == model_name(*self),
    {
        proof {
            reveal_strlit("Unknown");
            reveal_strlit("X11");
        }
        match self {
            InteractionModel::Unknown => "Unknown",
            InteractionModel::X11 => "X11",
        }
    }

    /// The model whose name is `s`, if any. Names are matched exactly.
    pub fn from_name(s: &str) -> (m: Option<InteractionModel>)
        ensures
            m == model_from_name(s@),
    {
        if crate::text::str_equal(s, InteractionModel::Unknown.name()) {
            Some(InteractionModel::Unknown)
        } else if crate::text::str_equal(s, InteractionModel::X11.name()) {
            Some(InteractionModel::X11)
        } else {
            None
        }
    }
}

/// The view of an optional string.
pub open spec fn opt_view(o: Option<String>) -> Option<Seq<char>> {
    match o {
        Some(s) => Some(s@),
        None => None,
    }
}

/// Configuration for a container.
#[derive(Debug)]
pub struct ContainerConfig {
    /// Container image to use.
    pub image: String,
    /// Optional configuration data for this container. Limited to 1MB in size.
    /// If provided, this will be mounted into the container and the AC_CONTAINER_CONFIG
    /// environment variable will be set pointing to the mount location.
    pub config: Option<String>,
    /// Image pull policy for this container. Determines when to pull the container image.
    /// Supports the same values as Kubernetes: Always, IfNotPresent, Never.
    pub image_pull_policy: Option<ImagePullPolicy>,
    /// Whether the container is given a terminal.
    pub tty: bool,
}

/// What a container configuration holds.
#[verifier::ext_equal]
pub struct ContainerConfigView {
    pub image: Seq<char>,
    pub config: Option<Seq<char>>,
    pub image_pull_policy: Option<ImagePullPolicy>,
    pub tty: bool,
}

impl View for ContainerConfig {
    type V = ContainerConfigView;

    open spec fn view(&self) -> ContainerConfigView {
        ContainerConfigView {
            image: self.image@,
            config: opt_view(self.config),
            image_pull_policy: self.image_pull_policy,
            tty: self.tty,
        }
    }
}

/// A copy of an optional string.
pub fn clone_opt_string(o: &Option<String>) -> (r: Option<String>)
    ensures
        r == *o,
{
    match o {
        Some(s) => Some(s.clone()),
        None => None,
    }
}

/// A copy of a list of strings.
pub fn clone_strings(v: &Vec<String>) -> (r: Vec<String>)
    ensures
        r@ == v@,
{
    let mut r: Vec<String> = Vec::new();
    for i in 0..v.len()
        invariant
            r@ == v@.take(i as int),
    {
        r.push(v[i].clone());
        assert(r@ =~= v@.take(i + 1));
    }
    assert(v@.take(v.len() as int) =~= v@);
    r
}

impl Clone for ContainerConfig {
    fn clone(&self) -> (c: Self)
        ensures
            c == *self,
    {
        ContainerConfig {
            image: self.image.clone(),
            config: clone_opt_string(&self.config),
            image_pull_policy: self.image_pull_policy,
            tty: self.tty,
        }
    }
}

impl Default for ContainerConfig {
    fn default() -> (c: Self)
        ensures
            c@.image.len() == 0,
            c.config is None,
            c.image_pull_policy is None,
            !c.tty,
    {
        ContainerConfig { image: String::new(), config: None, image_pull_policy: None, tty: false }
    }
}

/// A copy of a list of container configurations.
pub fn clone_configs(v: &Vec<ContainerConfig>) -> (r: Vec<ContainerConfig>)
    ensures
        r@ == v@,
{
    let mut r: Vec<ContainerConfig> = Vec::new();
    for i in 0..v.len()
        invariant
            r@ == v@.take(i as int),
    {
        r.push(v[i].clone());
        assert(r@ =~= v@.take(i + 1));
    }
    assert(v@.take(v.len() as int) =~= v@);
    r
}

/// Internal representation of a container specification that supports both simple image names
/// and full container configs. This is used for processing but not directly exposed in the API.
#[derive(Debug)]
pub enum ContainerSpec {
    /// Just an image name (backward compatibility).
    Image(String),
    /// Full container configuration.
    Config(ContainerConfig),
}

/// What a container specification holds.
#[verifier::ext_equal]
pub enum ContainerSpecView {
    Image(Seq<char>),
    Config(ContainerConfigView),
}

impl ContainerSpecView {
    /// The image that the container runs.
    pub open spec fn image(self) -> Seq<char> {
        match self {
            ContainerSpecView::Image(image) => image,
            ContainerSpecView::Config(c) => c.image,
        }
    }

    /// The configuration data of the container, if any.
    pub open spec fn config(self) -> Option<Seq<char>> {
        match self {
            ContainerSpecView::Image(_) => None,
            ContainerSpecView::Config(c) => c.config,
        }
    }

    /// The pull policy of the container, if any.
    pub open spec fn image_pull_policy(self) -> Option<ImagePullPolicy> {
        match self {
            ContainerSpecView::Image(_) => None,
            ContainerSpecView::Config(c) => c.image_pull_policy,
        }
    }

    /// Whether the container is given a terminal.
    pub open spec fn tty(self) -> bool {
        match self {
            ContainerSpecView::Image(_) => false,
            ContainerSpecView::Config(c) => c.tty,
        }
    }
}

impl View for ContainerSpec {
    type V = ContainerSpecView;

    open spec fn view(&self) -> ContainerSpecView {
        match self {
            ContainerSpec::Image(image) => ContainerSpecView::Image(image@),
            ContainerSpec::Config(c) => ContainerSpecView::Config(c@),
        }
    }
}

impl Clone for ContainerSpec {
    fn clone(&self) -> (c: Self)
        ensures
            c == *self,
    {
        match self {
            ContainerSpec::Image(image) => ContainerSpec::Image(image.clone()),
            ContainerSpec::Config(config) => ContainerSpec::Config(config.clone()),
        }
    }
}

impl ContainerSpec {
    /// Get the image name from this container spec
    pub fn image(&self) -> (s: &str)
        ensures
            s@ == self@.image(),
    {
        match self {
            ContainerSpec::Image(image) => image.as_str(),
            ContainerSpec::Config(config) => config.image.as_str(),
        }
    }

    /// Get the config from this container spec, if any
    pub fn config(&self) -> (c: Option<&str>)
        ensures
            match c {
                Some(s) => self@.config() == Some(s@),
                None => self@.config() is None,
            },
    {
        match self {
            ContainerSpec::Image(_) => None,
            ContainerSpec::Config(config) => match &config.config {
                Some(s) => Some(s.as_str()),
                None => None,
            },
        }
    }

    /// Get the image pull policy from this container spec, if any
    pub fn image_pull_policy(&self) -> (p: Option<ImagePullPolicy>)
        ensures
            p == self@.image_pull_policy(),
    {
        match self {
            ContainerSpec::Image(_) => None,
            ContainerSpec::Config(config) => config.image_pull_policy,
        }
    }

    /// Whether the container is given a terminal; never for a bare image.
    pub fn tty(&self) -> (t: bool)
        ensures
            t == self@.tty(),
    {
        match self {
            ContainerSpec::Image(_) => false,
            ContainerSpec::Config(config) => config.tty,
        }
    }
}

/// The views of a list of strings.
pub open spec fn strings_view(s: Seq<String>) -> Seq<Seq<char>> {
    s.map_values(|x: String| x@)
}

/// The views of a list of container configurations.
pub open spec fn configs_view(s: Seq<ContainerConfig>) -> Seq<ContainerConfigView> {
    s.map_values(|c: ContainerConfig| c@)
}

/// The views of a list of container specifications.
pub open spec fn specs_view(s: Seq<ContainerSpec>) -> Seq<ContainerSpecView> {
    s.map_values(|c: ContainerSpec| c@)
}

/// Configuration of an app.
#[derive(Debug)]
pub struct AppConfig {
    /// Name of the app.
    pub name: String,
    /// Interaction model to use for the app.
    pub interaction_model: InteractionModel,
    /// Container images to use for the app (simple format).
    /// Use either this field or 'containers', not both.
    pub images: Vec<String>,
    /// Container configurations (advanced format).
    /// Use either this field or 'images', not both.
    pub containers: Vec<ContainerConfig>,
    /// **Deprecated:** Use container-specific image_pull_policy instead.
    /// This field is maintained for backward compatibility but container-specific
    /// image_pull_policy takes precedence when specified.
    ///
    /// Whether to always pull images from the registry.
    pub always_pull_images: bool,
    /// Whether to enable Docker socket for this app.
    /// If enabled, a Docker daemon sidecar container will be added
    /// and the Docker socket will be mounted into all containers.
    pub enable_docker: bool,
    /// Whether to automatically start the app when it's created.
    /// If true, the app will be started immediately after creation.
    /// If false, the app will be created in a stopped state.
    pub autostart: bool,
}

/// What an app configuration holds.
#[verifier::ext_equal]
pub struct AppConfigView {
    pub name: Seq<char>,
    pub interaction_model: InteractionModel,
    pub images: Seq<Seq<char>>,
    pub containers: Seq<ContainerConfigView>,
    pub always_pull_images: bool,
    pub enable_docker: bool,
    pub autostart: bool,
}

impl AppConfigView {
    /// The containers of the app: the configurations if there are any,
    /// otherwise one bare image specification per image.
    pub open spec fn container_specs(self) -> Seq<ContainerSpecView> {
        if self.containers.len() > 0 {
            self.containers.map_values(|c: ContainerConfigView| ContainerSpecView::Config(c))
        } else {
            self.images.map_values(|i: Seq<char>| ContainerSpecView::Image(i))
        }
    }

    /// The configuration data of each container that has some, by the
    /// container's index.
    pub open spec fn container_configs(self) -> Map<usize, Seq<char>> {
        Map::new(
            |i: usize| i < self.container_specs().len() && self.container_specs()[i as int].config() is Some,
            |i: usize| self.container_specs()[i as int].config()->0,
        )
    }
}

impl View for AppConfig {
    type V = AppConfigView;

    open spec fn view(&self) -> AppConfigView {
        AppConfigView {
            name: self.name@,
            interaction_model: self.interaction_model,
            images: strings_view(self.images@),
            containers: configs_view(self.containers@),
            always_pull_images: self.always_pull_images,
            enable_docker: self.enable_docker,
            autostart: self.autostart,
        }
    }
}

impl Clone for AppConfig {
    fn clone(&self) -> (c: Self)
        ensures
            c@ == self@,
    {
        AppConfig {
            name: self.name.clone(),
            interaction_model: self.interaction_model,
            images: clone_strings(&self.images),
            containers: clone_configs(&self.containers),
            always_pull_images: self.always_pull_images,
            enable_docker: self.enable_docker,
            autostart: self.autostart,
        }
    }
}

impl Default for AppConfig {
    fn default() -> (c: Self)
        ensures
            c@.name.len() == 0,
            c.interaction_model == InteractionModel::Unknown,
            c.images@.len() == 0,
            c.containers@.len() == 0,
            !c.always_pull_images,
            !c.enable_docker,
            !c.autostart,
    {
        AppConfig {
            name: String::new(),
            interaction_model: InteractionModel::Unknown,
            images: Vec::new(),
            containers: Vec::new(),
            always_pull_images: false,
            enable_docker: false,
            autostart: false,
        }
    }
}

impl AppConfig {
    /// Get the containers for this app, converting from the API representation
    /// to the internal ContainerSpec representation.
    pub fn get_containers(&self) -> (r: Vec<ContainerSpec>)
        ensures
            specs_view(r@) == self@.container_specs(),
    {
        let mut r: Vec<ContainerSpec> = Vec::new();
        if self.containers.len() > 0 {
            for i in 0..self.containers.len()
                invariant
                    r@.len() == i,
                    forall|j: int|
                        0 <= j < i ==> #[trigger] r@[j]@ == ContainerSpecView::Config(
                            self.containers@[j]@,
                        ),
            {
                r.push(ContainerSpec::Config(self.containers[i].clone()));
            }
        } else {
            for i in 0..self.images.len()
                invariant
                    r@.len() == i,
                    forall|j: int|
                        0 <= j < i ==> #[trigger] r@[j]@ == ContainerSpecView::Image(
                            self.images@[j]@,
                        ),
            {
                r.push(ContainerSpec::Image(self.images[i].clone()));
            }
        }
        assert(specs_view(r@) =~= self@.container_specs());
        r
    }

    /// Get container configs as a map from container index to config
    pub fn get_container_configs(&self) -> (r: BTreeMap<usize, String>)
        ensures
            r@.dom() == self@.container_configs().dom(),
            forall|i: usize| #[trigger] r@.contains_key(i) ==> r@[i]@ == self@.container_configs()[i],
    {
        let containers = self.get_containers();
        let ghost specs = self@.container_specs();
        let mut configs: BTreeMap<usize, String> = BTreeMap::new();
        for i in 0..containers.len()
            invariant
                specs_view(containers@) == specs,
                forall|k: usize|
                    #[trigger] configs@.contains_key(k) <==> (k < i && specs[k as int].config() is Some),
                forall|k: usize| #[trigger] configs@.contains_key(k) ==> configs@[k]@ == specs[k as int].config()->0,
        {
            assert(specs[i as int] == containers@[i as int]@);
            if let Some(config) = containers[i].config() {
                configs.insert(i, String::from_str(config));
            }
        }
        assert(configs@.dom() =~= self@.container_configs().dom());
        configs
    }

    /// The example configuration shown in the API documentation.
    pub fn example() -> (c: Self)
        ensures
            c@ == example_config(),
    {
        let mut containers: Vec<ContainerConfig> = Vec::new();
        containers.push(
            ContainerConfig {
                image: String::from_str("ghcr.io/twizmwazin/app-controller/firefox-demo:latest"),
                config: Some(String::from_str("Container-specific configuration")),
                image_pull_policy: Some(ImagePullPolicy::IfNotPresent),
                tty: false,
            },
        );
        let c = AppConfig {
            name: String::from_str("firefox-demo"),
            interaction_model: InteractionModel::X11,
            images: Vec::new(),
            containers,
            always_pull_images: false,
            enable_docker: false,
            autostart: false,
        };
        assert(c@.images =~= Seq::<Seq<char>>::empty());
        assert(c@.containers =~= example_config().containers);
        c
    }
}

/// The example configuration: a Firefox demo with one configured container.
pub open spec fn example_config() -> AppConfigView {
    AppConfigView {
        name: "firefox-demo"@,
        interaction_model: InteractionModel::X11,
        images: Seq::empty(),
        containers: seq![
            ContainerConfigView {
                image: "ghcr.io/twizmwazin/app-controller/firefox-demo:latest"@,
                config: Some("Container-specific configuration"@),
                image_pull_policy: Some(ImagePullPolicy::IfNotPresent),
                tty: false,
            },
        ],
        always_pull_images: false,
        enable_docker: false,
        autostart: false,
    }
}

/// Status of a app.
#[derive(Debug, Clone, Copy, PartialEq, Eq, Structural)]
pub enum AppStatus {
    Unknown,
    Running,
    Stopped,
    Ready,
    NotReady,
}

impl Default for AppStatus {
    fn default() -> (s: Self)
        ensures
            s == AppStatus::Unknown,
    {
        AppStatus::Unknown
    }
}

impl View for AppStatus {
    type V = AppStatus;

    open spec fn view(&self) -> AppStatus {
        *self
    }
}

/// ID used to identify a app in requests.
pub type AppId = u64;

/// Index of a container within its app.
pub type ContainerIndex = usize;

/// What a container wrote to its output.
pub type ContainerOutput = String;

/// Primary object representing a app.
#[derive(Debug)]
pub struct App {
    /// Unique identifier for the app.
    pub id: AppId,
    /// Configuration of the app.
    pub config: AppConfig,
}

/// What an app holds.
#[verifier::ext_equal]
pub struct AppView {
    pub id: AppId,
    pub config: AppConfigView,
}

impl View for App {
    type V = AppView;

    open spec fn view(&self) -> AppView {
        AppView { id: self.id, config: self.config@ }
    }
}

/// The view of an optional app.
pub open spec fn opt_app_view(o: Option<App>) -> Option<AppView> {
    match o {
        Some(a) => Some(a@),
        None => None,
    }
}

impl Clone for App {
    fn clone(&self) -> (a: Self)
        ensures
            a@ == self@,
    {
        App { id: self.id, config: self.config.clone() }
    }
}

impl Default for App {
    fn default() -> (a: Self)
        ensures
            a.id == 0,
            a.config@ == AppConfig::default_view(),
    {
        let config = AppConfig::default();
        assert(config@ =~= AppConfig::default_view());
        App { id: 0, config }
    }
}

impl AppConfig {
    /// What the default configuration holds.
    pub open spec fn default_view() -> AppConfigView {
        AppConfigView {
            name: Seq::empty(),
            interaction_model: InteractionModel::Unknown,
            images: Seq::empty(),
            containers: Seq::empty(),
            always_pull_images: false,
            enable_docker: false,
            autostart: false,
        }
    }
}

/// An IP address, written out.
pub type IpAddr = String;

/// Address and port of a app.
#[derive(Debug)]
pub struct SocketAddr {
    pub ip: IpAddr,
    pub port: u16,
}

} // verus!
