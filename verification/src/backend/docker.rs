//! The decisions of the Docker backend.
//!
//! Each app is represented by multiple Docker containers that are created and
//! managed together, similar to how Kubernetes manages containers in a pod:
//! an X11 host container that provides the display and VNC access (ports
//! 5910 and 5911), an optional Docker daemon container, and the application
//! containers, all sharing the network namespace of the X11 host container.
//!
//! Everything about an app is stored in the labels of its containers:
//! `app-controller-id`, `app-controller-name`,
//! `app-controller-interaction-model`, `app-controller-autostart`,
//! `app-controller-enable-docker`, `app-controller-container-{index}-image`
//! and `app-controller-container-{index}-config`, and on each container its
//! role (`app-controller-container-type`: `x11-host`, `docker-daemon` or
//! `application`) and, for application containers, its index
//! (`app-controller-container-index`).
//!
//! The app is running when its X11 host container is running.
use vstd::prelude::*;
use crate::backend::error::BackendError;
use crate::labels::{
    LabelMap, container_key, config_key, decode_containers, decodes_containers, encode_containers,
    has_container_key_shape, image_key, label_autostart, label_container_index, label_container_type,
    label_enable_docker, label_id, label_interaction_model, label_name, lemma_containers_roundtrip,
    lemma_decodes_unique, lemma_fixed_keys, make_config_key, make_image_key, no_container_keys,
    stored_config,
};
use crate::text::{
    bool_str, bool_text, decimal, decimal_string, hex8_string, hex_padded, lemma_bool_text,
    lemma_parse_decimal, parse_u64, parse_unsigned,
};
use crate::types::{
    App, AppConfig, AppConfigView, AppId, AppView, ContainerConfigView, ContainerSpec,
    ContainerSpecView, InteractionModel, configs_view, model_from_name, model_name, specs_view,
    lemma_model_name_roundtrip,
};

verus! {

/// The labels that every container of an app carries, before the labels
/// that describe the app's containers are added.
pub open spec fn docker_base_labels(c: AppConfigView, id: u32) -> Map<Seq<char>, Seq<char>> {
    Map::empty().insert(label_id(), decimal(id as nat)).insert(label_name(), c.name).insert(
        label_interaction_model(),
        model_name(c.interaction_model),
    ).insert(label_autostart(), bool_text(c.autostart)).insert(
        label_enable_docker(),
        bool_text(c.enable_docker),
    )
}

/// The labels that describe an app: the base labels and, for each of its
/// containers, the image and the configuration data.
pub open spec fn docker_app_labels(c: AppConfigView, id: u32) -> Map<Seq<char>, Seq<char>> {
    encode_containers(docker_base_labels(c, id), c.container_specs())
}

/// Creates base labels for all containers in an app
pub fn create_base_labels(config: &AppConfig, unique_id: u32) -> (m: LabelMap)
    ensures
        m@ == docker_base_labels(config@, unique_id),
{
    let mut m = LabelMap::new();
    m.insert(String::from_str("app-controller-id"), decimal_string(unique_id as u64));
    m.insert(String::from_str("app-controller-name"), config.name.clone());
    m.insert_str("app-controller-interaction-model", config.interaction_model.name());
    m.insert_str("app-controller-autostart", bool_str(config.autostart));
    m.insert_str("app-controller-enable-docker", bool_str(config.enable_docker));
    m
}

/// Adds to `labels` the image and configuration data of each container.
pub fn add_container_labels(labels: &mut LabelMap, containers: &Vec<ContainerSpec>)
    ensures
        final(labels)@ == encode_containers(old(labels)@, specs_view(containers@)),
{
    let ghost base = labels@;
    let ghost specs = specs_view(containers@);
    for i in 0..containers.len()
        invariant
            specs == specs_view(containers@),
            labels@ == encode_containers(base, specs.take(i as int)),
    {
        assert(specs.take(i + 1).drop_last() =~= specs.take(i as int));
        assert(specs.take(i + 1).last() == containers@[i as int]@);
        labels.insert(make_image_key(i), String::from_str(containers[i].image()));
        if let Some(config_data) = containers[i].config() {
            labels.insert(make_config_key(i), String::from_str(config_data));
        }
    }
    assert(specs.take(containers.len() as int) =~= specs);
}

/// The labels that describe an app.
pub fn create_app_labels(config: &AppConfig, unique_id: u32) -> (m: LabelMap)
    ensures
        m@ == docker_app_labels(config@, unique_id),
{
    let mut m = create_base_labels(config, unique_id);
    let containers = config.get_containers();
    add_container_labels(&mut m, &containers);
    m
}

/// The interaction model written under `app-controller-interaction-model`,
/// or the default one when none is, or what is written names none.
pub open spec fn model_or_default(m: Map<Seq<char>, Seq<char>>) -> InteractionModel {
    if m.contains_key(label_interaction_model()) && model_from_name(m[label_interaction_model()]) is Some {
        model_from_name(m[label_interaction_model()])->0
    } else {
        InteractionModel::Unknown
    }
}

/// Whether `true` is written under `key`.
pub open spec fn flag(m: Map<Seq<char>, Seq<char>>, key: Seq<char>) -> bool {
    m.contains_key(key) && m[key] == "true"@
}

/// The configuration that labels describe, given the containers they describe.
pub open spec fn config_from_labels(
    m: Map<Seq<char>, Seq<char>>,
    containers: Seq<ContainerConfigView>,
) -> AppConfigView {
    AppConfigView {
        name: m[label_name()],
        interaction_model: model_or_default(m),
        images: Seq::empty(),
        containers,
        always_pull_images: false,
        enable_docker: flag(m, label_enable_docker()),
        autostart: flag(m, label_autostart()),
    }
}

/// The interaction model written under `app-controller-interaction-model`,
/// or the default one.
fn read_model(labels: &LabelMap) -> (m: InteractionModel)
    ensures
        m == model_or_default(labels@),
{
    match labels.get("app-controller-interaction-model") {
        Some(s) => match InteractionModel::from_name(s.as_str()) {
            Some(m) => m,
            None => InteractionModel::Unknown,
        },
        None => InteractionModel::Unknown,
    }
}

/// Whether `true` is written under `key`.
fn read_flag(labels: &LabelMap, key: &str) -> (b: bool)
    ensures
        b == flag(labels@, key@),
{
    match labels.get(key) {
        Some(s) => crate::text::str_equal(s.as_str(), "true"),
        None => false,
    }
}

/// The containers that labels describe.
pub open spec fn decoded_containers(m: Map<Seq<char>, Seq<char>>) -> Seq<ContainerConfigView> {
    choose|cs: Seq<ContainerConfigView>| decodes_containers(m, cs)
}

/// The app with ID `id` that labels describe: none when they hold no name.
pub open spec fn app_from_labels(m: Map<Seq<char>, Seq<char>>, id: AppId) -> Option<AppView> {
    if m.contains_key(label_name()) {
        Some(AppView { id, config: config_from_labels(m, decoded_containers(m)) })
    } else {
        None
    }
}

/// Helper to reconstruct AppConfig from labels: `None` when the labels hold
/// no name; otherwise the app with the given ID whose configuration the
/// labels describe.
pub fn make_app_config_from_labels(labels: &LabelMap, id: AppId) -> (r: Option<App>)
    ensures
        match r {
            None => !labels@.contains_key(label_name()),
            Some(app) => {
                &&& labels@.contains_key(label_name())
                &&& app.id == id
                &&& decodes_containers(labels@, app.config@.containers)
                &&& app.config@ == config_from_labels(labels@, app.config@.containers)
            },
        },
        crate::types::opt_app_view(r) == app_from_labels(labels@, id),
{
    let name = match labels.get("app-controller-name") {
        Some(name) => name.clone(),
        None => return None,
    };
    let interaction_model = read_model(labels);
    let autostart = read_flag(labels, "app-controller-autostart");
    let enable_docker = read_flag(labels, "app-controller-enable-docker");
    let containers = decode_containers(labels);
    let config = AppConfig {
        name,
        interaction_model,
        images: Vec::new(),
        containers,
        always_pull_images: false,
        enable_docker,
        autostart,
    };
    assert(config@ =~= config_from_labels(labels@, config@.containers));
    proof {
        lemma_decodes_unique(labels@, config@.containers, decoded_containers(labels@));
    }
    Some(App { id, config })
}

/// How an app's configuration is remembered in labels: its name, interaction
/// model, containers (without pull policy or terminal), whether it has a
/// Docker daemon and whether it starts when created.
pub open spec fn docker_stored_config(c: AppConfigView) -> AppConfigView {
    AppConfigView {
        name: c.name,
        interaction_model: c.interaction_model,
        images: Seq::empty(),
        containers: c.container_specs().map_values(|s: ContainerSpecView| stored_config(s)),
        always_pull_images: false,
        enable_docker: c.enable_docker,
        autostart: c.autostart,
    }
}

/// Whether `m` is the app's labels with the role and index of one of its
/// containers added: it agrees with `docker_app_labels` on every other key.
pub open spec fn labels_of_app_container(m: Map<Seq<char>, Seq<char>>, c: AppConfigView, id: u32) -> bool {
    let a = docker_app_labels(c, id);
    &&& forall|k: Seq<char>|
        k != label_container_type() && k != label_container_index() ==> (#[trigger] m.contains_key(k)
            == a.contains_key(k))
    &&& forall|k: Seq<char>|
        k != label_container_type() && k != label_container_index() && m.contains_key(k)
            ==> #[trigger] m[k] == a[k]
}

/// What the labels of any container of an app give back: its ID, and the
/// configuration the app was created with, as labels remember it.
pub proof fn lemma_labels_roundtrip(c: AppConfigView, id: u32, m: Map<Seq<char>, Seq<char>>)
    requires
        labels_of_app_container(m, c, id),
    ensures
        m.contains_key(label_id()),
        parse_unsigned(m[label_id()], u64::MAX as nat) == Some(id as nat),
        m.contains_key(label_name()),
        decodes_containers(m, docker_stored_config(c).containers),
        forall|cs: Seq<ContainerConfigView>| #[trigger]
            decodes_containers(m, cs) ==> config_from_labels(m, cs) == docker_stored_config(c),
{
    lemma_fixed_keys();
    let base = docker_base_labels(c, id);
    let specs = c.container_specs();
    let a = docker_app_labels(c, id);
    assert(no_container_keys(base));
    crate::labels::lemma_encode_containers(base, specs);
    assert forall|k: Seq<char>| has_container_key_shape(k) implies #[trigger] m.contains_key(k)
        == encode_containers(base, specs).contains_key(k) by {}
    assert forall|k: Seq<char>| has_container_key_shape(k) && m.contains_key(k) implies #[trigger] m[k]
        == encode_containers(base, specs)[k] by {}
    lemma_containers_roundtrip(base, specs, m);
    lemma_parse_decimal(id as nat, u64::MAX as nat);
    lemma_model_name_roundtrip(c.interaction_model);
    lemma_bool_text(c.autostart);
    lemma_bool_text(c.enable_docker);
    assert(m[label_interaction_model()] == model_name(c.interaction_model));
    assert(m[label_autostart()] == bool_text(c.autostart));
    assert(m[label_enable_docker()] == bool_text(c.enable_docker));
    assert forall|cs: Seq<ContainerConfigView>| #[trigger]
        decodes_containers(m, cs) implies config_from_labels(m, cs) == docker_stored_config(c) by {
        lemma_decodes_unique(m, cs, docker_stored_config(c).containers);
        assert(config_from_labels(m, cs) =~= docker_stored_config(c));
    }
}

/// What the backend reads of a container that Docker lists: its ID, its
/// labels, and whether it is running.
#[derive(Debug)]
pub struct ContainerInfo {
    pub id: Option<String>,
    pub labels: Option<LabelMap>,
    pub running: bool,
}

/// What a listed container holds.
pub struct ContainerInfoView {
    pub id: Option<Seq<char>>,
    pub labels: Option<Map<Seq<char>, Seq<char>>>,
    pub running: bool,
}

impl View for ContainerInfo {
    type V = ContainerInfoView;

    open spec fn view(&self) -> ContainerInfoView {
        ContainerInfoView {
            id: crate::types::opt_view(self.id),
            labels: match self.labels {
                Some(l) => Some(l@),
                None => None,
            },
            running: self.running,
        }
    }
}

/// The views of a list of listed containers.
pub open spec fn infos_view(s: Seq<ContainerInfo>) -> Seq<ContainerInfoView> {
    s.map_values(|c: ContainerInfo| c@)
}

/// `x11-host`: the role of the container that provides the display.
pub open spec fn role_x11_host() -> Seq<char> {
    "x11-host"@
}

/// `docker-daemon`: the role of the container that runs a Docker daemon.
pub open spec fn role_docker_daemon() -> Seq<char> {
    "docker-daemon"@
}

/// `application`: the role of the containers that run the app's images.
pub open spec fn role_application() -> Seq<char> {
    "application"@
}

/// The role of a container that has an ID and labels, if its labels give one.
pub open spec fn role_of(c: ContainerInfoView) -> Option<Seq<char>> {
    if c.id is Some && c.labels is Some && c.labels->0.contains_key(label_container_type()) {
        Some(c.labels->0[label_container_type()])
    } else {
        None
    }
}

/// The index that the labels of an application container give it, or 0
/// when they give none that reads as a `usize`.
pub open spec fn index_of(c: ContainerInfoView) -> usize {
    let m = c.labels->0;
    if m.contains_key(label_container_index()) && parse_unsigned(
        m[label_container_index()],
        usize::MAX as nat,
    ) is Some {
        parse_unsigned(m[label_container_index()], usize::MAX as nat)->0 as usize
    } else {
        0
    }
}

/// The IDs of the containers that have the role `role`, in the order listed.
pub open spec fn ids_with_role(cs: Seq<ContainerInfoView>, role: Seq<char>) -> Seq<Seq<char>>
    decreases cs.len(),
{
    if cs.len() == 0 {
        Seq::empty()
    } else {
        let r = ids_with_role(cs.drop_last(), role);
        if role_of(cs.last()) == Some(role) {
            r.push(cs.last().id->0)
        } else {
            r
        }
    }
}

/// The IDs and indexes of the application containers, in the order listed.
pub open spec fn app_entries(cs: Seq<ContainerInfoView>) -> Seq<(Seq<char>, usize)>
    decreases cs.len(),
{
    if cs.len() == 0 {
        Seq::empty()
    } else {
        let r = app_entries(cs.drop_last());
        if role_of(cs.last()) == Some(role_application()) {
            r.push((cs.last().id->0, index_of(cs.last())))
        } else {
            r
        }
    }
}

/// The entries of `s` with index `v`, in order.
pub open spec fn with_index(s: Seq<(Seq<char>, usize)>, v: usize) -> Seq<(Seq<char>, usize)>
    decreases s.len(),
{
    if s.len() == 0 {
        Seq::empty()
    } else {
        let r = with_index(s.drop_last(), v);
        if s.last().1 == v {
            r.push(s.last())
        } else {
            r
        }
    }
}

/// Whether the entries of `s` come in order of their index.
pub open spec fn sorted_by_index(s: Seq<(Seq<char>, usize)>) -> bool {
    forall|i: int, j: int| 0 <= i < j < s.len() ==> s[i].1 <= s[j].1
}

/// Whether `r` is `s` sorted by index, keeping the order of entries with
/// the same index (what a stable sort by index gives).
pub open spec fn stably_sorted(r: Seq<(Seq<char>, usize)>, s: Seq<(Seq<char>, usize)>) -> bool {
    &&& sorted_by_index(r)
    &&& forall|v: usize| #[trigger] with_index(r, v) == with_index(s, v)
}

/// Selecting by index distributes over concatenation.
proof fn lemma_with_index_add(a: Seq<(Seq<char>, usize)>, b: Seq<(Seq<char>, usize)>, v: usize)
    ensures
        with_index(a + b, v) == with_index(a, v) + with_index(b, v),
    decreases b.len(),
{
    if b.len() == 0 {
        assert(a + b =~= a);
        assert(with_index(a, v) + with_index(b, v) =~= with_index(a, v));
    } else {
        lemma_with_index_add(a, b.drop_last(), v);
        assert((a + b).drop_last() =~= a + b.drop_last());
        assert((a + b).last() == b.last());
        if b.last().1 == v {
            assert(with_index(a, v) + with_index(b, v) =~= (with_index(a, v) + with_index(
                b.drop_last(),
                v,
            )).push(b.last()));
        }
    }
}

/// Selecting an index that no entry has gives nothing.
proof fn lemma_with_index_none(s: Seq<(Seq<char>, usize)>, v: usize)
    requires
        forall|i: int| 0 <= i < s.len() ==> s[i].1 != v,
    ensures
        with_index(s, v) == Seq::<(Seq<char>, usize)>::empty(),
    decreases s.len(),
{
    if s.len() > 0 {
        lemma_with_index_none(s.drop_last(), v);
    }
}

/// Sorts application containers by index, keeping the listed order of
/// containers with the same index.
fn sort_by_index(entries: Vec<(String, usize)>) -> (r: Vec<(String, usize)>)
    ensures
        stably_sorted(entries_view(r@), entries_view(entries@)),
{
    let ghost s = entries_view(entries@);
    let mut r: Vec<(String, usize)> = Vec::new();
    let mut i: usize = 0;
    while i < entries.len()
        invariant
            i <= entries.len(),
            s == entries_view(entries@),
            stably_sorted(entries_view(r@), s.take(i as int)),
        decreases entries.len() - i,
    {
        let key = entries[i].1;
        let mut p: usize = 0;
        while p < r.len() && r[p].1 <= key
            invariant
                p <= r.len(),
                forall|q: int| 0 <= q < p ==> entries_view(r@)[q].1 <= key,
            decreases r.len() - p,
        {
            p = p + 1;
        }
        let ghost old_r = entries_view(r@);
        let ghost e = s[i as int];
        let item = (entries[i].0.clone(), key);
        r.insert(p, item);
        proof {
            let nr = entries_view(r@);
            assert(nr =~= old_r.subrange(0, p as int) + seq![e] + old_r.subrange(p as int, old_r.len() as int));
            assert(old_r =~= old_r.subrange(0, p as int) + old_r.subrange(p as int, old_r.len() as int));
            assert(s.take(i + 1) =~= s.take(i as int).push(e));
            assert(s.take(i + 1).drop_last() =~= s.take(i as int));
            assert forall|v: usize| #[trigger] with_index(nr, v) == with_index(s.take(i + 1), v) by {
                let front = old_r.subrange(0, p as int);
                let back = old_r.subrange(p as int, old_r.len() as int);
                lemma_with_index_add(front + seq![e], back, v);
                lemma_with_index_add(front, seq![e], v);
                lemma_with_index_add(front, back, v);
                assert(seq![e].drop_last() =~= Seq::<(Seq<char>, usize)>::empty());
                assert(with_index(Seq::<(Seq<char>, usize)>::empty(), v) =~= Seq::<(Seq<char>, usize)>::empty());
                assert(e.1 == key);
                assert(with_index(seq![e], v) =~= (if key == v { seq![e] } else { Seq::<(Seq<char>, usize)>::empty() }));
                if v == key {
                    assert forall|q: int| 0 <= q < back.len() implies back[q].1 != v by {
                        if p < old_r.len() {
                            assert(old_r[p as int].1 > key);
                            assert(old_r[p as int].1 <= old_r[p + q].1);
                        }
                    }
                    lemma_with_index_none(back, v);
                    assert(with_index(old_r, v) =~= with_index(front, v));
                    assert(with_index(nr, v) =~= with_index(front, v).push(e));
                } else {
                    assert(with_index(nr, v) =~= with_index(old_r, v));
                }
            }
            assert forall|a: int, b: int| 0 <= a < b < nr.len() implies nr[a].1 <= nr[b].1 by {
                if p < old_r.len() {
                    assert(old_r[p as int].1 > key);
                }
            }
        }
        i = i + 1;
    }
    assert(s.take(entries.len() as int) =~= s);
    r
}

/// The views of a list of ID-index pairs.
pub open spec fn entries_view(s: Seq<(String, usize)>) -> Seq<(Seq<char>, usize)> {
    s.map_values(|p: (String, usize)| (p.0@, p.1))
}

/// The three roles are spelled differently.
proof fn lemma_roles_distinct()
    ensures
        role_x11_host() != role_docker_daemon(),
        role_x11_host() != role_application(),
        role_docker_daemon() != role_application(),
{
    reveal_strlit("x11-host");
    reveal_strlit("docker-daemon");
    reveal_strlit("application");
    assert(role_x11_host()[0] != role_docker_daemon()[0]);
    assert(role_x11_host()[0] != role_application()[0]);
    assert(role_docker_daemon()[0] != role_application()[0]);
}

/// The index that the labels of an application container give it, or 0.
fn read_index(labels: &LabelMap) -> (i: usize)
    ensures
        labels@.contains_key(label_container_index()) && parse_unsigned(
            labels@[label_container_index()],
            usize::MAX as nat,
        ) is Some ==> i as nat == parse_unsigned(labels@[label_container_index()], usize::MAX as nat)->0,
        !(labels@.contains_key(label_container_index()) && parse_unsigned(
            labels@[label_container_index()],
            usize::MAX as nat,
        ) is Some) ==> i == 0,
{
    match labels.get("app-controller-container-index") {
        Some(s) => match crate::text::parse_usize(s.as_str()) {
            Some(i) => i,
            None => 0,
        },
        None => 0,
    }
}

/// Helper to filter and sort containers: the IDs of the X11 host containers
/// and of the Docker daemon containers, in the order listed, and the IDs
/// and indexes of the application containers, sorted by index (containers
/// with the same index keep the listed order). Containers without an ID or
/// labels, or without a known role, are left out.
pub fn categorize_containers(containers: &Vec<ContainerInfo>) -> (r: (
    Vec<String>,
    Vec<String>,
    Vec<(String, usize)>,
))
    ensures
        crate::types::strings_view(r.0@) == ids_with_role(infos_view(containers@), role_x11_host()),
        crate::types::strings_view(r.1@) == ids_with_role(infos_view(containers@), role_docker_daemon()),
        stably_sorted(entries_view(r.2@), app_entries(infos_view(containers@))),
{
    let ghost cs = infos_view(containers@);
    let mut x11: Vec<String> = Vec::new();
    let mut docker_daemon: Vec<String> = Vec::new();
    let mut app: Vec<(String, usize)> = Vec::new();
    proof {
        lemma_roles_distinct();
    }
    for i in 0..containers.len()
        invariant
            cs == infos_view(containers@),
            crate::types::strings_view(x11@) == ids_with_role(cs.take(i as int), role_x11_host()),
            crate::types::strings_view(docker_daemon@) == ids_with_role(cs.take(i as int), role_docker_daemon()),
            entries_view(app@) == app_entries(cs.take(i as int)),
            role_x11_host() != role_docker_daemon(),
            role_x11_host() != role_application(),
            role_docker_daemon() != role_application(),
    {
        let ghost before = cs.take(i as int);
        assert(cs.take(i + 1).drop_last() =~= before);
        assert(cs.take(i + 1).last() == containers@[i as int]@);
        let c = &containers[i];
        if let (Some(id), Some(labels)) = (&c.id, &c.labels) {
            if let Some(t) = labels.get("app-controller-container-type") {
                if crate::text::str_equal(t.as_str(), "x11-host") {
                    x11.push(id.clone());
                } else if crate::text::str_equal(t.as_str(), "docker-daemon") {
                    docker_daemon.push(id.clone());
                } else if crate::text::str_equal(t.as_str(), "application") {
                    app.push((id.clone(), read_index(labels)));
                }
            }
        }
        assert(crate::types::strings_view(x11@) =~= ids_with_role(cs.take(i + 1), role_x11_host()));
        assert(crate::types::strings_view(docker_daemon@) =~= ids_with_role(cs.take(i + 1), role_docker_daemon()));
        assert(entries_view(app@) =~= app_entries(cs.take(i + 1)));
    }
    assert(cs.take(containers.len() as int) =~= cs);
    let sorted = sort_by_index(app);
    (x11, docker_daemon, sorted)
}

/// The IDs of a list of ID-index pairs.
pub open spec fn entry_ids(s: Seq<(Seq<char>, usize)>) -> Seq<Seq<char>> {
    s.map_values(|p: (Seq<char>, usize)| p.0)
}

/// The order in which the containers of an app are started: the X11 host
/// containers, then the Docker daemon containers, then the application
/// containers by index.
pub fn start_order(containers: &Vec<ContainerInfo>) -> (ids: Vec<String>)
    ensures
        exists|sorted: Seq<(Seq<char>, usize)>|
            stably_sorted(sorted, app_entries(infos_view(containers@))) && crate::types::strings_view(ids@)
                == ids_with_role(infos_view(containers@), role_x11_host()) + ids_with_role(
                infos_view(containers@),
                role_docker_daemon(),
            ) + entry_ids(sorted),
{
    let (x11, docker_daemon, app) = categorize_containers(containers);
    let mut ids: Vec<String> = Vec::new();
    append_strings(&mut ids, &x11);
    append_strings(&mut ids, &docker_daemon);
    let ghost before = crate::types::strings_view(ids@);
    for i in 0..app.len()
        invariant
            ids@.len() == before.len() + i,
            forall|j: int| 0 <= j < before.len() ==> #[trigger] ids@[j]@ == before[j],
            forall|j: int| 0 <= j < i ==> #[trigger] ids@[before.len() + j]@ == app@[j].0@,
    {
        ids.push(app[i].0.clone());
    }
    assert forall|j: int| 0 <= j < ids@.len() implies #[trigger] crate::types::strings_view(ids@)[j] == (before
        + entry_ids(entries_view(app@)))[j] by {
        if j >= before.len() {
            let t = j - before.len();
            assert(ids@[before.len() + t]@ == app@[t].0@);
        }
    }
    assert(crate::types::strings_view(ids@) =~= before + entry_ids(entries_view(app@)));
    ids
}

/// Appends copies of the strings of `src` to `dst`.
fn append_strings(dst: &mut Vec<String>, src: &Vec<String>)
    ensures
        crate::types::strings_view(final(dst)@) == crate::types::strings_view(old(dst)@)
            + crate::types::strings_view(src@),
{
    let ghost before = crate::types::strings_view(dst@);
    for i in 0..src.len()
        invariant
            dst@.len() == before.len() + i,
            forall|j: int| 0 <= j < before.len() ==> #[trigger] dst@[j]@ == before[j],
            forall|j: int| 0 <= j < i ==> #[trigger] dst@[before.len() + j]@ == src@[j]@,
    {
        dst.push(src[i].clone());
    }
    assert forall|j: int| 0 <= j < dst@.len() implies #[trigger] crate::types::strings_view(dst@)[j] == (before
        + crate::types::strings_view(src@))[j] by {
        if j >= before.len() {
            let t = j - before.len();
            assert(dst@[before.len() + t]@ == src@[t]@);
        }
    }
    assert(crate::types::strings_view(dst@) =~= before + crate::types::strings_view(src@));
}

/// The IDs of the listed containers that have one, in the order listed.
pub open spec fn listed_ids(cs: Seq<ContainerInfoView>) -> Seq<Seq<char>>
    decreases cs.len(),
{
    if cs.len() == 0 {
        Seq::empty()
    } else {
        let r = listed_ids(cs.drop_last());
        match cs.last().id {
            Some(id) => r.push(id),
            None => r,
        }
    }
}

/// Every listed container that has an ID, running or not, has its ID among
/// the IDs taken, and every ID taken is that of a listed container.
pub proof fn lemma_listed_ids_complete(cs: Seq<ContainerInfoView>)
    ensures
        forall|i: int|
            0 <= i < cs.len() && (#[trigger] cs[i]).id is Some ==> listed_ids(cs).contains(cs[i].id->0),
        forall|k: int|
            0 <= k < listed_ids(cs).len() ==> exists|i: int|
                0 <= i < cs.len() && cs[i].id == Some(#[trigger] listed_ids(cs)[k]),
        listed_ids(cs).len() <= cs.len(),
    decreases cs.len(),
{
    if cs.len() > 0 {
        let p = cs.drop_last();
        let r = listed_ids(p);
        lemma_listed_ids_complete(p);
        let all = listed_ids(cs);
        assert forall|i: int| 0 <= i < cs.len() && (#[trigger] cs[i]).id is Some implies all.contains(
            cs[i].id->0,
        ) by {
            if i < p.len() {
                assert(p[i] == cs[i]);
                let k = choose|k: int| 0 <= k < r.len() && r[k] == cs[i].id->0;
                assert(all[k] == r[k]);
            } else {
                assert(all[all.len() - 1] == cs[i].id->0);
            }
        }
        assert forall|k: int| 0 <= k < all.len() implies exists|i: int|
            0 <= i < cs.len() && cs[i].id == Some(#[trigger] all[k]) by {
            if k < r.len() {
                assert(all[k] == r[k]);
                let i = choose|i: int| 0 <= i < p.len() && p[i].id == Some(r[k]);
                assert(cs[i] == p[i]);
            } else {
                assert(cs[cs.len() - 1].id == Some(all[k]));
            }
        }
    }
}

/// The IDs of the listed containers that have one (the containers that are
/// stopped or removed with the app).
pub fn container_ids(containers: &Vec<ContainerInfo>) -> (ids: Vec<String>)
    ensures
        crate::types::strings_view(ids@) == listed_ids(infos_view(containers@)),
{
    let ghost cs = infos_view(containers@);
    let mut ids: Vec<String> = Vec::new();
    for i in 0..containers.len()
        invariant
            cs == infos_view(containers@),
            crate::types::strings_view(ids@) == listed_ids(cs.take(i as int)),
    {
        assert(cs.take(i + 1).drop_last() =~= cs.take(i as int));
        assert(cs.take(i + 1).last() == containers@[i as int]@);
        if let Some(id) = &containers[i].id {
            ids.push(id.clone());
        }
        assert(crate::types::strings_view(ids@) =~= listed_ids(cs.take(i + 1)));
    }
    assert(cs.take(containers.len() as int) =~= cs);
    ids
}

/// Whether a container is a running X11 host container.
pub open spec fn is_running_x11_host(c: ContainerInfoView) -> bool {
    &&& c.running
    &&& c.labels is Some
    &&& c.labels->0.contains_key(label_container_type())
    &&& c.labels->0[label_container_type()] == role_x11_host()
}

/// The status of an app with the given containers: ready when one of them
/// is a running X11 host container, stopped otherwise (also when it has no
/// containers).
pub open spec fn status_of(cs: Seq<ContainerInfoView>) -> crate::types::AppStatus {
    if exists|i: int| 0 <= i < cs.len() && is_running_x11_host(#[trigger] cs[i]) {
        crate::types::AppStatus::Ready
    } else {
        crate::types::AppStatus::Stopped
    }
}

/// An app whose listed containers include, at any position, a running
/// container labelled as its X11 host is ready, whatever else is listed and
/// in whatever order.
pub proof fn lemma_status_ready_at_any_position(cs: Seq<ContainerInfoView>, i: int)
    requires
        0 <= i < cs.len(),
        cs[i].running,
        cs[i].labels is Some,
        cs[i].labels->0.contains_key("app-controller-container-type"@),
        cs[i].labels->0["app-controller-container-type"@] == "x11-host"@,
    ensures
        status_of(cs) == crate::types::AppStatus::Ready,
{
    assert(is_running_x11_host(cs[i]));
}

/// An app none of whose listed containers is a running container labelled
/// as its X11 host is stopped (also when nothing is listed).
pub proof fn lemma_status_stopped_without_running_x11(cs: Seq<ContainerInfoView>)
    requires
        forall|i: int|
            0 <= i < cs.len() ==> !((#[trigger] cs[i]).running && cs[i].labels is Some
                && cs[i].labels->0.contains_key("app-controller-container-type"@)
                && cs[i].labels->0["app-controller-container-type"@] == "x11-host"@),
    ensures
        status_of(cs) == crate::types::AppStatus::Stopped,
{
    assert forall|i: int| 0 <= i < cs.len() implies !is_running_x11_host(#[trigger] cs[i]) by {
        assert(!(cs[i].running && cs[i].labels is Some
            && cs[i].labels->0.contains_key("app-controller-container-type"@)
            && cs[i].labels->0["app-controller-container-type"@] == "x11-host"@));
    }
}

/// The status of an app with the given containers.
pub fn app_status(containers: &Vec<ContainerInfo>) -> (s: crate::types::AppStatus)
    ensures
        s == status_of(infos_view(containers@)),
{
    let ghost cs = infos_view(containers@);
    for i in 0..containers.len()
        invariant
            cs == infos_view(containers@),
            forall|j: int| 0 <= j < i ==> !is_running_x11_host(#[trigger] cs[j]),
    {
        let c = &containers[i];
        if c.running {
            if let Some(labels) = &c.labels {
                if let Some(t) = labels.get("app-controller-container-type") {
                    if crate::text::str_equal(t.as_str(), "x11-host") {
                        assert(is_running_x11_host(cs[i as int]));
                        return crate::types::AppStatus::Ready;
                    }
                }
            }
        }
    }
    crate::types::AppStatus::Stopped
}

/// The containers of an app, or `NotFound` when it has none.
pub fn require_containers(containers: Vec<ContainerInfo>) -> (r: Result<Vec<ContainerInfo>, BackendError>)
    ensures
        containers@.len() == 0 ==> (r matches Err(BackendError::NotFound)),
        containers@.len() > 0 ==> (r matches Ok(cs) && cs@ == containers@),
{
    if containers.len() == 0 {
        Err(BackendError::NotFound)
    } else {
        Ok(containers)
    }
}

/// The ID of the first listed container: not found when none is listed or
/// the first has no ID (the container that an app's address or output is
/// read from).
pub fn first_container_id(containers: Vec<ContainerInfo>) -> (r: Result<String, BackendError>)
    ensures
        match r {
            Ok(id) => containers@.len() > 0 && containers@[0].id == Some(id),
            Err(e) => e is NotFound && (containers@.len() == 0 || containers@[0].id is None),
        },
{
    let mut containers = containers;
    if containers.len() == 0 {
        return Err(BackendError::NotFound);
    }
    let first = containers.swap_remove(0);
    match first.id {
        Some(id) => Ok(id),
        None => Err(BackendError::NotFound),
    }
}

/// The status reported once an app's containers have been started: ready.
pub fn status_after_start() -> (s: crate::types::AppStatus)
    ensures
        s == crate::types::AppStatus::Ready,
{
    crate::types::AppStatus::Ready
}

/// The status reported once an app's containers have been stopped: stopped.
pub fn status_after_stop() -> (s: crate::types::AppStatus)
    ensures
        s == crate::types::AppStatus::Stopped,
{
    crate::types::AppStatus::Stopped
}

/// The labels of the first listed container that has labels.
pub open spec fn first_labels(cs: Seq<ContainerInfoView>) -> Option<Map<Seq<char>, Seq<char>>>
    decreases cs.len(),
{
    if cs.len() == 0 {
        None
    } else if cs[0].labels is Some {
        cs[0].labels
    } else {
        first_labels(cs.drop_first())
    }
}

/// What looking up an app among its containers gives: not found when it has
/// no containers; an internal error when none of them has labels or the
/// first labels describe no app; otherwise the app those labels describe.
pub open spec fn app_lookup(cs: Seq<ContainerInfoView>, id: AppId) -> Result<AppView, crate::backend::error::ErrorView> {
    if cs.len() == 0 {
        Err(crate::backend::error::ErrorView::NotFound)
    } else {
        match first_labels(cs) {
            None => Err(crate::backend::error::ErrorView::Internal(
                "No containers with labels found for app ID "@ + decimal(id as nat),
            )),
            Some(m) => match app_from_labels(m, id) {
                Some(a) => Ok(a),
                None => Err(crate::backend::error::ErrorView::Internal(
                    "Failed to reconstruct AppConfig from labels for app ID "@ + decimal(id as nat),
                )),
            },
        }
    }
}

/// The app with the given ID, read from the labels of its containers.
pub fn app_from_containers(containers: &Vec<ContainerInfo>, id: AppId) -> (r: Result<App, BackendError>)
    ensures
        crate::backend::error::result_view(r) == app_lookup(infos_view(containers@), id),
{
    let ghost cs = infos_view(containers@);
    if containers.len() == 0 {
        return Err(BackendError::NotFound);
    }
    let mut i: usize = 0;
    assert(cs.skip(0) =~= cs);
    while i < containers.len()
        invariant
            i <= containers.len(),
            containers.len() > 0,
            cs == infos_view(containers@),
            first_labels(cs) == first_labels(cs.skip(i as int)),
        decreases containers.len() - i,
    {
        assert(cs.skip(i as int)[0] == containers@[i as int]@);
        if let Some(labels) = &containers[i].labels {
            return match make_app_config_from_labels(labels, id) {
                Some(app) => Ok(app),
                None => {
                    let mut msg = String::from_str("Failed to reconstruct AppConfig from labels for app ID ");
                    crate::text::push_decimal(&mut msg, id);
                    Err(BackendError::InternalError(msg))
                },
            };
        }
        assert(cs.skip(i as int).drop_first() =~= cs.skip(i + 1));
        i = i + 1;
    }
    assert(cs.skip(i as int).len() == 0);
    let mut msg = String::from_str("No containers with labels found for app ID ");
    crate::text::push_decimal(&mut msg, id);
    Err(BackendError::InternalError(msg))
}

/// The app that a listed container describes: one with labels that hold an
/// ID that reads as a `u64` and describe an app with that ID.
pub open spec fn listed_app(c: ContainerInfoView) -> Option<AppView> {
    match c.labels {
        Some(m) => if m.contains_key(label_id()) && parse_unsigned(m[label_id()], u64::MAX as nat) is Some {
            app_from_labels(m, parse_unsigned(m[label_id()], u64::MAX as nat)->0 as u64)
        } else {
            None
        },
        None => None,
    }
}

/// The apps that the listed containers describe, one per container that
/// describes one, in the order listed.
pub open spec fn listed_apps(cs: Seq<ContainerInfoView>) -> Seq<AppView>
    decreases cs.len(),
{
    if cs.len() == 0 {
        Seq::empty()
    } else {
        let r = listed_apps(cs.drop_last());
        match listed_app(cs.last()) {
            Some(a) => r.push(a),
            None => r,
        }
    }
}

/// The last app in `apps` with ID `id`.
pub open spec fn last_with_id(apps: Seq<AppView>, id: AppId) -> Option<AppView>
    decreases apps.len(),
{
    if apps.len() == 0 {
        None
    } else if apps.last().id == id {
        Some(apps.last())
    } else {
        last_with_id(apps.drop_last(), id)
    }
}

/// The views of a list of apps.
pub open spec fn apps_view(s: Seq<App>) -> Seq<AppView> {
    s.map_values(|a: App| a@)
}

/// Whether `r` holds one app for each ID that the listed containers
/// describe an app for: the one the last such container describes.
pub open spec fn collects_apps(r: Seq<AppView>, cs: Seq<ContainerInfoView>) -> bool {
    let apps = listed_apps(cs);
    &&& forall|i: int, j: int| 0 <= i < j < r.len() ==> r[i].id != r[j].id
    &&& forall|i: int| 0 <= i < r.len() ==> Some(#[trigger] r[i]) == last_with_id(apps, r[i].id)
    &&& forall|id: AppId|
        #[trigger] last_with_id(apps, id) is Some ==> exists|i: int| 0 <= i < r.len() && r[i].id == id
}

/// Reads an app from a listed container, if it describes one.
fn read_listed_app(c: &ContainerInfo) -> (r: Option<App>)
    ensures
        crate::types::opt_app_view(r) == listed_app(c@),
{
    match &c.labels {
        Some(labels) => match labels.get("app-controller-id") {
            Some(s) => match parse_u64(s.as_str()) {
                Some(app_id) => make_app_config_from_labels(labels, app_id),
                None => None,
            },
            None => None,
        },
        None => None,
    }
}

/// Adding the app that one more listed container describes: it replaces the
/// app with the same ID, or comes last when there is none.
proof fn lemma_collect_step(
    old_r: Seq<AppView>,
    nr: Seq<AppView>,
    cs_prev: Seq<ContainerInfoView>,
    cs_next: Seq<ContainerInfoView>,
    a: AppView,
    k: int,
)
    requires
        collects_apps(old_r, cs_prev),
        listed_apps(cs_next) == listed_apps(cs_prev).push(a),
        0 <= k <= old_r.len(),
        forall|q: int| 0 <= q < k ==> old_r[q].id != a.id,
        k < old_r.len() ==> old_r[k].id == a.id && nr == old_r.update(k, a),
        k == old_r.len() ==> nr == old_r.push(a),
    ensures
        collects_apps(nr, cs_next),
{
    let prev_apps = listed_apps(cs_prev);
    let apps = listed_apps(cs_next);
    assert(apps.drop_last() =~= prev_apps);
    assert forall|id: AppId| #[trigger] last_with_id(apps, id) == (if id == a.id {
        Some(a)
    } else {
        last_with_id(prev_apps, id)
    }) by {}
    assert forall|i: int, j: int| 0 <= i < j < nr.len() implies nr[i].id != nr[j].id by {
        if j == k {
            if i < k {
            } else {
            }
        } else if i == k {
            assert(old_r[k].id == a.id || k == old_r.len());
        }
    }
    assert forall|q: int| 0 <= q < nr.len() implies Some(#[trigger] nr[q]) == last_with_id(apps, nr[q].id) by {
        if q != k {
            assert(nr[q] == old_r[q]);
            assert(Some(old_r[q]) == last_with_id(prev_apps, old_r[q].id));
            if old_r[q].id == a.id {
                if k < old_r.len() {
                    assert(old_r[k].id == old_r[q].id);
                } else {
                    assert(old_r[q].id != a.id);
                }
            }
        }
    }
    assert forall|id: AppId| #[trigger] last_with_id(apps, id) is Some implies exists|q: int|
        0 <= q < nr.len() && nr[q].id == id by {
        if id == a.id {
            assert(nr[k].id == id);
        } else {
            assert(last_with_id(prev_apps, id) is Some);
            let q = choose|q: int| 0 <= q < old_r.len() && old_r[q].id == id;
            assert(nr[q].id == id);
        }
    }
}

/// Collect unique apps by ID, reconstructing each app from the labels of
/// the listed containers; where several containers describe an app with the
/// same ID, the last one listed wins.
pub fn apps_from_containers(containers: &Vec<ContainerInfo>) -> (r: Vec<App>)
    ensures
        collects_apps(apps_view(r@), infos_view(containers@)),
{
    let ghost cs = infos_view(containers@);
    let mut r: Vec<App> = Vec::new();
    for i in 0..containers.len()
        invariant
            cs == infos_view(containers@),
            collects_apps(apps_view(r@), cs.take(i as int)),
    {
        let ghost prev = cs.take(i as int);
        assert(cs.take(i + 1).drop_last() =~= prev);
        assert(cs.take(i + 1).last() == containers@[i as int]@);
        let ghost old_r = apps_view(r@);
        if let Some(app) = read_listed_app(&containers[i]) {
            let ghost a = app@;
            let ghost apps = listed_apps(cs.take(i + 1));
            assert(apps =~= listed_apps(prev).push(a));
            let mut k: usize = 0;
            while k < r.len() && r[k].id != app.id
                invariant
                    k <= r.len(),
                    forall|q: int| 0 <= q < k ==> r@[q].id != app.id,
                decreases r.len() - k,
            {
                k = k + 1;
            }
            if k < r.len() {
                r.set(k, app);
                assert(apps_view(r@) =~= old_r.update(k as int, a));
            } else {
                r.push(app);
                assert(apps_view(r@) =~= old_r.push(a));
            }
            proof {
                lemma_collect_step(old_r, apps_view(r@), prev, cs.take(i + 1), a, k as int);
            }
        } else {
            assert(listed_apps(cs.take(i + 1)) =~= listed_apps(prev));
        }
    }
    assert(cs.take(containers.len() as int) =~= cs);
    r
}

/// The port of the VNC server of the X11 host container.
pub const VNC_TCP_PORT: u16 = 5910;

/// The port of the VNC WebSocket of the X11 host container.
pub const VNC_WS_PORT: u16 = 5911;

/// The port on which the Docker daemon container listens.
pub const DOCKER_DAEMON_PORT: u16 = 2375;

/// How to create one container: what Docker is given for it.
#[derive(Debug)]
pub struct ContainerPlan {
    pub name: String,
    pub image: String,
    pub labels: Option<LabelMap>,
    pub env: Option<Vec<String>>,
    pub cmd: Option<Vec<String>>,
    pub exposed_ports: Option<Vec<String>>,
    pub tty: Option<bool>,
    pub privileged: Option<bool>,
    pub network_mode: Option<String>,
    pub auto_remove: Option<bool>,
    pub binds: Option<Vec<String>>,
}

/// What a container plan holds.
#[verifier::ext_equal]
pub struct ContainerPlanView {
    pub name: Seq<char>,
    pub image: Seq<char>,
    pub labels: Option<Map<Seq<char>, Seq<char>>>,
    pub env: Option<Seq<Seq<char>>>,
    pub cmd: Option<Seq<Seq<char>>>,
    pub exposed_ports: Option<Seq<Seq<char>>>,
    pub tty: Option<bool>,
    pub privileged: Option<bool>,
    pub network_mode: Option<Seq<char>>,
    pub auto_remove: Option<bool>,
    pub binds: Option<Seq<Seq<char>>>,
}

/// The view of an optional list of strings.
pub open spec fn opt_strings_view(o: Option<Vec<String>>) -> Option<Seq<Seq<char>>> {
    match o {
        Some(v) => Some(crate::types::strings_view(v@)),
        None => None,
    }
}

impl View for ContainerPlan {
    type V = ContainerPlanView;

    open spec fn view(&self) -> ContainerPlanView {
        ContainerPlanView {
            name: self.name@,
            image: self.image@,
            labels: match self.labels {
                Some(l) => Some(l@),
                None => None,
            },
            env: opt_strings_view(self.env),
            cmd: opt_strings_view(self.cmd),
            exposed_ports: opt_strings_view(self.exposed_ports),
            tty: self.tty,
            privileged: self.privileged,
            network_mode: crate::types::opt_view(self.network_mode),
            auto_remove: self.auto_remove,
            binds: opt_strings_view(self.binds),
        }
    }
}

/// A plan with a name and an image and nothing else set.
pub open spec fn bare_plan(name: Seq<char>, image: Seq<char>) -> ContainerPlanView {
    ContainerPlanView {
        name,
        image,
        labels: None,
        env: None,
        cmd: None,
        exposed_ports: None,
        tty: None,
        privileged: None,
        network_mode: None,
        auto_remove: None,
        binds: None,
    }
}

fn bare_container(name: String, image: String) -> (p: ContainerPlan)
    ensures
        p@ == bare_plan(name@, image@),
{
    ContainerPlan {
        name,
        image,
        labels: None,
        env: None,
        cmd: None,
        exposed_ports: None,
        tty: None,
        privileged: None,
        network_mode: None,
        auto_remove: None,
        binds: None,
    }
}

/// A list of one string.
fn one_string(a: String) -> (v: Vec<String>)
    ensures
        crate::types::strings_view(v@) == seq![a@],
{
    let mut v: Vec<String> = Vec::new();
    v.push(a);
    assert(crate::types::strings_view(v@) =~= seq![a@]);
    v
}

/// `a` followed by the decimal representation of `n` and by `b`.
fn text_with_number(a: &str, n: u64, b: &str) -> (s: String)
    ensures
        s@ == a@ + decimal(n as nat) + b@,
{
    let mut s = String::from_str(a);
    crate::text::push_decimal(&mut s, n);
    s.append(b);
    s
}

/// The name of the X11 host container of the app named `app_name`.
pub open spec fn x11_container_name(app_name: Seq<char>) -> Seq<char> {
    app_name + "-x11-host"@
}

/// The X11 host container: privileged, removed when it stops, exposing the
/// two VNC ports, with the app's labels and the `x11-host` role.
pub open spec fn x11_plan(app_name: Seq<char>, labels: Map<Seq<char>, Seq<char>>) -> ContainerPlanView {
    ContainerPlanView {
        labels: Some(labels.insert(label_container_type(), role_x11_host())),
        exposed_ports: Some(
            seq![decimal(VNC_TCP_PORT as nat) + "/tcp"@, decimal(VNC_WS_PORT as nat) + "/tcp"@],
        ),
        privileged: Some(true),
        auto_remove: Some(true),
        ..bare_plan(x11_container_name(app_name), "ghcr.io/twizmwazin/app-controller/x11-host"@)
    }
}

/// Plans the X11 host container (whose image is pulled before it is created).
pub fn create_x11_container(app_name: &str, base_labels: &LabelMap) -> (p: ContainerPlan)
    ensures
        p@ == x11_plan(app_name@, base_labels@),
{
    let mut labels = base_labels.clone();
    labels.insert_str("app-controller-container-type", "x11-host");
    let mut ports: Vec<String> = Vec::new();
    ports.push(text_with_number("", VNC_TCP_PORT as u64, "/tcp"));
    ports.push(text_with_number("", VNC_WS_PORT as u64, "/tcp"));
    let mut p = bare_container(
        crate::text::joined(app_name, "-x11-host"),
        String::from_str("ghcr.io/twizmwazin/app-controller/x11-host"),
    );
    p.labels = Some(labels);
    p.exposed_ports = Some(ports);
    p.privileged = Some(true);
    p.auto_remove = Some(true);
    proof {
        reveal_strlit("");
        assert(""@ + decimal(VNC_TCP_PORT as nat) + "/tcp"@ =~= decimal(VNC_TCP_PORT as nat) + "/tcp"@);
        assert(""@ + decimal(VNC_WS_PORT as nat) + "/tcp"@ =~= decimal(VNC_WS_PORT as nat) + "/tcp"@);
        assert(opt_strings_view(p.exposed_ports) =~= x11_plan(app_name@, base_labels@).exposed_ports);
        assert(p@ =~= x11_plan(app_name@, base_labels@));
    }
    p
}

/// The Docker daemon container: privileged, in the network of the X11 host
/// container, removed when it stops, running `dockerd` without TLS on its
/// port, with the app's labels and the `docker-daemon` role.
pub open spec fn docker_daemon_plan(
    app_name: Seq<char>,
    x11_name: Seq<char>,
    labels: Map<Seq<char>, Seq<char>>,
) -> ContainerPlanView {
    ContainerPlanView {
        labels: Some(labels.insert(label_container_type(), role_docker_daemon())),
        cmd: Some(
            seq![
                "dockerd"@,
                "--host=tcp://0.0.0.0:"@ + decimal(DOCKER_DAEMON_PORT as nat),
                "--tls=false"@,
            ],
        ),
        privileged: Some(true),
        network_mode: Some("container:"@ + x11_name),
        auto_remove: Some(true),
        ..bare_plan(app_name + "-docker-daemon"@, "docker:dind"@)
    }
}

/// Plans the Docker daemon container (whose image is pulled before it is
/// created).
pub fn create_docker_daemon_container(
    app_name: &str,
    x11_container_name: &str,
    base_labels: &LabelMap,
) -> (p: ContainerPlan)
    ensures
        p@ == docker_daemon_plan(app_name@, x11_container_name@, base_labels@),
{
    let mut labels = base_labels.clone();
    labels.insert_str("app-controller-container-type", "docker-daemon");
    let mut cmd: Vec<String> = Vec::new();
    cmd.push(String::from_str("dockerd"));
    cmd.push(text_with_number("--host=tcp://0.0.0.0:", DOCKER_DAEMON_PORT as u64, ""));
    cmd.push(String::from_str("--tls=false"));
    let mut p = bare_container(
        crate::text::joined(app_name, "-docker-daemon"),
        String::from_str("docker:dind"),
    );
    p.labels = Some(labels);
    p.cmd = Some(cmd);
    p.privileged = Some(true);
    p.network_mode = Some(crate::text::joined("container:", x11_container_name));
    p.auto_remove = Some(true);
    proof {
        reveal_strlit("");
        assert("--host=tcp://0.0.0.0:"@ + decimal(DOCKER_DAEMON_PORT as nat) + ""@ =~= "--host=tcp://0.0.0.0:"@
            + decimal(DOCKER_DAEMON_PORT as nat));
        assert(opt_strings_view(p.cmd) =~= docker_daemon_plan(app_name@, x11_container_name@, base_labels@).cmd);
        assert(p@ =~= docker_daemon_plan(app_name@, x11_container_name@, base_labels@));
    }
    p
}

/// When the image of an application container is pulled before the
/// container is created: always, only when the image is not present, or
/// never.
#[derive(Debug, Clone, Copy, PartialEq, Eq, Structural)]
pub enum PullRule {
    Always,
    IfAbsent,
    Never,
}

/// The rule for a container: its own policy when it names one (`Always`,
/// `IfNotPresent` or `Never`); otherwise always when the app always pulls
/// images and never when it does not.
pub open spec fn pull_rule(s: ContainerSpecView, always_pull_images: bool) -> PullRule {
    match s.image_pull_policy() {
        Some(crate::types::ImagePullPolicy::Always) => PullRule::Always,
        Some(crate::types::ImagePullPolicy::Never) => PullRule::Never,
        Some(crate::types::ImagePullPolicy::IfNotPresent) => PullRule::IfAbsent,
        None => if always_pull_images {
            PullRule::Always
        } else {
            PullRule::Never
        },
    }
}

/// Whether a rule pulls an image, given whether the image is present.
pub open spec fn rule_pulls(rule: PullRule, present: bool) -> bool {
    match rule {
        PullRule::Always => true,
        PullRule::IfAbsent => !present,
        PullRule::Never => false,
    }
}

/// Whether the image of a container is pulled before the container is
/// created, given whether the image is present: always for `Always`, only
/// when absent for `IfNotPresent`, never for `Never`, and as the app's
/// `always_pull_images` says when the container names no policy.
pub open spec fn should_pull(s: ContainerSpecView, always_pull_images: bool, present: bool) -> bool {
    rule_pulls(pull_rule(s, always_pull_images), present)
}

/// The pull rule of a container.
pub fn pull_rule_for(container: &ContainerSpec, always_pull_images: bool) -> (r: PullRule)
    ensures
        r == pull_rule(container@, always_pull_images),
{
    match container.image_pull_policy() {
        Some(crate::types::ImagePullPolicy::Always) => PullRule::Always,
        Some(crate::types::ImagePullPolicy::Never) => PullRule::Never,
        Some(crate::types::ImagePullPolicy::IfNotPresent) => PullRule::IfAbsent,
        None => if always_pull_images {
            PullRule::Always
        } else {
            PullRule::Never
        },
    }
}

/// Whether a rule pulls an image, given whether the image is present.
pub fn pulls(rule: PullRule, present: bool) -> (b: bool)
    ensures
        b == rule_pulls(rule, present),
{
    match rule {
        PullRule::Always => true,
        PullRule::IfAbsent => !present,
        PullRule::Never => false,
    }
}

/// Whether to pull the image of a container before creating it, given
/// whether the image is present.
pub fn pull_before_create(container: &ContainerSpec, always_pull_images: bool, present: bool) -> (b: bool)
    ensures
        b == should_pull(container@, always_pull_images, present),
{
    pulls(pull_rule_for(container, always_pull_images), present)
}

/// The volume that holds the outputs of the app's containers.
pub open spec fn output_volume(app_name: Seq<char>) -> Seq<char> {
    app_name + "-outputs"@
}

/// The volume that holds the configuration data of the container at `index`.
pub open spec fn config_volume(app_name: Seq<char>, index: nat) -> Seq<char> {
    app_name + "-container-"@ + decimal(index) + "-config"@
}

/// The environment of an application container: the display, where its
/// output goes, where its configuration is (when it has some), and where
/// the Docker daemon listens (when the app has one).
pub open spec fn app_env(index: nat, has_config: bool, enable_docker: bool) -> Seq<Seq<char>> {
    seq!["DISPLAY=:0.0"@, "AC_CONTAINER_OUTPUT=/outputs/container-"@ + decimal(index) + ".log"@]
        + (if has_config {
        seq!["AC_CONTAINER_CONFIG=/etc/app-controller/config/config"@]
    } else {
        Seq::empty()
    }) + (if enable_docker {
        seq!["DOCKER_HOST=tcp://127.0.0.1:"@ + decimal(DOCKER_DAEMON_PORT as nat)]
    } else {
        Seq::empty()
    })
}

/// The volumes that an application container mounts: the outputs, and its
/// configuration when it has some.
pub open spec fn app_binds(app_name: Seq<char>, index: nat, has_config: bool) -> Seq<Seq<char>> {
    seq![output_volume(app_name) + ":/outputs"@] + (if has_config {
        seq![config_volume(app_name, index) + ":/etc/app-controller/config"@]
    } else {
        Seq::empty()
    })
}

/// An application container: its image and terminal setting, its
/// environment and volumes, in the network of the X11 host container,
/// removed when it stops, with the app's labels, the `application` role and
/// its index.
pub open spec fn app_container_plan(
    app_name: Seq<char>,
    labels: Map<Seq<char>, Seq<char>>,
    index: nat,
    s: ContainerSpecView,
    enable_docker: bool,
) -> ContainerPlanView {
    ContainerPlanView {
        labels: Some(
            labels.insert(label_container_type(), role_application()).insert(
                label_container_index(),
                decimal(index),
            ),
        ),
        env: Some(app_env(index, s.config() is Some, enable_docker)),
        tty: Some(s.tty()),
        network_mode: Some("container:"@ + x11_container_name(app_name)),
        auto_remove: Some(true),
        binds: Some(app_binds(app_name, index, s.config() is Some)),
        ..bare_plan(app_name + "-app-"@ + decimal(index), s.image())
    }
}

/// The short-lived container that writes the configuration data of the
/// container at `index` into its volume.
pub open spec fn config_writer_plan(app_name: Seq<char>, index: nat, data: Seq<char>) -> ContainerPlanView {
    ContainerPlanView {
        env: Some(seq!["CONFIG_DATA="@ + data]),
        cmd: Some(seq!["sh"@, "-c"@, "echo \"$CONFIG_DATA\" > /config/config"@]),
        auto_remove: Some(true),
        binds: Some(seq![config_volume(app_name, index) + ":/config"@]),
        ..bare_plan(config_volume(app_name, index) + "-temp-config"@, "alpine:latest"@)
    }
}

/// What is done for one application container: pull its image as its rule
/// says (for `IfAbsent`, only when the image is not present),
/// write its configuration data (when it has some), then create it.
#[derive(Debug)]
pub struct AppContainerStep {
    pub pull: PullRule,
    pub config_writer: Option<ContainerPlan>,
    pub container: ContainerPlan,
}

/// What a step holds.
#[verifier::ext_equal]
pub struct AppContainerStepView {
    pub pull: PullRule,
    pub config_writer: Option<ContainerPlanView>,
    pub container: ContainerPlanView,
}

impl View for AppContainerStep {
    type V = AppContainerStepView;

    open spec fn view(&self) -> AppContainerStepView {
        AppContainerStepView {
            pull: self.pull,
            config_writer: match self.config_writer {
                Some(w) => Some(w@),
                None => None,
            },
            container: self.container@,
        }
    }
}

/// The step for the container at `index`.
pub open spec fn app_container_step(
    c: AppConfigView,
    app_name: Seq<char>,
    labels: Map<Seq<char>, Seq<char>>,
    index: nat,
    s: ContainerSpecView,
) -> AppContainerStepView {
    AppContainerStepView {
        pull: pull_rule(s, c.always_pull_images),
        config_writer: match s.config() {
            Some(data) => Some(config_writer_plan(app_name, index, data)),
            None => None,
        },
        container: app_container_plan(app_name, labels, index, s, c.enable_docker),
    }
}

/// Plans the step for one application container.
fn plan_app_container(
    config: &AppConfig,
    app_name: &str,
    labels: &LabelMap,
    index: usize,
    container: &ContainerSpec,
) -> (step: AppContainerStep)
    ensures
        step@ == app_container_step(config@, app_name@, labels@, index as nat, container@),
{
    let pull = pull_rule_for(container, config.always_pull_images);
    let config_data = container.config();
    let mut env: Vec<String> = Vec::new();
    env.push(String::from_str("DISPLAY=:0.0"));
    env.push(text_with_number("AC_CONTAINER_OUTPUT=/outputs/container-", index as u64, ".log"));
    if config_data.is_some() {
        env.push(String::from_str("AC_CONTAINER_CONFIG=/etc/app-controller/config/config"));
    }
    if config.enable_docker {
        env.push(text_with_number("DOCKER_HOST=tcp://127.0.0.1:", DOCKER_DAEMON_PORT as u64, ""));
    }
    let mut app_labels = labels.clone();
    app_labels.insert_str("app-controller-container-type", "application");
    app_labels.insert(String::from_str("app-controller-container-index"), decimal_string(index as u64));
    let output_volume_name = crate::text::joined(app_name, "-outputs");
    let mut binds: Vec<String> = Vec::new();
    binds.push(crate::text::joined(output_volume_name.as_str(), ":/outputs"));
    let mut config_volume_name = crate::text::joined(app_name, "-container-");
    crate::text::push_decimal(&mut config_volume_name, index as u64);
    config_volume_name.append("-config");
    let config_writer = match config_data {
        Some(data) => {
            let mut w = bare_container(
                crate::text::joined(config_volume_name.as_str(), "-temp-config"),
                String::from_str("alpine:latest"),
            );
            w.env = Some(one_string(crate::text::joined("CONFIG_DATA=", data)));
            let mut cmd: Vec<String> = Vec::new();
            cmd.push(String::from_str("sh"));
            cmd.push(String::from_str("-c"));
            cmd.push(String::from_str("echo \"$CONFIG_DATA\" > /config/config"));
            w.cmd = Some(cmd);
            w.binds = Some(one_string(crate::text::joined(config_volume_name.as_str(), ":/config")));
            w.auto_remove = Some(true);
            binds.push(crate::text::joined(config_volume_name.as_str(), ":/etc/app-controller/config"));
            proof {
                assert(opt_strings_view(w.cmd) =~= config_writer_plan(app_name@, index as nat, data@).cmd);
                assert(w@ =~= config_writer_plan(app_name@, index as nat, data@));
            }
            Some(w)
        },
        None => None,
    };
    let mut name = crate::text::joined(app_name, "-app-");
    crate::text::push_decimal(&mut name, index as u64);
    let mut p = bare_container(name, String::from_str(container.image()));
    p.labels = Some(app_labels);
    p.env = Some(env);
    p.tty = Some(container.tty());
    p.network_mode = Some(crate::text::joined("container:", crate::text::joined(app_name, "-x11-host").as_str()));
    p.auto_remove = Some(true);
    p.binds = Some(binds);
    let step = AppContainerStep { pull, config_writer, container: p };
    proof {
        let s = container@;
        reveal_strlit("");
        assert("DOCKER_HOST=tcp://127.0.0.1:"@ + decimal(DOCKER_DAEMON_PORT as nat) + ""@
            =~= "DOCKER_HOST=tcp://127.0.0.1:"@ + decimal(DOCKER_DAEMON_PORT as nat));
        assert(opt_strings_view(step.container.env) =~= Some(
            app_env(index as nat, s.config() is Some, config.enable_docker),
        ));
        assert(opt_strings_view(step.container.binds) =~= Some(
            app_binds(app_name@, index as nat, s.config() is Some),
        ));
        assert(step.container@ =~= app_container_plan(
            app_name@,
            labels@,
            index as nat,
            s,
            config.enable_docker,
        ));
        assert(step@ =~= app_container_step(config@, app_name@, labels@, index as nat, s));
    }
    step
}

/// Everything that creating an app does, in order: pull the X11 host image
/// and create the X11 host container; when the app has a Docker daemon,
/// pull its image and create it; carry out the step of each application
/// container, by index; then, when the app starts on creation, start the
/// created containers in the order they were created. The app is handed back.
#[derive(Debug)]
pub struct DockerAppPlan {
    pub id: u32,
    pub app_name: String,
    pub x11: ContainerPlan,
    pub docker_daemon: Option<ContainerPlan>,
    pub steps: Vec<AppContainerStep>,
    pub autostart: bool,
    pub app: App,
}

/// What an app plan holds.
#[verifier::ext_equal]
pub struct DockerAppPlanView {
    pub id: u32,
    pub app_name: Seq<char>,
    pub x11: ContainerPlanView,
    pub docker_daemon: Option<ContainerPlanView>,
    pub steps: Seq<AppContainerStepView>,
    pub autostart: bool,
    pub app: AppView,
}

impl View for DockerAppPlan {
    type V = DockerAppPlanView;

    open spec fn view(&self) -> DockerAppPlanView {
        DockerAppPlanView {
            id: self.id,
            app_name: self.app_name@,
            x11: self.x11@,
            docker_daemon: match self.docker_daemon {
                Some(d) => Some(d@),
                None => None,
            },
            steps: self.steps@.map_values(|s: AppContainerStep| s@),
            autostart: self.autostart,
            app: self.app@,
        }
    }
}

/// The name of the app's containers: the app's name and its ID in eight
/// hexadecimal digits.
pub open spec fn docker_app_name(c: AppConfigView, id: u32) -> Seq<char> {
    c.name + "-"@ + hex_padded(id as nat, 8)
}

/// The plan for creating an app with the given configuration and ID.
pub open spec fn docker_plan(c: AppConfigView, id: u32) -> DockerAppPlanView {
    let app_name = docker_app_name(c, id);
    let labels = docker_app_labels(c, id);
    DockerAppPlanView {
        id,
        app_name,
        x11: x11_plan(app_name, labels),
        docker_daemon: if c.enable_docker {
            Some(docker_daemon_plan(app_name, x11_container_name(app_name), labels))
        } else {
            None
        },
        steps: c.container_specs().map(
            |i: int, s: ContainerSpecView| app_container_step(c, app_name, labels, i as nat, s),
        ),
        autostart: c.autostart,
        app: AppView { id: id as AppId, config: c },
    }
}

/// Plans the creation of an app with the given configuration and ID.
pub fn plan_app(config: AppConfig, unique_id: u32) -> (plan: DockerAppPlan)
    ensures
        plan@ == docker_plan(config@, unique_id),
{
    let mut app_name = config.name.clone();
    app_name.append("-");
    app_name.append(hex8_string(unique_id).as_str());
    let labels = create_app_labels(&config, unique_id);
    let containers = config.get_containers();
    let x11 = create_x11_container(app_name.as_str(), &labels);
    let x11_name = crate::text::joined(app_name.as_str(), "-x11-host");
    let docker_daemon = if config.enable_docker {
        Some(create_docker_daemon_container(app_name.as_str(), x11_name.as_str(), &labels))
    } else {
        None
    };
    let ghost specs = config@.container_specs();
    let mut steps: Vec<AppContainerStep> = Vec::new();
    for i in 0..containers.len()
        invariant
            specs == config@.container_specs(),
            specs_view(containers@) == specs,
            steps@.len() == i,
            forall|j: int|
                0 <= j < i ==> #[trigger] steps@[j]@ == app_container_step(
                    config@,
                    app_name@,
                    labels@,
                    j as nat,
                    specs[j],
                ),
    {
        assert(containers@[i as int]@ == specs[i as int]);
        steps.push(plan_app_container(&config, app_name.as_str(), &labels, i, &containers[i]));
    }
    let autostart = config.autostart;
    let plan = DockerAppPlan {
        id: unique_id,
        app_name,
        x11,
        docker_daemon,
        steps,
        autostart,
        app: App { id: unique_id as u64, config },
    };
    assert(plan@.steps =~= docker_plan(plan@.app.config, unique_id).steps);
    assert(plan@ =~= docker_plan(plan@.app.config, unique_id));
    plan
}

/// Plans the creation of an app with the given configuration under a fresh
/// random ID.
pub fn new_app_plan(config: AppConfig) -> (plan: DockerAppPlan)
    ensures
        plan@ == docker_plan(config@, plan.id),
{
    let unique_id = crate::backend::random_app_id();
    plan_app(config, unique_id)
}

/// The plan starts the created containers exactly when the configuration
/// asks for the app to start on creation, has a Docker daemon exactly when
/// it asks for one, and hands back the app with the given ID and the
/// configuration as given.
pub proof fn lemma_plan_follows_config(c: AppConfigView, id: u32)
    ensures
        docker_plan(c, id).autostart == c.autostart,
        docker_plan(c, id).docker_daemon is Some == c.enable_docker,
        docker_plan(c, id).app.id == id as AppId,
        docker_plan(c, id).app.config == c,
        docker_plan(c, id).steps.len() == c.container_specs().len(),
{
}

/// The labels of every container that the plan creates describe the app:
/// they are the app's labels with at most a role and an index added.
pub proof fn lemma_plan_labels(c: AppConfigView, id: u32)
    ensures
        labels_of_app_container(docker_plan(c, id).x11.labels->0, c, id),
        docker_plan(c, id).docker_daemon matches Some(d) ==> labels_of_app_container(d.labels->0, c, id),
        forall|i: int|
            0 <= i < docker_plan(c, id).steps.len() ==> labels_of_app_container(
                (#[trigger] docker_plan(c, id).steps[i]).container.labels->0,
                c,
                id,
            ),
{
}

/// The configuration data of a container reaches it: before the container is
/// created, a writer puts the data into the container's configuration
/// volume, which the container mounts at `/etc/app-controller/config`, and
/// `AC_CONTAINER_CONFIG` points to the file there. When the app has a Docker
/// daemon, every application container is told where it listens.
pub proof fn lemma_config_reaches_container(c: AppConfigView, id: u32, i: int)
    requires
        0 <= i < c.container_specs().len(),
    ensures
        ({
            let p = docker_plan(c, id);
            let step = p.steps[i];
            let vol = config_volume(p.app_name, i as nat);
            &&& step.container.image == c.container_specs()[i].image()
            &&& step.container.env->0.contains("AC_CONTAINER_OUTPUT=/outputs/container-"@ + decimal(i as nat) + ".log"@)
            &&& (c.container_specs()[i].config() matches Some(data) ==> {
                &&& step.config_writer matches Some(w) && w.env == Some(seq!["CONFIG_DATA="@ + data])
                    && w.binds == Some(seq![vol + ":/config"@])
                &&& step.container.env->0.contains("AC_CONTAINER_CONFIG=/etc/app-controller/config/config"@)
                &&& step.container.binds->0.contains(vol + ":/etc/app-controller/config"@)
            })
            &&& (c.container_specs()[i].config() is None ==> step.config_writer is None
                && !step.container.env->0.contains("AC_CONTAINER_CONFIG=/etc/app-controller/config/config"@))
            &&& (c.enable_docker ==> p.docker_daemon is Some && step.container.env->0.contains(
                "DOCKER_HOST=tcp://127.0.0.1:"@ + decimal(DOCKER_DAEMON_PORT as nat),
            ))
        }),
{
    let p = docker_plan(c, id);
    let s = c.container_specs()[i];
    let env = app_env(i as nat, s.config() is Some, c.enable_docker);
    let out = "AC_CONTAINER_OUTPUT=/outputs/container-"@ + decimal(i as nat) + ".log"@;
    let cfg = "AC_CONTAINER_CONFIG=/etc/app-controller/config/config"@;
    assert(env[1] == out);
    if s.config() is Some {
        assert(env[2] == cfg);
        let binds = app_binds(p.app_name, i as nat, true);
        assert(binds[1] == config_volume(p.app_name, i as nat) + ":/etc/app-controller/config"@);
    } else {
        lemma_no_config_env(i as nat, c.enable_docker);
    }
    if c.enable_docker {
        assert(env[env.len() - 1] == "DOCKER_HOST=tcp://127.0.0.1:"@ + decimal(DOCKER_DAEMON_PORT as nat));
    }
}

/// Without configuration data, an application container is not told where
/// configuration is.
proof fn lemma_no_config_env(index: nat, enable_docker: bool)
    ensures
        !app_env(index, false, enable_docker).contains("AC_CONTAINER_CONFIG=/etc/app-controller/config/config"@),
{
    let env = app_env(index, false, enable_docker);
    let cfg = "AC_CONTAINER_CONFIG=/etc/app-controller/config/config"@;
    reveal_strlit("AC_CONTAINER_CONFIG=/etc/app-controller/config/config");
    reveal_strlit("DISPLAY=:0.0");
    reveal_strlit("AC_CONTAINER_OUTPUT=/outputs/container-");
    reveal_strlit("DOCKER_HOST=tcp://127.0.0.1:");
    assert forall|j: int| 0 <= j < env.len() implies env[j] != cfg by {
        if j == 0 {
            assert(env[0][0] != cfg[0]);
        } else if j == 1 {
            assert(env[1][13] != cfg[13]);
        } else {
            assert(env[j][0] != cfg[0]);
        }
    }
}

/// Reading an app back from containers whose labels all describe it (as
/// the labels of the containers that creating it makes do) gives the app
/// with its ID and the configuration as labels remember it.
pub proof fn lemma_get_app_after_create(c: AppConfigView, id: u32, cs: Seq<ContainerInfoView>)
    requires
        exists|i: int| 0 <= i < cs.len() && (#[trigger] cs[i]).labels is Some,
        forall|i: int|
            0 <= i < cs.len() && (#[trigger] cs[i]).labels is Some ==> labels_of_app_container(
                cs[i].labels->0,
                c,
                id,
            ),
    ensures
        app_lookup(cs, id as AppId) == Ok::<AppView, crate::backend::error::ErrorView>(
            AppView { id: id as AppId, config: docker_stored_config(c) },
        ),
    decreases cs.len(),
{
    if cs[0].labels is Some {
        let m = cs[0].labels->0;
        lemma_labels_roundtrip(c, id, m);
        lemma_decodes_unique(m, decoded_containers(m), docker_stored_config(c).containers);
    } else {
        let rest = cs.drop_first();
        let i = choose|i: int| 0 <= i < cs.len() && (#[trigger] cs[i]).labels is Some;
        assert(rest[i - 1] == cs[i]);
        assert forall|j: int| 0 <= j < rest.len() && (#[trigger] rest[j]).labels is Some implies labels_of_app_container(
            rest[j].labels->0,
            c,
            id,
        ) by {
            assert(rest[j] == cs[j + 1]);
        }
        lemma_get_app_after_create(c, id, rest);
        assert(first_labels(cs) == first_labels(rest));
    }
}

/// A container whose labels describe an app is listed as that app, under
/// the ID its labels hold.
pub proof fn lemma_listed_after_create(c: AppConfigView, id: u32, info: ContainerInfoView)
    requires
        info.labels is Some,
        labels_of_app_container(info.labels->0, c, id),
    ensures
        listed_app(info) == Some(AppView { id: id as AppId, config: docker_stored_config(c) }),
{
    let m = info.labels->0;
    lemma_labels_roundtrip(c, id, m);
    lemma_decodes_unique(m, decoded_containers(m), docker_stored_config(c).containers);
}

/// The label filter `app-controller-id={id}`, which selects the containers
/// of an app.
pub open spec fn id_filter(id: AppId) -> Seq<char> {
    label_id() + "="@ + decimal(id as nat)
}

/// The filter `{key}={value}`.
pub open spec fn label_filter(key: Seq<char>, value: Seq<char>) -> Seq<char> {
    key + "="@ + value
}

/// Helper to create label filters for Docker API calls: the containers of the app.
pub fn create_app_filters(id: AppId) -> (f: Vec<String>)
    ensures
        crate::types::strings_view(f@) == seq![id_filter(id)],
{
    let f = one_string(text_with_number("app-controller-id=", id, ""));
    proof {
        reveal_strlit("app-controller-id=");
        reveal_strlit("app-controller-id");
        reveal_strlit("=");
        reveal_strlit("");
        assert("app-controller-id="@ + decimal(id as nat) + ""@ =~= id_filter(id));
    }
    f
}

/// The label filters that select the containers of every app: those that
/// carry an `app-controller-id` label.
pub fn all_apps_filters() -> (f: Vec<String>)
    ensures
        crate::types::strings_view(f@) == seq![label_id()],
{
    one_string(String::from_str("app-controller-id"))
}

/// Helper to create label filters with additional constraints: the
/// containers of the app that also carry each of the given labels.
pub fn create_app_filters_with_labels(id: AppId, extra_labels: &Vec<(String, String)>) -> (f: Vec<String>)
    ensures
        crate::types::strings_view(f@) == seq![id_filter(id)] + extra_labels@.map_values(
            |p: (String, String)| label_filter(p.0@, p.1@),
        ),
{
    let mut f = create_app_filters(id);
    let ghost first = crate::types::strings_view(f@);
    assert(f@.len() == first.len());
    let ghost want = extra_labels@.map_values(|p: (String, String)| label_filter(p.0@, p.1@));
    for i in 0..extra_labels.len()
        invariant
            f@.len() == 1 + i,
            first.len() == 1,
            want == extra_labels@.map_values(|p: (String, String)| label_filter(p.0@, p.1@)),
            f@[0]@ == first[0],
            forall|j: int| 0 <= j < i ==> #[trigger] f@[1 + j]@ == want[j],
    {
        let mut item = crate::text::joined(extra_labels[i].0.as_str(), "=");
        item.append(extra_labels[i].1.as_str());
        f.push(item);
    }
    assert forall|j: int| 0 <= j < f@.len() implies #[trigger] crate::types::strings_view(f@)[j] == (first + want)[j] by {
        if j >= 1 {
            assert(f@[1 + (j - 1)]@ == want[j - 1]);
        }
    }
    assert(crate::types::strings_view(f@) =~= first + want);
    f
}

/// The filters that select the X11 host container of an app.
pub fn x11_host_filters(id: AppId) -> (f: Vec<String>)
    ensures
        crate::types::strings_view(f@) == seq![id_filter(id), label_filter(label_container_type(), role_x11_host())],
{
    let mut extra: Vec<(String, String)> = Vec::new();
    extra.push((String::from_str("app-controller-container-type"), String::from_str("x11-host")));
    let f = create_app_filters_with_labels(id, &extra);
    assert(crate::types::strings_view(f@) =~= seq![id_filter(id), label_filter(label_container_type(), role_x11_host())]);
    f
}

/// The filters that select the application container of an app at `index`.
pub fn app_container_filters(id: AppId, index: usize) -> (f: Vec<String>)
    ensures
        crate::types::strings_view(f@) == seq![
            id_filter(id),
            label_filter(label_container_type(), role_application()),
            label_filter(label_container_index(), decimal(index as nat)),
        ],
{
    let mut extra: Vec<(String, String)> = Vec::new();
    extra.push((String::from_str("app-controller-container-type"), String::from_str("application")));
    extra.push((String::from_str("app-controller-container-index"), decimal_string(index as u64)));
    let f = create_app_filters_with_labels(id, &extra);
    assert(crate::types::strings_view(f@) =~= seq![
        id_filter(id),
        label_filter(label_container_type(), role_application()),
        label_filter(label_container_index(), decimal(index as nat)),
    ]);
    f
}

/// The first address that is given and not empty.
pub open spec fn first_address(ips: Seq<Option<Seq<char>>>) -> Option<Seq<char>>
    decreases ips.len(),
{
    if ips.len() == 0 {
        None
    } else if ips[0] is Some && ips[0]->0.len() > 0 {
        ips[0]
    } else {
        first_address(ips.drop_first())
    }
}

/// Where an app is reached: the first non-empty address among the networks
/// of its X11 host container, on the VNC WebSocket port; not found when
/// there is none.
pub fn address_from_networks(ips: &Vec<Option<String>>) -> (r: Result<(crate::types::IpAddr, u16), BackendError>)
    ensures
        match first_address(ips@.map_values(|o: Option<String>| crate::types::opt_view(o))) {
            Some(ip) => r matches Ok(a) && a.0@ == ip && a.1 == VNC_WS_PORT,
            None => r matches Err(BackendError::NotFound),
        },
{
    let ghost all = ips@.map_values(|o: Option<String>| crate::types::opt_view(o));
    let mut i: usize = 0;
    assert(all.skip(0) =~= all);
    while i < ips.len()
        invariant
            i <= ips.len(),
            all == ips@.map_values(|o: Option<String>| crate::types::opt_view(o)),
            first_address(all) == first_address(all.skip(i as int)),
        decreases ips.len() - i,
    {
        assert(all.skip(i as int)[0] == crate::types::opt_view(ips@[i as int]));
        if let Some(ip) = &ips[i] {
            if ip.as_str().unicode_len() > 0 {
                return Ok((ip.clone(), VNC_WS_PORT));
            }
        }
        assert(all.skip(i as int).drop_first() =~= all.skip(i + 1));
        i = i + 1;
    }
    assert(all.skip(i as int).len() == 0);
    Err(BackendError::NotFound)
}

/// A piece of what a container wrote, by the stream it came on.
#[derive(Debug)]
pub enum LogChunk {
    StdOut(Vec<u8>),
    StdErr(Vec<u8>),
    StdIn(Vec<u8>),
    Console(Vec<u8>),
}

/// The text that `String::from_utf8_lossy` makes of `bytes`: the characters
/// they encode, with each invalid sequence replaced by U+FFFD.
pub uninterp spec fn lossy_text(bytes: Seq<u8>) -> Seq<char>;

/// Decodes bytes as UTF-8 with `String::from_utf8_lossy`. The result is
/// named `lossy_text`; where the bytes are valid UTF-8 it is the text they
/// encode (as the function's documentation says).
#[verifier::external_body]
fn decode_lossy(bytes: &Vec<u8>) -> (s: String)
    ensures
        s@ == lossy_text(bytes@),
        vstd::utf8::valid_utf8(bytes@) ==> s@ == vstd::utf8::decode_utf8(bytes@),
{
    String::from_utf8_lossy(bytes.as_slice()).into_owned()
}

/// The output of a container: the text of what it wrote on standard output
/// and standard error, in order.
pub open spec fn output_text(chunks: Seq<LogChunk>) -> Seq<char>
    decreases chunks.len(),
{
    if chunks.len() == 0 {
        Seq::empty()
    } else {
        output_text(chunks.drop_last()) + match chunks.last() {
            LogChunk::StdOut(m) => lossy_text(m@),
            LogChunk::StdErr(m) => lossy_text(m@),
            _ => Seq::empty(),
        }
    }
}

/// Collects the output of a container from what it wrote.
pub fn collect_output(chunks: &Vec<LogChunk>) -> (s: String)
    ensures
        s@ == output_text(chunks@),
{
    let mut output = String::new();
    for i in 0..chunks.len()
        invariant
            output@ == output_text(chunks@.take(i as int)),
    {
        assert(chunks@.take(i + 1).drop_last() =~= chunks@.take(i as int));
        match &chunks[i] {
            LogChunk::StdOut(message) | LogChunk::StdErr(message) => {
                let text = decode_lossy(message);
                output.append(text.as_str());
            },
            _ => {},
        }
        assert(output@ =~= output_text(chunks@.take(i + 1)));
    }
    assert(chunks@.take(chunks.len() as int) =~= chunks@);
    output
}

} // verus!
