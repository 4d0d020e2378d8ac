//! String-keyed maps of labels and annotations, and the keys under which an
//! app is written into them.
use vstd::prelude::*;
use crate::text::{decimal, is_digit, lemma_decimal, lemma_decimal_injective, push_decimal, str_equal};
use crate::types::{ContainerConfig, ContainerConfigView, ContainerSpecView, configs_view};
use vstd::set_lib::lemma_len_subset;

verus! {

/// The views of a list of key-value pairs.
pub open spec fn pairs_view(s: Seq<(String, String)>) -> Seq<(Seq<char>, Seq<char>)> {
    s.map_values(|p: (String, String)| (p.0@, p.1@))
}

/// The value of the last pair in `s` whose key is `k`.
pub open spec fn lookup(s: Seq<(Seq<char>, Seq<char>)>, k: Seq<char>) -> Option<Seq<char>>
    decreases s.len(),
{
    if s.len() == 0 {
        None
    } else if s.last().0 == k {
        Some(s.last().1)
    } else {
        lookup(s.drop_last(), k)
    }
}

/// The map that a list of pairs denotes, later pairs winning over earlier
/// ones with the same key.
pub open spec fn pairs_map(s: Seq<(Seq<char>, Seq<char>)>) -> Map<Seq<char>, Seq<char>> {
    Map::new(|k: Seq<char>| lookup(s, k) is Some, |k: Seq<char>| lookup(s, k)->0)
}

/// Adding a pair at the end of a list inserts it into the map it denotes.
pub proof fn lemma_pairs_map_push(s: Seq<(Seq<char>, Seq<char>)>, p: (Seq<char>, Seq<char>))
    ensures
        pairs_map(s.push(p)) == pairs_map(s).insert(p.0, p.1),
{
    assert(s.push(p).drop_last() =~= s);
    assert(pairs_map(s.push(p)) =~= pairs_map(s).insert(p.0, p.1));
}

/// A key that a list of pairs maps is the key of one of the pairs.
proof fn lemma_lookup_in_keys(s: Seq<(Seq<char>, Seq<char>)>, k: Seq<char>)
    requires
        lookup(s, k) is Some,
    ensures
        s.map_values(|p: (Seq<char>, Seq<char>)| p.0).contains(k),
    decreases s.len(),
{
    let ks = s.map_values(|p: (Seq<char>, Seq<char>)| p.0);
    if s.last().0 == k {
        assert(ks[s.len() - 1] == k);
    } else {
        lemma_lookup_in_keys(s.drop_last(), k);
        let kd = s.drop_last().map_values(|p: (Seq<char>, Seq<char>)| p.0);
        let i = choose|i: int| 0 <= i < kd.len() && kd[i] == k;
        assert(ks[i] == k);
    }
}

/// A map from strings to strings, such as the labels of a container or the
/// annotations of a Kubernetes object.
#[derive(Debug)]
pub struct LabelMap {
    entries: Vec<(String, String)>,
}

impl View for LabelMap {
    type V = Map<Seq<char>, Seq<char>>;

    closed spec fn view(&self) -> Map<Seq<char>, Seq<char>> {
        pairs_map(pairs_view(self.entries@))
    }
}

impl LabelMap {
    /// An empty map.
    pub fn new() -> (m: Self)
        ensures
            m@ == Map::<Seq<char>, Seq<char>>::empty(),
    {
        let m = LabelMap { entries: Vec::new() };
        assert(m@ =~= Map::<Seq<char>, Seq<char>>::empty());
        m
    }

    /// The map that `pairs` denotes, later pairs winning over earlier ones.
    pub fn from_pairs(pairs: Vec<(String, String)>) -> (m: Self)
        ensures
            m@ == pairs_map(pairs_view(pairs@)),
    {
        LabelMap { entries: pairs }
    }

    /// The pairs of the map; the map is what they denote.
    pub fn entries(&self) -> (e: &Vec<(String, String)>)
        ensures
            pairs_map(pairs_view(e@)) == self@,
    {
        &self.entries
    }

    /// Maps `key` to `value`, replacing what `key` mapped to before.
    pub fn insert(&mut self, key: String, value: String)
        ensures
            final(self)@ == old(self)@.insert(key@, value@),
    {
        let ghost before = pairs_view(self.entries@);
        let ghost p = (key@, value@);
        self.entries.push((key, value));
        proof {
            assert(pairs_view(self.entries@) =~= before.push(p));
            lemma_pairs_map_push(before, p);
        }
    }

    /// Maps `key` to `value`, both given as string slices.
    pub fn insert_str(&mut self, key: &str, value: &str)
        ensures
            final(self)@ == old(self)@.insert(key@, value@),
    {
        self.insert(String::from_str(key), String::from_str(value));
    }

    /// What `key` maps to, if anything.
    pub fn get(&self, key: &str) -> (v: Option<&String>)
        ensures
            match v {
                Some(v) => self@.contains_key(key@) && self@[key@] == v@,
                None => !self@.contains_key(key@),
            },
    {
        let ghost all = pairs_view(self.entries@);
        let mut i = self.entries.len();
        assert(all.take(i as int) =~= all);
        while i > 0
            invariant
                i <= self.entries.len(),
                all == pairs_view(self.entries@),
                lookup(all, key@) == lookup(all.take(i as int), key@),
            decreases i,
        {
            let ghost prefix = all.take(i as int);
            assert(prefix.drop_last() =~= all.take(i - 1));
            if str_equal(self.entries[i - 1].0.as_str(), key) {
                return Some(&self.entries[i - 1].1);
            }
            i = i - 1;
        }
        None
    }

    /// The number of pairs the map is stored as, which is at least the number
    /// of its keys.
    pub closed spec fn size(&self) -> nat {
        self.entries@.len()
    }

    /// The number of pairs the map is stored as.
    pub fn size_exec(&self) -> (n: usize)
        ensures
            n == self.size(),
    {
        self.entries.len()
    }

    /// A map holds no more distinct keys than the pairs it is stored as.
    pub proof fn lemma_keys_bounded(&self, keys: Seq<Seq<char>>)
        requires
            keys.no_duplicates(),
            forall|i: int| 0 <= i < keys.len() ==> self@.contains_key(#[trigger] keys[i]),
        ensures
            keys.len() <= self.size(),
    {
        let all = pairs_view(self.entries@);
        let ks = all.map_values(|p: (Seq<char>, Seq<char>)| p.0);
        assert forall|k: Seq<char>| keys.to_set().contains(k) implies ks.to_set().contains(k) by {
            let i = choose|i: int| 0 <= i < keys.len() && keys[i] == k;
            assert(self@.contains_key(keys[i]));
            lemma_lookup_in_keys(all, k);
        }
        keys.unique_seq_to_set();
        ks.lemma_cardinality_of_set();
        vstd::seq_lib::seq_to_set_is_finite(ks);
        lemma_len_subset(keys.to_set(), ks.to_set());
    }

    /// Whether `key` maps to something.
    pub fn contains_key(&self, key: &str) -> (b: bool)
        ensures
            b == self@.contains_key(key@),
    {
        self.get(key).is_some()
    }
}

impl Clone for LabelMap {
    fn clone(&self) -> (m: Self)
        ensures
            m@ == self@,
    {
        let mut entries: Vec<(String, String)> = Vec::new();
        for i in 0..self.entries.len()
            invariant
                entries@ == self.entries@.take(i as int),
        {
            let k = self.entries[i].0.clone();
            let v = self.entries[i].1.clone();
            entries.push((k, v));
            assert(entries@ =~= self.entries@.take(i + 1));
        }
        assert(self.entries@.take(self.entries.len() as int) =~= self.entries@);
        LabelMap { entries }
    }
}

/// `app-controller-id`: the app's identifier.
pub open spec fn label_id() -> Seq<char> {
    "app-controller-id"@
}

/// `app-controller-name`: the app's name.
pub open spec fn label_name() -> Seq<char> {
    "app-controller-name"@
}

/// `app-controller-interaction-model`: the app's interaction model.
pub open spec fn label_interaction_model() -> Seq<char> {
    "app-controller-interaction-model"@
}

/// `app-controller-container-type`: the role of a Docker container within its app.
pub open spec fn label_container_type() -> Seq<char> {
    "app-controller-container-type"@
}

/// `app-controller-container-index`: the index of an application container.
pub open spec fn label_container_index() -> Seq<char> {
    "app-controller-container-index"@
}

/// `app-controller-autostart`: whether the app starts when it is created.
pub open spec fn label_autostart() -> Seq<char> {
    "app-controller-autostart"@
}

/// `app-controller-enable-docker`: whether the app has a Docker daemon.
pub open spec fn label_enable_docker() -> Seq<char> {
    "app-controller-enable-docker"@
}

/// `app-controller-always-pull-images`: whether images are always pulled.
pub open spec fn label_always_pull_images() -> Seq<char> {
    "app-controller-always-pull-images"@
}

/// `app-controller-container-`: the start of the keys that describe one container.
pub open spec fn container_key_prefix() -> Seq<char> {
    "app-controller-container-"@
}

/// `-image`: the end of the key that holds a container's image.
pub open spec fn image_key_suffix() -> Seq<char> {
    "-image"@
}

/// `-config`: the end of the key that holds a container's configuration.
pub open spec fn config_key_suffix() -> Seq<char> {
    "-config"@
}

/// `-always-pull`: the end of the key that says whether a container always
/// pulls its image.
pub open spec fn always_pull_key_suffix() -> Seq<char> {
    "-always-pull"@
}

/// The key `app-controller-container-{index}{suffix}`.
pub open spec fn container_key(index: nat, suffix: Seq<char>) -> Seq<char> {
    container_key_prefix() + decimal(index) + suffix
}

/// The key of the image of the container at `index`.
pub open spec fn image_key(index: nat) -> Seq<char> {
    container_key(index, image_key_suffix())
}

/// The key of the configuration of the container at `index`.
pub open spec fn config_key(index: nat) -> Seq<char> {
    container_key(index, config_key_suffix())
}

/// The key that says whether the container at `index` always pulls its image.
pub open spec fn always_pull_key(index: nat) -> Seq<char> {
    container_key(index, always_pull_key_suffix())
}

/// Whether `k` has the shape of a per-container key: the container prefix
/// followed by a digit.
pub open spec fn has_container_key_shape(k: Seq<char>) -> bool {
    &&& k.len() > container_key_prefix().len()
    &&& k.take(container_key_prefix().len() as int) == container_key_prefix()
    &&& is_digit(k[container_key_prefix().len() as int])
}

proof fn lemma_key_literals()
    ensures
        container_key_prefix().len() == 25,
        image_key_suffix().len() == 6,
        image_key_suffix()[0] == '-',
        config_key_suffix().len() == 7,
        config_key_suffix()[0] == '-',
        always_pull_key_suffix().len() == 12,
        always_pull_key_suffix()[0] == '-',
        !is_digit('-'),
{
    reveal_strlit("app-controller-container-");
    reveal_strlit("-image");
    reveal_strlit("-config");
    reveal_strlit("-always-pull");
}

/// Every per-container key has the per-container shape.
pub proof fn lemma_container_key_shape(index: nat, suffix: Seq<char>)
    ensures
        has_container_key_shape(container_key(index, suffix)),
{
    lemma_key_literals();
    lemma_decimal(index);
    let k = container_key(index, suffix);
    assert(k.take(25) =~= container_key_prefix());
    assert(k[25] == decimal(index)[0]);
}

/// Two per-container keys whose ends start with a dash are equal only for the
/// same index and the same end.
pub proof fn lemma_container_key_injective(i: nat, s1: Seq<char>, j: nat, s2: Seq<char>)
    requires
        s1.len() > 0,
        s2.len() > 0,
        !is_digit(s1[0]),
        !is_digit(s2[0]),
        container_key(i, s1) == container_key(j, s2),
    ensures
        i == j,
        s1 == s2,
{
    lemma_key_literals();
    lemma_decimal(i);
    lemma_decimal(j);
    let p = container_key_prefix();
    let a = decimal(i);
    let b = decimal(j);
    let k = container_key(i, s1);
    let pl = p.len() as int;
    let al = a.len() as int;
    let bl = b.len() as int;
    if a.len() < b.len() {
        assert(k[pl + al] == s1[0]);
        assert(container_key(j, s2)[pl + al] == b[al]);
        assert(false);
    } else if b.len() < a.len() {
        assert(container_key(j, s2)[pl + bl] == s2[0]);
        assert(k[pl + bl] == a[bl]);
        assert(false);
    } else {
        assert(a =~= k.subrange(pl, pl + al));
        assert(b =~= container_key(j, s2).subrange(pl, pl + bl));
        lemma_decimal_injective(i, j);
        assert(s1 =~= k.subrange(pl + al, k.len() as int));
        assert(s2 =~= container_key(j, s2).subrange(pl + bl, k.len() as int));
    }
}

/// The image key and the configuration key of containers never coincide,
/// and each is different for different containers.
pub proof fn lemma_image_config_keys(i: nat, j: nat)
    ensures
        image_key(i) != config_key(j),
        image_key(i) == image_key(j) ==> i == j,
        config_key(i) == config_key(j) ==> i == j,
{
    lemma_key_literals();
    reveal_strlit("-image");
    reveal_strlit("-config");
    if image_key(i) == config_key(j) {
        lemma_container_key_injective(i, image_key_suffix(), j, config_key_suffix());
        assert(image_key_suffix()[1] != config_key_suffix()[1]);
    }
    if image_key(i) == image_key(j) {
        lemma_container_key_injective(i, image_key_suffix(), j, image_key_suffix());
    }
    if config_key(i) == config_key(j) {
        lemma_container_key_injective(i, config_key_suffix(), j, config_key_suffix());
    }
}

/// The always-pull key of a container differs from every image and
/// configuration key, and is different for different containers.
pub proof fn lemma_always_pull_keys(i: nat, j: nat)
    ensures
        always_pull_key(i) != image_key(j),
        always_pull_key(i) != config_key(j),
        always_pull_key(i) == always_pull_key(j) ==> i == j,
        has_container_key_shape(always_pull_key(i)),
{
    lemma_key_literals();
    reveal_strlit("-image");
    reveal_strlit("-config");
    reveal_strlit("-always-pull");
    lemma_container_key_shape(i, always_pull_key_suffix());
    if always_pull_key(i) == image_key(j) {
        lemma_container_key_injective(i, always_pull_key_suffix(), j, image_key_suffix());
        assert(always_pull_key_suffix()[1] != image_key_suffix()[1]);
    }
    if always_pull_key(i) == config_key(j) {
        lemma_container_key_injective(i, always_pull_key_suffix(), j, config_key_suffix());
        assert(always_pull_key_suffix()[1] != config_key_suffix()[1]);
    }
    if always_pull_key(i) == always_pull_key(j) {
        lemma_container_key_injective(i, always_pull_key_suffix(), j, always_pull_key_suffix());
    }
}

/// None of the fixed keys has the per-container shape, and the fixed keys
/// are all different from each other.
pub proof fn lemma_fixed_keys()
    ensures
        !has_container_key_shape(label_id()),
        !has_container_key_shape(label_name()),
        !has_container_key_shape(label_interaction_model()),
        !has_container_key_shape(label_container_type()),
        !has_container_key_shape(label_container_index()),
        !has_container_key_shape(label_autostart()),
        !has_container_key_shape(label_enable_docker()),
        !has_container_key_shape(label_always_pull_images()),
        label_id() != label_name(),
        label_id() != label_interaction_model(),
        label_id() != label_autostart(),
        label_id() != label_enable_docker(),
        label_id() != label_always_pull_images(),
        label_name() != label_interaction_model(),
        label_name() != label_autostart(),
        label_name() != label_enable_docker(),
        label_name() != label_always_pull_images(),
        label_interaction_model() != label_autostart(),
        label_interaction_model() != label_enable_docker(),
        label_interaction_model() != label_always_pull_images(),
        label_autostart() != label_enable_docker(),
        label_container_type() != label_container_index(),
        label_container_type() != label_id(),
        label_container_type() != label_name(),
        label_container_type() != label_interaction_model(),
        label_container_type() != label_autostart(),
        label_container_type() != label_enable_docker(),
        label_container_index() != label_id(),
        label_container_index() != label_name(),
        label_container_index() != label_interaction_model(),
        label_container_index() != label_autostart(),
        label_container_index() != label_enable_docker(),
{
    reveal_strlit("app-controller-container-");
    reveal_strlit("app-controller-id");
    reveal_strlit("app-controller-name");
    reveal_strlit("app-controller-interaction-model");
    reveal_strlit("app-controller-container-type");
    reveal_strlit("app-controller-container-index");
    reveal_strlit("app-controller-autostart");
    reveal_strlit("app-controller-enable-docker");
    reveal_strlit("app-controller-always-pull-images");
    let p = container_key_prefix();
    assert(label_id().len() <= 25);
    assert(label_name()[15] != p[15]);
    assert(label_interaction_model()[15] != p[15]);
    assert(label_autostart()[15] != p[15]);
    assert(label_enable_docker()[15] != p[15]);
    assert(label_always_pull_images()[16] != p[16]);
    assert(!is_digit(label_container_type()[25]));
    assert(!is_digit(label_container_index()[25]));
    assert(label_id().len() != label_name().len());
    assert(label_name()[15] != label_interaction_model()[15]);
    assert(label_name()[15] != label_autostart()[15]);
    assert(label_name()[15] != label_enable_docker()[15]);
    assert(label_name()[15] != label_always_pull_images()[15]);
    assert(label_id()[16] != label_interaction_model()[16]);
    assert(label_id()[15] != label_autostart()[15]);
    assert(label_id()[15] != label_enable_docker()[15]);
    assert(label_id()[15] != label_always_pull_images()[15]);
    assert(label_interaction_model()[15] != label_autostart()[15]);
    assert(label_interaction_model()[15] != label_enable_docker()[15]);
    assert(label_interaction_model()[16] != label_always_pull_images()[16]);
    assert(label_autostart()[15] != label_enable_docker()[15]);
    assert(label_container_type()[25] != label_container_index()[25]);
    assert(label_container_type()[15] != label_id()[15]);
    assert(label_container_type()[15] != label_name()[15]);
    assert(label_container_type()[15] != label_interaction_model()[15]);
    assert(label_container_type()[15] != label_autostart()[15]);
    assert(label_container_type()[15] != label_enable_docker()[15]);
    assert(label_container_index()[15] != label_id()[15]);
    assert(label_container_index()[15] != label_name()[15]);
    assert(label_container_index()[15] != label_interaction_model()[15]);
    assert(label_container_index()[15] != label_autostart()[15]);
    assert(label_container_index()[15] != label_enable_docker()[15]);
}

/// The key `app-controller-container-{index}{suffix}`.
pub fn make_container_key(index: usize, suffix: &str) -> (k: String)
    ensures
        k@ == container_key(index as nat, suffix@),
{
    let mut k = String::from_str("app-controller-container-");
    push_decimal(&mut k, index as u64);
    k.append(suffix);
    k
}

/// The key of the image of the container at `index`.
pub fn make_image_key(index: usize) -> (k: String)
    ensures
        k@ == image_key(index as nat),
{
    make_container_key(index, "-image")
}

/// The key of the configuration of the container at `index`.
pub fn make_config_key(index: usize) -> (k: String)
    ensures
        k@ == config_key(index as nat),
{
    make_container_key(index, "-config")
}

/// The key that says whether the container at `index` always pulls its image.
pub fn make_always_pull_key(index: usize) -> (k: String)
    ensures
        k@ == always_pull_key(index as nat),
{
    make_container_key(index, "-always-pull")
}

/// How a container is remembered in labels: its image and configuration
/// data, with no pull policy and no terminal.
pub open spec fn stored_config(s: ContainerSpecView) -> ContainerConfigView {
    ContainerConfigView { image: s.image(), config: s.config(), image_pull_policy: None, tty: false }
}

/// `base` with the image of each container, and the configuration data of
/// each container that has some, under the container's keys.
pub open spec fn encode_containers(
    base: Map<Seq<char>, Seq<char>>,
    specs: Seq<ContainerSpecView>,
) -> Map<Seq<char>, Seq<char>>
    decreases specs.len(),
{
    if specs.len() == 0 {
        base
    } else {
        let i = (specs.len() - 1) as nat;
        let with_image = encode_containers(base, specs.drop_last()).insert(
            image_key(i),
            specs.last().image(),
        );
        match specs.last().config() {
            Some(c) => with_image.insert(config_key(i), c),
            None => with_image,
        }
    }
}

/// The container that `m` describes at `index`: the image and the
/// configuration data (if any) stored under its keys.
pub open spec fn stored_entry(m: Map<Seq<char>, Seq<char>>, index: nat) -> ContainerConfigView {
    ContainerConfigView {
        image: m[image_key(index)],
        config: if m.contains_key(config_key(index)) {
            Some(m[config_key(index)])
        } else {
            None
        },
        image_pull_policy: None,
        tty: false,
    }
}

/// Whether `cs` are the containers that `m` describes: one for each image
/// key from index 0 up to the first index that has none, each with the
/// image and the configuration data (if any) stored under its keys.
pub open spec fn decodes_containers(m: Map<Seq<char>, Seq<char>>, cs: Seq<ContainerConfigView>) -> bool {
    &&& forall|j: nat| j < cs.len() ==> #[trigger] m.contains_key(image_key(j))
    &&& forall|j: nat| j < cs.len() ==> #[trigger] cs[j as int] == stored_entry(m, j)
    &&& !m.contains_key(image_key(cs.len()))
}

/// A map describes only one list of containers.
pub proof fn lemma_decodes_unique(
    m: Map<Seq<char>, Seq<char>>,
    a: Seq<ContainerConfigView>,
    b: Seq<ContainerConfigView>,
)
    requires
        decodes_containers(m, a),
        decodes_containers(m, b),
    ensures
        a == b,
{
    if a.len() < b.len() {
        assert(m.contains_key(image_key(a.len())));
    }
    if b.len() < a.len() {
        assert(m.contains_key(image_key(b.len())));
    }
    assert forall|j: int| 0 <= j < a.len() implies a[j] == b[j] by {
        assert(a[j as nat as int] == stored_entry(m, j as nat));
        assert(b[j as nat as int] == stored_entry(m, j as nat));
    }
    assert(a =~= b);
}

/// Whether no key of `m` has the per-container shape.
pub open spec fn no_container_keys(m: Map<Seq<char>, Seq<char>>) -> bool {
    forall|k: Seq<char>| #[trigger] m.contains_key(k) ==> !has_container_key_shape(k)
}

/// What `encode_containers` writes: the keys of each container, nothing
/// under the keys of containers beyond the last, and `base` elsewhere.
pub proof fn lemma_encode_containers(base: Map<Seq<char>, Seq<char>>, specs: Seq<ContainerSpecView>)
    requires
        no_container_keys(base),
    ensures
        forall|j: nat|
            j < specs.len() ==> #[trigger] encode_containers(base, specs).contains_key(image_key(j)),
        forall|j: nat|
            j < specs.len() ==> #[trigger] encode_containers(base, specs)[image_key(j)] == specs[j as int].image(),
        forall|j: nat|
            j < specs.len() ==> (#[trigger] encode_containers(base, specs).contains_key(
                config_key(j),
            ) <==> specs[j as int].config() is Some),
        forall|j: nat|
            j < specs.len() && specs[j as int].config() is Some ==> #[trigger] encode_containers(
                base,
                specs,
            )[config_key(j)] == specs[j as int].config()->0,
        forall|j: nat|
            j >= specs.len() ==> !#[trigger] encode_containers(base, specs).contains_key(
                image_key(j),
            ),
        forall|j: nat|
            j >= specs.len() ==> !#[trigger] encode_containers(base, specs).contains_key(
                config_key(j),
            ),
        forall|k: Seq<char>|
            !has_container_key_shape(k) ==> (#[trigger] encode_containers(base, specs).contains_key(k)
                == base.contains_key(k)),
        forall|k: Seq<char>|
            !has_container_key_shape(k) && base.contains_key(k) ==> #[trigger] encode_containers(
                base,
                specs,
            )[k] == base[k],
    decreases specs.len(),
{
    let m = encode_containers(base, specs);
    if specs.len() == 0 {
        assert forall|j: nat| #![trigger image_key(j)] #![trigger config_key(j)] !m.contains_key(image_key(j)) && !m.contains_key(config_key(j)) by {
            lemma_container_key_shape(j, image_key_suffix());
            lemma_container_key_shape(j, config_key_suffix());
        }
        assert(m == base);
    } else {
        let prev = specs.drop_last();
        lemma_encode_containers(base, prev);
        let n = (specs.len() - 1) as nat;
        let pm = encode_containers(base, prev);
        let w = pm.insert(image_key(n), specs.last().image());
        assert(m == (match specs.last().config() {
            Some(c) => w.insert(config_key(n), c),
            None => w,
        }));
        assert forall|j: nat| #![trigger encode_containers(base, specs).contains_key(image_key(j))] #![trigger encode_containers(base, specs)[image_key(j)]] j < specs.len() implies encode_containers(base, specs).contains_key(image_key(j))
            && encode_containers(base, specs)[image_key(j)] == specs[j as int].image() by {
            lemma_image_config_keys(j, n);
            if j < n {
                assert(specs[j as int] == prev[j as int]);
                assert(j < prev.len());
                assert(pm.contains_key(image_key(j)));
                assert(pm[image_key(j)] == prev[j as int].image());
            }
        }

        assert forall|j: nat| j < specs.len() implies (#[trigger] m.contains_key(config_key(j))
            <==> specs[j as int].config() is Some) by {
            lemma_image_config_keys(n, j);
            lemma_image_config_keys(j, n);
            if j < n {
                assert(specs[j as int] == prev[j as int]);
                assert(pm.contains_key(config_key(j)) <==> prev[j as int].config() is Some);
            }
        }
        assert forall|j: nat| j < specs.len() && specs[j as int].config() is Some implies #[trigger] m[config_key(j)]
            == specs[j as int].config()->0 by {
            lemma_image_config_keys(n, j);
            lemma_image_config_keys(j, n);
            if j < n {
                assert(specs[j as int] == prev[j as int]);
                assert(pm[config_key(j)] == prev[j as int].config()->0);
            }
        }
        assert forall|j: nat| j >= specs.len() implies !#[trigger] m.contains_key(image_key(j)) by {
            lemma_image_config_keys(j, n);
            assert(!pm.contains_key(image_key(j)));
        }
        assert forall|j: nat| j >= specs.len() implies !#[trigger] m.contains_key(config_key(j)) by {
            lemma_image_config_keys(n, j);
            lemma_image_config_keys(j, n);
            assert(!pm.contains_key(config_key(j)));
        }
        assert forall|k: Seq<char>| #![trigger m.contains_key(k)] #![trigger m[k]] !has_container_key_shape(k) implies (m.contains_key(k)
            == base.contains_key(k)) && (base.contains_key(k) ==> m[k] == base[k]) by {
            lemma_container_key_shape(n, image_key_suffix());
            lemma_container_key_shape(n, config_key_suffix());
            assert(pm.contains_key(k) == base.contains_key(k));
            if base.contains_key(k) {
                assert(pm[k] == base[k]);
            }
        }
    }
}

/// Reading the containers back from a map that holds what
/// `encode_containers` wrote under every per-container key gives each
/// container as it is remembered.
pub proof fn lemma_containers_roundtrip(
    base: Map<Seq<char>, Seq<char>>,
    specs: Seq<ContainerSpecView>,
    m: Map<Seq<char>, Seq<char>>,
)
    requires
        no_container_keys(base),
        forall|k: Seq<char>|
            has_container_key_shape(k) ==> (#[trigger] m.contains_key(k) == encode_containers(
                base,
                specs,
            ).contains_key(k)),
        forall|k: Seq<char>|
            has_container_key_shape(k) && m.contains_key(k) ==> #[trigger] m[k] == encode_containers(
                base,
                specs,
            )[k],
    ensures
        decodes_containers(m, specs.map_values(|s: ContainerSpecView| stored_config(s))),
{
    lemma_encode_containers(base, specs);
    let e = encode_containers(base, specs);
    let cs = specs.map_values(|s: ContainerSpecView| stored_config(s));
    assert forall|j: nat| #![trigger m.contains_key(image_key(j))] #![trigger cs[j as int]] j < cs.len() implies m.contains_key(image_key(j))
        && cs[j as int] == stored_entry(m, j) by {
        lemma_container_key_shape(j, image_key_suffix());
        lemma_container_key_shape(j, config_key_suffix());
        assert(e.contains_key(image_key(j)));
        assert(m[image_key(j)] == e[image_key(j)]);
        assert(e.contains_key(config_key(j)) <==> specs[j as int].config() is Some);
        if specs[j as int].config() is Some {
            assert(m[config_key(j)] == e[config_key(j)]);
        }
    }
    lemma_container_key_shape(cs.len(), image_key_suffix());
    assert(!e.contains_key(image_key(cs.len())));
}

/// Reads the containers that `labels` describes: one for each image key from
/// index 0 up to the first index that has none.
pub fn decode_containers(labels: &LabelMap) -> (cs: Vec<ContainerConfig>)
    ensures
        decodes_containers(labels@, configs_view(cs@)),
{
    let mut cs: Vec<ContainerConfig> = Vec::new();
    let bound = labels.size_exec();
    let mut index: usize = 0;
    loop
        invariant
            index <= bound,
            bound == labels.size(),
            cs@.len() == index,
            forall|j: nat| j < index ==> #[trigger] labels@.contains_key(image_key(j)),
            forall|j: nat| j < index ==> #[trigger] cs@[j as int]@ == stored_entry(labels@, j),
        ensures
            decodes_containers(labels@, configs_view(cs@)),
        decreases bound - index,
    {
        let key = make_image_key(index);
        match labels.get(key.as_str()) {
            None => {
                assert forall|j: nat| j < index implies #[trigger] configs_view(cs@)[j as int] == stored_entry(labels@, j) by {
                    assert(cs@[j as int]@ == stored_entry(labels@, j));
                }
                break;
            },
            Some(image) => {
                let config_key_text = make_config_key(index);
                let config = match labels.get(config_key_text.as_str()) {
                    Some(c) => Some(c.clone()),
                    None => None,
                };
                cs.push(
                    ContainerConfig { image: image.clone(), config, image_pull_policy: None, tty: false },
                );
                proof {
                    let keys = Seq::new((index + 1) as nat, |j: int| image_key(j as nat));
                    assert forall|a: int, b: int| 0 <= a < keys.len() && 0 <= b < keys.len() && a != b implies keys[a] != keys[b] by {
                        lemma_image_config_keys(a as nat, b as nat);
                    }
                    assert forall|i: int| 0 <= i < keys.len() implies labels@.contains_key(#[trigger] keys[i]) by {
                        if i < index {
                            assert(labels@.contains_key(image_key(i as nat)));
                        }
                    }
                    assert(cs@[index as int]@ == stored_entry(labels@, index as nat));
                    labels.lemma_keys_bounded(keys);
                }
                index = index + 1;
            },
        }
    }
    cs
}

} // verus!
