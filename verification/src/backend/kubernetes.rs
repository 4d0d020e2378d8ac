//! The decisions of the Kubernetes backend.
//!
//! Each app is represented by a Deployment (holding the app's containers
//! and, as an init container that keeps running, the X11 host; it has zero
//! replicas while the app is stopped and one while it runs), a Service that
//! exposes the VNC ports 5910 and 5911, and one ConfigMap for each container
//! that has configuration data.
//!
//! The resources carry the label `app-controller-id` (the app's random
//! 32-bit identifier); the app itself is stored in annotations:
//! `app-controller-name`, `app-controller-interaction-model`,
//! `app-controller-always-pull-images`, and for each container
//! `app-controller-container-{index}-image`, when it has configuration
//! data `app-controller-container-{index}-config`, and
//! `app-controller-container-{index}-always-pull` (`true` when the
//! container's own pull policy is `Always`, `false` otherwise).
//!
//! A new app's deployment has one replica when the app starts on creation
//! and zero otherwise.
use vstd::prelude::*;
use crate::backend::error::{BackendError, ErrorView, result_view};
use crate::labels::{
    LabelMap, always_pull_key, lemma_always_pull_keys, make_always_pull_key, config_key, decode_containers, decodes_containers, encode_containers,
    has_container_key_shape, image_key, stored_entry, label_always_pull_images, label_id, label_interaction_model,
    label_name, lemma_containers_roundtrip, lemma_decodes_unique, lemma_fixed_keys, no_container_keys,
    stored_config,
};
use crate::text::{
    bool_str, bool_text, decimal, decimal_string, hex8_string, hex_padded, lemma_bool_text,
    lemma_parse_decimal, parse_u32, parse_unsigned, push_decimal,
};
use crate::types::{
    App, AppConfig, AppConfigView, AppId, AppStatus, AppView, ContainerConfigView, ContainerSpec,
    ContainerConfig, ContainerSpecView, ImagePullPolicy, configs_view, InteractionModel, lemma_model_name_roundtrip, model_from_name, model_name,
    pull_policy_name, specs_view,
};

verus! {

/// Whether a character is alphanumeric in the sense of `char::is_alphanumeric`
/// (alphabetic or numeric in Unicode).
pub uninterp spec fn unicode_alphanumeric(c: char) -> bool;

/// `char::is_alphanumeric`. The result is named `unicode_alphanumeric`; for
/// ASCII characters it holds exactly of letters and digits.
#[verifier::external_body]
fn is_alphanumeric(c: char) -> (b: bool)
    ensures
        b == unicode_alphanumeric(c),
        (c as u32) < 128 ==> (b <==> (('a' <= c && c <= 'z') || ('A' <= c && c <= 'Z') || ('0' <= c
            && c <= '9'))),
{
    c.is_alphanumeric()
}

/// The ASCII lower-case form of `c` (other characters unchanged).
pub open spec fn ascii_lower(c: char) -> char {
    if 'A' <= c && c <= 'Z' {
        ((c as u32) + 32) as char
    } else {
        c
    }
}

/// `char::to_ascii_lowercase`.
fn to_ascii_lower(c: char) -> (r: char)
    ensures
        r == ascii_lower(c),
{
    if c >= 'A' && c <= 'Z' {
        (((c as u32) + 32) as u8) as char
    } else {
        c
    }
}

/// What follows the last `sep` in `s` (all of `s` when there is none).
pub open spec fn after_last(s: Seq<char>, sep: char) -> Seq<char>
    decreases s.len(),
{
    if s.len() == 0 {
        s
    } else if s.last() == sep {
        Seq::empty()
    } else {
        after_last(s.drop_last(), sep).push(s.last())
    }
}

/// What comes before the first `sep` in `s` (all of `s` when there is none).
pub open spec fn before_first(s: Seq<char>, sep: char) -> Seq<char>
    decreases s.len(),
{
    if s.len() == 0 {
        s
    } else if s[0] == sep {
        Seq::empty()
    } else {
        seq![s[0]] + before_first(s.drop_first(), sep)
    }
}

/// Whether `c` is alphanumeric: for an ASCII character, whether it is a
/// letter or a digit; otherwise as `char::is_alphanumeric` says.
pub open spec fn alphanumeric(c: char) -> bool {
    if (c as u32) < 128 {
        ('a' <= c && c <= 'z') || ('A' <= c && c <= 'Z') || ('0' <= c && c <= '9')
    } else {
        unicode_alphanumeric(c)
    }
}

/// The alphanumeric characters of `s`, in ASCII lower case.
pub open spec fn package_chars(s: Seq<char>) -> Seq<char>
    decreases s.len(),
{
    if s.len() == 0 {
        s
    } else if alphanumeric(s.last()) {
        package_chars(s.drop_last()).push(ascii_lower(s.last()))
    } else {
        package_chars(s.drop_last())
    }
}

/// The package of an image: the last path segment, without its tag,
/// keeping only alphanumeric characters, in lower case.
pub open spec fn package_name(image: Seq<char>) -> Seq<char> {
    package_chars(before_first(after_last(image, '/'), ':'))
}

proof fn lemma_after_last_prefix(s: Seq<char>, sep: char, i: int, start: int)
    requires
        0 <= start <= i < s.len(),
        after_last(s.take(i), sep) == s.subrange(start, i),
    ensures
        after_last(s.take(i + 1), sep) == (if s[i] == sep {
            s.subrange(i + 1, i + 1)
        } else {
            s.subrange(start, i + 1)
        }),
{
    assert(s.take(i + 1).drop_last() =~= s.take(i));
    assert(s.subrange(start, i).push(s[i]) =~= s.subrange(start, i + 1));
    assert(s.subrange(i + 1, i + 1) =~= Seq::<char>::empty());
}

proof fn lemma_before_first_split(s: Seq<char>, sep: char, k: int)
    requires
        0 <= k <= s.len(),
        forall|j: int| 0 <= j < k ==> s[j] != sep,
        k == s.len() || s[k] == sep,
    ensures
        before_first(s, sep) == s.take(k),
    decreases k,
{
    if k == 0 {
        assert(s.take(0) =~= Seq::<char>::empty());
    } else {
        lemma_before_first_split(s.drop_first(), sep, k - 1);
        assert(seq![s[0]] + s.drop_first().take(k - 1) =~= s.take(k));
    }
}

/// Lower-casing keeps an alphanumeric character alphanumeric, and a
/// lower-cased character stays as it is when lower-cased again.
proof fn lemma_ascii_lower(c: char)
    ensures
        alphanumeric(c) ==> alphanumeric(ascii_lower(c)),
        ascii_lower(ascii_lower(c)) == ascii_lower(c),
{
    if 'A' <= c && c <= 'Z' {
        let l = ascii_lower(c);
        assert((l as u32) == (c as u32) + 32);
        assert('a' <= l && l <= 'z');
    }
}

/// Every character of `package_chars(s)` is alphanumeric and already in
/// ASCII lower case.
proof fn lemma_package_chars_clean(s: Seq<char>)
    ensures
        forall|i: int|
            0 <= i < package_chars(s).len() ==> alphanumeric(#[trigger] package_chars(s)[i])
                && ascii_lower(package_chars(s)[i]) == package_chars(s)[i],
    decreases s.len(),
{
    if s.len() > 0 {
        let r = package_chars(s.drop_last());
        lemma_package_chars_clean(s.drop_last());
        lemma_ascii_lower(s.last());
        if alphanumeric(s.last()) {
            let t = r.push(ascii_lower(s.last()));
            assert(package_chars(s) == t);
            assert forall|i: int| 0 <= i < t.len() implies alphanumeric(#[trigger] t[i]) && ascii_lower(t[i]) == t[i] by {
                if i < r.len() {
                    assert(t[i] == r[i]);
                }
            }
        } else {
            assert(package_chars(s) == r);
        }
    }
}

/// Characters that are all alphanumeric and in ASCII lower case are their
/// own package characters.
proof fn lemma_package_chars_fixed(s: Seq<char>)
    requires
        forall|i: int| 0 <= i < s.len() ==> alphanumeric(#[trigger] s[i]) && ascii_lower(s[i]) == s[i],
    ensures
        package_chars(s) == s,
    decreases s.len(),
{
    if s.len() > 0 {
        let p = s.drop_last();
        assert forall|i: int| 0 <= i < p.len() implies alphanumeric(#[trigger] p[i]) && ascii_lower(p[i]) == p[i] by {
            assert(p[i] == s[i]);
        }
        lemma_package_chars_fixed(p);
        assert(s.last() == s[s.len() - 1]);
        assert(p.push(s.last()) =~= s);
    }
}

/// Without `sep` in `s`, what follows its last `sep` is all of `s`.
proof fn lemma_after_last_absent(s: Seq<char>, sep: char)
    requires
        forall|i: int| 0 <= i < s.len() ==> s[i] != sep,
    ensures
        after_last(s, sep) == s,
    decreases s.len(),
{
    if s.len() > 0 {
        let p = s.drop_last();
        assert forall|i: int| 0 <= i < p.len() implies p[i] != sep by {
            assert(p[i] == s[i]);
        }
        lemma_after_last_absent(p, sep);
        assert(s.last() == s[s.len() - 1]);
        assert(p.push(s.last()) =~= s);
    }
}

/// Without `sep` in `s`, what comes before its first `sep` is all of `s`.
proof fn lemma_before_first_absent(s: Seq<char>, sep: char)
    requires
        forall|i: int| 0 <= i < s.len() ==> s[i] != sep,
    ensures
        before_first(s, sep) == s,
{
    lemma_before_first_split(s, sep, s.len() as int);
    assert(s.take(s.len() as int) =~= s);
}

/// The package of a package is the package itself: extracting it again
/// changes nothing.
pub proof fn lemma_package_name_fixed(image: Seq<char>)
    ensures
        package_name(package_name(image)) == package_name(image),
{
    let p = package_name(image);
    lemma_package_chars_clean(before_first(after_last(image, '/'), ':'));
    assert forall|i: int| 0 <= i < p.len() implies p[i] != '/' && p[i] != ':' by {
        assert(alphanumeric(p[i]));
    }
    lemma_after_last_absent(p, '/');
    lemma_before_first_absent(p, ':');
    lemma_package_chars_fixed(p);
}

/// Extracts the package of an image: the last segment after `/`, up to
/// the first `:`, with only its alphanumeric characters, lower-cased. It
/// always gives a package.
pub fn extract_package(image_name: &str) -> (r: Option<String>)
    ensures
        r matches Some(p) && p@ == package_name(image_name@),
{
    let ghost s = image_name@;
    let len = image_name.unicode_len();
    let mut start: usize = 0;
    let mut i: usize = 0;
    assert(s.take(0) =~= Seq::<char>::empty());
    assert(s.subrange(0, 0) =~= Seq::<char>::empty());
    while i < len
        invariant
            len == s.len(),
            s == image_name@,
            start <= i <= len,
            after_last(s.take(i as int), '/') == s.subrange(start as int, i as int),
        decreases len - i,
    {
        proof {
            lemma_after_last_prefix(s, '/', i as int, start as int);
        }
        if image_name.get_char(i) == '/' {
            start = i + 1;
        }
        i = i + 1;
    }
    assert(s.take(len as int) =~= s);
    let ghost segment = s.subrange(start as int, len as int);
    let mut end: usize = start;
    while end < len && image_name.get_char(end) != ':'
        invariant
            start <= end <= len,
            len == s.len(),
            s == image_name@,
            forall|j: int| start <= j < end ==> s[j] != ':',
        decreases len - end,
    {
        end = end + 1;
    }
    proof {
        assert forall|j: int| 0 <= j < end - start implies segment[j] != ':' by {
            assert(segment[j] == s[start + j]);
        }
        lemma_before_first_split(segment, ':', end - start);
        assert(segment.take(end - start) =~= s.subrange(start as int, end as int));
    }
    let mut package = String::new();
    let mut k: usize = start;
    assert(s.subrange(start as int, start as int) =~= Seq::<char>::empty());
    while k < end
        invariant
            start <= k <= end <= len,
            len == s.len(),
            s == image_name@,
            package@ == package_chars(s.subrange(start as int, k as int)),
        decreases end - k,
    {
        let c = image_name.get_char(k);
        assert(s.subrange(start as int, k + 1).drop_last() =~= s.subrange(start as int, k as int));
        if is_alphanumeric(c) {
            crate::text::push_char(&mut package, to_ascii_lower(c));
        }
        k = k + 1;
    }
    Some(package)
}

/// The labels of every resource of an app: its identifier.
pub open spec fn kube_labels(id: u32) -> Map<Seq<char>, Seq<char>> {
    Map::empty().insert(label_id(), decimal(id as nat))
}

/// The annotations that describe an app, before those of its containers.
pub open spec fn kube_base_annotations(c: AppConfigView) -> Map<Seq<char>, Seq<char>> {
    Map::empty().insert(label_name(), c.name).insert(
        label_interaction_model(),
        model_name(c.interaction_model),
    ).insert(label_always_pull_images(), bool_text(c.always_pull_images))
}

/// Whether a container's own pull policy is to always pull its image.
pub open spec fn always_pulls(s: ContainerSpecView) -> bool {
    s.image_pull_policy() == Some(ImagePullPolicy::Always)
}

/// `m` with, for each container, whether it always pulls its image
/// (`true` or `false`) under the container's always-pull key.
pub open spec fn encode_always_pull(
    m: Map<Seq<char>, Seq<char>>,
    specs: Seq<ContainerSpecView>,
) -> Map<Seq<char>, Seq<char>>
    decreases specs.len(),
{
    if specs.len() == 0 {
        m
    } else {
        encode_always_pull(m, specs.drop_last()).insert(
            always_pull_key((specs.len() - 1) as nat),
            bool_text(always_pulls(specs.last())),
        )
    }
}

/// What `encode_always_pull` writes: each container's always-pull key, and
/// nothing else that has the per-container shape or is an image or
/// configuration key.
#[verifier::spinoff_prover]
proof fn lemma_encode_always_pull(m: Map<Seq<char>, Seq<char>>, specs: Seq<ContainerSpecView>)
    ensures
        forall|j: nat|
            j < specs.len() ==> #[trigger] encode_always_pull(m, specs).contains_key(always_pull_key(j))
                && encode_always_pull(m, specs)[always_pull_key(j)] == bool_text(
                always_pulls(specs[j as int]),
            ),
        forall|k: Seq<char>|
            !has_container_key_shape(k) ==> (#[trigger] encode_always_pull(m, specs).contains_key(k)
                == m.contains_key(k)) && (m.contains_key(k) ==> encode_always_pull(m, specs)[k]
                == m[k]),
        forall|j: nat|
            (#[trigger] encode_always_pull(m, specs).contains_key(image_key(j)) == m.contains_key(
                image_key(j),
            )) && (m.contains_key(image_key(j)) ==> encode_always_pull(m, specs)[image_key(j)]
                == m[image_key(j)]),
        forall|j: nat|
            (#[trigger] encode_always_pull(m, specs).contains_key(config_key(j)) == m.contains_key(
                config_key(j),
            )) && (m.contains_key(config_key(j)) ==> encode_always_pull(m, specs)[config_key(j)]
                == m[config_key(j)]),
    decreases specs.len(),
{
    if specs.len() > 0 {
        let prev = specs.drop_last();
        let n = (specs.len() - 1) as nat;
        let pm = encode_always_pull(m, prev);
        lemma_encode_always_pull(m, prev);
        assert(encode_always_pull(m, specs) == pm.insert(always_pull_key(n), bool_text(always_pulls(specs.last()))));
        assert forall|j: nat| j < specs.len() implies #[trigger] encode_always_pull(m, specs).contains_key(
            always_pull_key(j),
        ) && encode_always_pull(m, specs)[always_pull_key(j)] == bool_text(always_pulls(specs[j as int])) by {
            lemma_always_pull_keys(j, n);
            if j < n {
                assert(prev[j as int] == specs[j as int]);
                assert(pm.contains_key(always_pull_key(j)));
            }
        }
        assert forall|k: Seq<char>| !has_container_key_shape(k) implies (#[trigger] encode_always_pull(
            m,
            specs,
        ).contains_key(k) == m.contains_key(k)) && (m.contains_key(k) ==> encode_always_pull(m, specs)[k]
            == m[k]) by {
            lemma_always_pull_keys(n, n);
            assert(pm.contains_key(k) == m.contains_key(k));
        }
        assert forall|j: nat| (#[trigger] encode_always_pull(m, specs).contains_key(image_key(j))
            == m.contains_key(image_key(j))) && (m.contains_key(image_key(j)) ==> encode_always_pull(
            m,
            specs,
        )[image_key(j)] == m[image_key(j)]) by {
            lemma_always_pull_keys(n, j);
            assert(pm.contains_key(image_key(j)) == m.contains_key(image_key(j)));
        }
        assert forall|j: nat| (#[trigger] encode_always_pull(m, specs).contains_key(config_key(j))
            == m.contains_key(config_key(j))) && (m.contains_key(config_key(j)) ==> encode_always_pull(
            m,
            specs,
        )[config_key(j)] == m[config_key(j)]) by {
            lemma_always_pull_keys(n, j);
            assert(pm.contains_key(config_key(j)) == m.contains_key(config_key(j)));
        }
    }
}

/// The annotations that describe an app: the base annotations and, for each
/// of its containers, the image, the configuration data and whether the
/// container always pulls its image.
pub open spec fn kube_annotations(c: AppConfigView) -> Map<Seq<char>, Seq<char>> {
    encode_always_pull(
        encode_containers(kube_base_annotations(c), c.container_specs()),
        c.container_specs(),
    )
}

/// The labels of every resource of an app.
pub fn create_labels(unique_id: u32) -> (m: LabelMap)
    ensures
        m@ == kube_labels(unique_id),
{
    let mut m = LabelMap::new();
    m.insert(String::from_str("app-controller-id"), decimal_string(unique_id as u64));
    m
}

/// The annotations that describe an app.
pub fn create_annotations(config: &AppConfig) -> (m: LabelMap)
    ensures
        m@ == kube_annotations(config@),
{
    let mut m = LabelMap::new();
    m.insert(String::from_str("app-controller-name"), config.name.clone());
    m.insert_str("app-controller-interaction-model", config.interaction_model.name());
    m.insert_str("app-controller-always-pull-images", bool_str(config.always_pull_images));
    let containers = config.get_containers();
    crate::backend::docker::add_container_labels(&mut m, &containers);
    let ghost e = m@;
    let ghost specs = specs_view(containers@);
    for i in 0..containers.len()
        invariant
            specs == specs_view(containers@),
            m@ == encode_always_pull(e, specs.take(i as int)),
    {
        assert(specs.take(i + 1).drop_last() =~= specs.take(i as int));
        assert(specs.take(i + 1).last() == containers@[i as int]@);
        let always = match containers[i].image_pull_policy() {
            Some(ImagePullPolicy::Always) => true,
            _ => false,
        };
        m.insert(make_always_pull_key(i), String::from_str(bool_str(always)));
    }
    assert(specs.take(containers.len() as int) =~= specs);
    m
}

/// The message of the error that reading a model name that names none gives.
pub open spec fn model_parse_error() -> Seq<char> {
    "failed to parse \"InteractionModel\": Expect a valid enumeration value."@
}

/// What reading an app from a deployment gives, from the deployment's name
/// (`unknown` when it has none), labels and annotations: the app with the
/// identifier of its label and the configuration its annotations describe,
/// or an internal error that names what is missing or malformed.
pub open spec fn kube_app_lookup(
    name: Option<Seq<char>>,
    labels: Option<Map<Seq<char>, Seq<char>>>,
    annotations: Option<Map<Seq<char>, Seq<char>>>,
) -> Result<AppView, ErrorView> {
    let n = match name {
        Some(n) => n,
        None => "unknown"@,
    };
    match labels {
        None => Err(ErrorView::Internal("Deployment "@ + n + " missing labels"@)),
        Some(l) => if !l.contains_key(label_id()) {
            Err(ErrorView::Internal("Deployment "@ + n + " missing app-controller-id"@))
        } else if parse_unsigned(l[label_id()], u32::MAX as nat) is None {
            Err(ErrorView::Internal("Invalid app-controller-id label for deployment "@ + n))
        } else {
            match annotations {
                None => Err(ErrorView::Internal("Deployment "@ + n + " missing annotations"@)),
                Some(a) => if !a.contains_key(label_name()) {
                    Err(
                        ErrorView::Internal(
                            "Missing app-controller-name annotation for deployment "@ + n,
                        ),
                    )
                } else if !a.contains_key(label_interaction_model()) {
                    Err(
                        ErrorView::Internal(
                            "Missing app-controller-interaction-model annotation for deployment "@
                                + n,
                        ),
                    )
                } else if model_from_name(a[label_interaction_model()]) is None {
                    Err(ErrorView::Internal(model_parse_error()))
                } else {
                    Ok(
                        AppView {
                            id: parse_unsigned(l[label_id()], u32::MAX as nat)->0 as AppId,
                            config: AppConfigView {
                                name: a[label_name()],
                                interaction_model: model_from_name(
                                    a[label_interaction_model()],
                                )->0,
                                images: Seq::empty(),
                                containers: with_pull_flags(
                                    a,
                                    crate::backend::docker::decoded_containers(a),
                                ),
                                always_pull_images: a.contains_key(label_always_pull_images())
                                    && a[label_always_pull_images()] == "true"@,
                                enable_docker: false,
                                autostart: false,
                            },
                        },
                    )
                }
            }
        }
    }
}

/// The pull policy that the annotations give the container at `index`:
/// `Always` when its always-pull key says `true`, none otherwise.
pub open spec fn pull_flag_policy(a: Map<Seq<char>, Seq<char>>, index: nat) -> Option<ImagePullPolicy> {
    if a.contains_key(always_pull_key(index)) && a[always_pull_key(index)] == "true"@ {
        Some(ImagePullPolicy::Always)
    } else {
        None
    }
}

/// The containers `cs` with the pull policies that the annotations give them.
pub open spec fn with_pull_flags(
    a: Map<Seq<char>, Seq<char>>,
    cs: Seq<ContainerConfigView>,
) -> Seq<ContainerConfigView> {
    cs.map(
        |j: int, c: ContainerConfigView|
            ContainerConfigView { image_pull_policy: pull_flag_policy(a, j as nat), ..c },
    )
}

/// Gives each container the pull policy that the annotations give it.
fn apply_pull_flags(annotations: &LabelMap, cs: Vec<ContainerConfig>) -> (r: Vec<ContainerConfig>)
    ensures
        configs_view(r@) == with_pull_flags(annotations@, configs_view(cs@)),
{
    let mut r: Vec<ContainerConfig> = Vec::new();
    for i in 0..cs.len()
        invariant
            r@.len() == i,
            forall|j: int|
                0 <= j < i ==> #[trigger] r@[j]@ == with_pull_flags(annotations@, configs_view(cs@))[j],
    {
        let key = make_always_pull_key(i);
        let policy = match annotations.get(key.as_str()) {
            Some(v) => if crate::text::str_equal(v.as_str(), "true") {
                Some(ImagePullPolicy::Always)
            } else {
                None
            },
            None => None,
        };
        r.push(
            ContainerConfig {
                image: cs[i].image.clone(),
                config: crate::types::clone_opt_string(&cs[i].config),
                image_pull_policy: policy,
                tty: cs[i].tty,
            },
        );
    }
    assert(configs_view(r@) =~= with_pull_flags(annotations@, configs_view(cs@)));
    r
}

/// The view of an optional label map.
pub open spec fn opt_map_view(o: Option<LabelMap>) -> Option<Map<Seq<char>, Seq<char>>> {
    match o {
        Some(m) => Some(m@),
        None => None,
    }
}

/// `text` followed by `name`.
fn message_with(text: &str, name: &str) -> (e: BackendError)
    ensures
        e@ == ErrorView::Internal(text@ + name@),
{
    BackendError::InternalError(crate::text::joined(text, name))
}

/// `before` followed by `name` and `after`.
fn message_around(before: &str, name: &str, after: &str) -> (e: BackendError)
    ensures
        e@ == ErrorView::Internal(before@ + name@ + after@),
{
    let mut m = crate::text::joined(before, name);
    m.append(after);
    BackendError::InternalError(m)
}

/// Converts a Kubernetes Deployment into an App object: reads the app from
/// the deployment's name, labels and annotations.
pub fn make_app_for_deployment(
    name: Option<String>,
    labels: Option<LabelMap>,
    annotations: Option<LabelMap>,
) -> (r: Result<App, BackendError>)
    ensures
        result_view(r) == kube_app_lookup(
            crate::types::opt_view(name),
            opt_map_view(labels),
            opt_map_view(annotations),
        ),
{
    let name = match name {
        Some(n) => n,
        None => String::from_str("unknown"),
    };
    let labels = match labels {
        Some(l) => l,
        None => return Err(message_around("Deployment ", name.as_str(), " missing labels")),
    };
    let id_text = match labels.get("app-controller-id") {
        Some(t) => t,
        None => return Err(message_around("Deployment ", name.as_str(), " missing app-controller-id")),
    };
    let id: u32 = match parse_u32(id_text.as_str()) {
        Some(id) => id,
        None => return Err(message_with("Invalid app-controller-id label for deployment ", name.as_str())),
    };
    let annotations = match annotations {
        Some(a) => a,
        None => return Err(message_around("Deployment ", name.as_str(), " missing annotations")),
    };
    let app_name = match annotations.get("app-controller-name") {
        Some(n) => n.clone(),
        None => return Err(
            message_with("Missing app-controller-name annotation for deployment ", name.as_str()),
        ),
    };
    let model_text = match annotations.get("app-controller-interaction-model") {
        Some(m) => m,
        None => return Err(
            message_with(
                "Missing app-controller-interaction-model annotation for deployment ",
                name.as_str(),
            ),
        ),
    };
    let interaction_model = match InteractionModel::from_name(model_text.as_str()) {
        Some(m) => m,
        None => return Err(
            BackendError::internal("failed to parse \"InteractionModel\": Expect a valid enumeration value."),
        ),
    };
    let always_pull_images = match annotations.get("app-controller-always-pull-images") {
        Some(s) => crate::text::str_equal(s.as_str(), "true"),
        None => false,
    };
    let decoded = decode_containers(&annotations);
    let ghost decoded_view = configs_view(decoded@);
    let containers = apply_pull_flags(&annotations, decoded);
    let config = AppConfig {
        name: app_name,
        interaction_model,
        images: Vec::new(),
        containers,
        always_pull_images,
        enable_docker: false,
        autostart: false,
    };
    proof {
        lemma_decodes_unique(
            annotations@,
            decoded_view,
            crate::backend::docker::decoded_containers(annotations@),
        );
    }
    let app = App { id: id as u64, config };
    assert(app@.config =~= kube_app_lookup(Some(name@), Some(labels@), Some(annotations@))->Ok_0.config);
    Ok(app)
}

/// How a container is remembered in annotations: its image and
/// configuration data, and the `Always` policy when that is its own policy.
pub open spec fn kube_stored_container(s: ContainerSpecView) -> ContainerConfigView {
    ContainerConfigView {
        image_pull_policy: if always_pulls(s) {
            Some(ImagePullPolicy::Always)
        } else {
            None
        },
        ..stored_config(s)
    }
}

/// How an app's configuration is remembered in annotations: its name,
/// interaction model, containers (with the `Always` pull policy where that
/// is a container's own, without terminal) and whether it always pulls
/// images; the Docker daemon and autostart settings are not kept.
pub open spec fn kube_stored_config(c: AppConfigView) -> AppConfigView {
    AppConfigView {
        name: c.name,
        interaction_model: c.interaction_model,
        images: Seq::empty(),
        containers: c.container_specs().map_values(|s: ContainerSpecView| kube_stored_container(s)),
        always_pull_images: c.always_pull_images,
        enable_docker: false,
        autostart: false,
    }
}

/// Reading an app back from the deployment that creating it makes gives
/// its identifier and its configuration as annotations remember it.
pub proof fn lemma_deployment_roundtrip(c: AppConfigView, id: u32, name: Option<Seq<char>>)
    ensures
        kube_app_lookup(name, Some(kube_labels(id)), Some(kube_annotations(c))) == Ok::<
            AppView,
            ErrorView,
        >(AppView { id: id as AppId, config: kube_stored_config(c) }),
{
    lemma_fixed_keys();
    let base = kube_base_annotations(c);
    let specs = c.container_specs();
    let e = encode_containers(base, specs);
    let a = kube_annotations(c);
    let stored = specs.map_values(|s: ContainerSpecView| stored_config(s));
    assert(no_container_keys(base));
    crate::labels::lemma_encode_containers(base, specs);
    lemma_containers_roundtrip(base, specs, e);
    lemma_encode_always_pull(e, specs);
    assert forall|j: nat| j < stored.len() implies #[trigger] stored[j as int] == stored_entry(a, j)
        && a.contains_key(image_key(j)) by {
        assert(e.contains_key(image_key(j)));
        assert(stored[j as int] == stored_entry(e, j));
        assert(a.contains_key(config_key(j)) == e.contains_key(config_key(j)));
        assert(a.contains_key(image_key(j)));
        assert(a[image_key(j)] == e[image_key(j)]);
        if e.contains_key(config_key(j)) {
            assert(a[config_key(j)] == e[config_key(j)]);
        }
        assert(stored_entry(a, j) == stored_entry(e, j));
    }
    assert forall|j: nat| j < stored.len() implies #[trigger] a.contains_key(image_key(j)) by {
        assert(stored[j as int] == stored_entry(a, j));
    }
    assert(a.contains_key(image_key(stored.len())) == e.contains_key(image_key(stored.len())));
    assert(!a.contains_key(image_key(stored.len())));
    assert(decodes_containers(a, stored));
    lemma_decodes_unique(a, crate::backend::docker::decoded_containers(a), stored);
    let flagged = with_pull_flags(a, stored);
    assert forall|j: int| 0 <= j < flagged.len() implies flagged[j] == kube_stored_container(specs[j]) by {
        lemma_bool_text(always_pulls(specs[j]));
        assert(a.contains_key(always_pull_key(j as nat)));
    }
    assert(flagged =~= specs.map_values(|s: ContainerSpecView| kube_stored_container(s)));
    lemma_parse_decimal(id as nat, u32::MAX as nat);
    lemma_model_name_roundtrip(c.interaction_model);
    lemma_bool_text(c.always_pull_images);
    assert(a[label_interaction_model()] == model_name(c.interaction_model));
    assert(base.contains_key(label_always_pull_images()));
    assert(e.contains_key(label_always_pull_images()));
    assert(e[label_always_pull_images()] == base[label_always_pull_images()]);
    assert(a.contains_key(label_always_pull_images()));
    assert(a[label_always_pull_images()] == bool_text(c.always_pull_images));
    assert(a[label_name()] == c.name);
    let got = kube_app_lookup(name, Some(kube_labels(id)), Some(a));
    assert(got->Ok_0.config =~= kube_stored_config(c));
}

/// The port of the VNC server of the X11 host.
pub const VNC_PORT: i32 = 5910;

/// The port of the VNC WebSocket of the X11 host.
pub const VNC_WEBSOCKET_PORT: i32 = 5911;

/// The port under which an app's address is given: the VNC WebSocket.
pub const APP_ADDR_PORT: u16 = 5911;

/// A name and a value (an environment variable, or a volume mount's volume
/// and path).
pub open spec fn pair_view(p: (String, String)) -> (Seq<char>, Seq<char>) {
    (p.0@, p.1@)
}

/// The views of a list of pairs.
pub open spec fn pairs_seq_view(s: Seq<(String, String)>) -> Seq<(Seq<char>, Seq<char>)> {
    s.map_values(|p: (String, String)| pair_view(p))
}

/// One application container of an app's deployment.
#[derive(Debug)]
pub struct KubeContainerPlan {
    pub name: String,
    pub image: String,
    pub env: Vec<(String, String)>,
    pub image_pull_policy: String,
    pub volume_mounts: Vec<(String, String)>,
}

/// What a container plan holds.
#[verifier::ext_equal]
pub struct KubeContainerPlanView {
    pub name: Seq<char>,
    pub image: Seq<char>,
    pub env: Seq<(Seq<char>, Seq<char>)>,
    pub image_pull_policy: Seq<char>,
    pub volume_mounts: Seq<(Seq<char>, Seq<char>)>,
}

impl View for KubeContainerPlan {
    type V = KubeContainerPlanView;

    open spec fn view(&self) -> KubeContainerPlanView {
        KubeContainerPlanView {
            name: self.name@,
            image: self.image@,
            env: pairs_seq_view(self.env@),
            image_pull_policy: self.image_pull_policy@,
            volume_mounts: pairs_seq_view(self.volume_mounts@),
        }
    }
}

/// The volume that holds the configuration data of the container at `index`.
pub open spec fn config_volume_name(index: nat) -> Seq<char> {
    "container-"@ + decimal(index) + "-config"@
}

/// The pull policy of a container's pod container: the container's own
/// policy when it has one (it takes precedence), otherwise `Always` when the
/// app always pulls images and `IfNotPresent` when it does not.
pub open spec fn kube_pull_policy(s: ContainerSpecView, always_pull_images: bool) -> Seq<char> {
    match s.image_pull_policy() {
        Some(p) => pull_policy_name(p),
        None => if always_pull_images {
            "Always"@
        } else {
            "IfNotPresent"@
        },
    }
}

/// Each pod container gets as its `imagePullPolicy` the Kubernetes name of
/// its container's own pull policy when that is given, and otherwise
/// `Always` or `IfNotPresent` as the app's `always_pull_images` says.
pub proof fn lemma_pull_policy_written(c: AppConfigView, id: u32, i: int)
    requires
        0 <= i < c.container_specs().len(),
    ensures
        ({
            let k = kube_plan(c, id).containers[i];
            let own = c.container_specs()[i].image_pull_policy();
            &&& own == Some(ImagePullPolicy::Always) ==> k.image_pull_policy == "Always"@
            &&& own == Some(ImagePullPolicy::IfNotPresent) ==> k.image_pull_policy == "IfNotPresent"@
            &&& own == Some(ImagePullPolicy::Never) ==> k.image_pull_policy == "Never"@
            &&& own is None ==> k.image_pull_policy == (if c.always_pull_images {
                "Always"@
            } else {
                "IfNotPresent"@
            })
        }),
{
    assert(kube_plan(c, id).containers[i] == kube_container_plan(c, i as nat, c.container_specs()[i]));
}

/// The application container at `index`: named after its image's package
/// and its index, with the display, its configuration (when it has some) and
/// where its output goes in its environment, its pull policy, and its
/// configuration and the shared outputs mounted.
pub open spec fn kube_container_plan(c: AppConfigView, index: nat, s: ContainerSpecView) -> KubeContainerPlanView {
    let has_config = s.config() is Some;
    KubeContainerPlanView {
        name: package_name(s.image()) + "-"@ + decimal(index),
        image: s.image(),
        env: seq![("DISPLAY"@, ":0.0"@)] + (if has_config {
            seq![("AC_CONTAINER_CONFIG"@, "/etc/app-controller/config/config"@)]
        } else {
            Seq::empty()
        }) + seq![("AC_CONTAINER_OUTPUT"@, "/outputs/container-"@ + decimal(index) + ".log"@)],
        image_pull_policy: kube_pull_policy(s, c.always_pull_images),
        volume_mounts: (if has_config {
            seq![(config_volume_name(index), "/etc/app-controller/config"@)]
        } else {
            Seq::empty()
        }) + seq![("container-outputs"@, "/outputs"@)],
    }
}

/// A pair of strings.
fn pair(a: &str, b: String) -> (p: (String, String))
    ensures
        pair_view(p) == (a@, b@),
{
    (String::from_str(a), b)
}

/// `a` followed by the decimal representation of `n` and by `b`.
fn text_with_number(a: &str, n: u64, b: &str) -> (s: String)
    ensures
        s@ == a@ + decimal(n as nat) + b@,
{
    let mut s = String::from_str(a);
    push_decimal(&mut s, n);
    s.append(b);
    s
}

/// Plans the application container at `index`.
fn plan_container(config: &AppConfig, index: usize, container: &ContainerSpec) -> (p: KubeContainerPlan)
    ensures
        p@ == kube_container_plan(config@, index as nat, container@),
{
    let has_config = container.config().is_some();
    let mut env: Vec<(String, String)> = Vec::new();
    env.push(pair("DISPLAY", String::from_str(":0.0")));
    if has_config {
        env.push(pair("AC_CONTAINER_CONFIG", String::from_str("/etc/app-controller/config/config")));
    }
    env.push(pair("AC_CONTAINER_OUTPUT", text_with_number("/outputs/container-", index as u64, ".log")));
    let image_pull_policy = match container.image_pull_policy() {
        Some(p) => String::from_str(p.name()),
        None => if config.always_pull_images {
            String::from_str("Always")
        } else {
            String::from_str("IfNotPresent")
        },
    };
    let mut volume_mounts: Vec<(String, String)> = Vec::new();
    if has_config {
        volume_mounts.push(
            (text_with_number("container-", index as u64, "-config"), String::from_str("/etc/app-controller/config")),
        );
    }
    volume_mounts.push(pair("container-outputs", String::from_str("/outputs")));
    let package = match extract_package(container.image()) {
        Some(p) => p,
        None => String::from_str("unknown"),
    };
    let mut name = package;
    name.append("-");
    push_decimal(&mut name, index as u64);
    let p = KubeContainerPlan {
        name,
        image: String::from_str(container.image()),
        env,
        image_pull_policy,
        volume_mounts,
    };
    assert(p@.env =~= kube_container_plan(config@, index as nat, container@).env);
    assert(p@.volume_mounts =~= kube_container_plan(config@, index as nat, container@).volume_mounts);
    assert(p@ =~= kube_container_plan(config@, index as nat, container@));
    p
}

/// A ConfigMap that holds the configuration data of one container, and the
/// volume through which the container mounts it.
#[derive(Debug)]
pub struct ConfigMapPlan {
    pub name: String,
    pub data: String,
    pub volume_name: String,
}

/// What a ConfigMap plan holds.
#[verifier::ext_equal]
pub struct ConfigMapPlanView {
    pub name: Seq<char>,
    pub data: Seq<char>,
    pub volume_name: Seq<char>,
}

impl View for ConfigMapPlan {
    type V = ConfigMapPlanView;

    open spec fn view(&self) -> ConfigMapPlanView {
        ConfigMapPlanView { name: self.name@, data: self.data@, volume_name: self.volume_name@ }
    }
}

/// The ConfigMaps of an app's containers, by increasing index, one for
/// each container that has configuration data.
pub open spec fn config_map_plans(name: Seq<char>, specs: Seq<ContainerSpecView>) -> Seq<ConfigMapPlanView>
    decreases specs.len(),
{
    if specs.len() == 0 {
        Seq::empty()
    } else {
        let r = config_map_plans(name, specs.drop_last());
        let i = (specs.len() - 1) as nat;
        match specs.last().config() {
            Some(d) => r.push(
                ConfigMapPlanView {
                    name: name + "-container-"@ + decimal(i) + "-config"@,
                    data: d,
                    volume_name: config_volume_name(i),
                },
            ),
            None => r,
        }
    }
}

/// A volume of an app's deployment: one that mounts a ConfigMap, or an
/// empty directory.
#[derive(Debug)]
pub struct VolumePlan {
    pub name: String,
    pub config_map: Option<String>,
}

/// The X11 host, which runs beside the application containers of each app
/// as an init container that keeps running: its name, image and VNC ports,
/// restarted always, privileged.
#[derive(Debug)]
pub struct InitContainerPlan {
    pub name: String,
    pub image: String,
    pub ports: Vec<i32>,
    pub restart_policy: String,
    pub privileged: bool,
}

/// What an init container plan holds.
#[verifier::ext_equal]
pub struct InitContainerPlanView {
    pub name: Seq<char>,
    pub image: Seq<char>,
    pub ports: Seq<i32>,
    pub restart_policy: Seq<char>,
    pub privileged: bool,
}

impl View for InitContainerPlan {
    type V = InitContainerPlanView;

    open spec fn view(&self) -> InitContainerPlanView {
        InitContainerPlanView {
            name: self.name@,
            image: self.image@,
            ports: self.ports@,
            restart_policy: self.restart_policy@,
            privileged: self.privileged,
        }
    }
}

/// A port of an app's Service: its name, protocol and number.
#[derive(Debug)]
pub struct ServicePortPlan {
    pub name: String,
    pub protocol: String,
    pub port: i32,
}

/// The view of a Service port.
pub open spec fn service_port_view(p: ServicePortPlan) -> (Seq<char>, Seq<char>, i32) {
    (p.name@, p.protocol@, p.port)
}

/// Everything that creating an app makes: its name (the app's name and its
/// identifier in eight hexadecimal digits), labels and annotations (which
/// the Service and the Deployment both carry), the ConfigMaps (created
/// first), the Service's ports, and the Deployment: its replica count, the
/// X11 host as its init container, the application containers and the
/// volumes (the app's labels are its selector); and the app that is handed
/// back.
#[derive(Debug)]
pub struct KubeAppPlan {
    pub id: u32,
    pub name: String,
    pub labels: LabelMap,
    pub annotations: LabelMap,
    pub config_maps: Vec<ConfigMapPlan>,
    pub service_ports: Vec<ServicePortPlan>,
    pub replicas: i32,
    pub x11_host: InitContainerPlan,
    pub containers: Vec<KubeContainerPlan>,
    pub volumes: Vec<VolumePlan>,
    pub app: App,
}

/// What an app plan holds.
#[verifier::ext_equal]
pub struct KubeAppPlanView {
    pub id: u32,
    pub name: Seq<char>,
    pub labels: Map<Seq<char>, Seq<char>>,
    pub annotations: Map<Seq<char>, Seq<char>>,
    pub config_maps: Seq<ConfigMapPlanView>,
    pub service_ports: Seq<(Seq<char>, Seq<char>, i32)>,
    pub replicas: i32,
    pub x11_host: InitContainerPlanView,
    pub containers: Seq<KubeContainerPlanView>,
    pub volumes: Seq<(Seq<char>, Option<Seq<char>>)>,
    pub app: AppView,
}

impl View for KubeAppPlan {
    type V = KubeAppPlanView;

    open spec fn view(&self) -> KubeAppPlanView {
        KubeAppPlanView {
            id: self.id,
            name: self.name@,
            labels: self.labels@,
            annotations: self.annotations@,
            config_maps: self.config_maps@.map_values(|m: ConfigMapPlan| m@),
            service_ports: self.service_ports@.map_values(|p: ServicePortPlan| service_port_view(p)),
            replicas: self.replicas,
            x11_host: self.x11_host@,
            containers: self.containers@.map_values(|k: KubeContainerPlan| k@),
            volumes: self.volumes@.map_values(
                |v: VolumePlan| (v.name@, crate::types::opt_view(v.config_map)),
            ),
            app: self.app@,
        }
    }
}

/// The image of the X11 host that runs beside the containers of each app.
pub open spec fn x11_host_image() -> Seq<char> {
    "ghcr.io/twizmwazin/app-controller/x11-host"@
}

/// The X11 host init container: `x11-host`, exposing the VNC ports,
/// restarted always, privileged.
pub open spec fn x11_host_plan() -> InitContainerPlanView {
    InitContainerPlanView {
        name: "x11-host"@,
        image: x11_host_image(),
        ports: seq![VNC_PORT, VNC_WEBSOCKET_PORT],
        restart_policy: "Always"@,
        privileged: true,
    }
}

/// The ports of an app's Service: `vnc` and `vnc-websocket`, over TCP.
pub open spec fn app_service_ports() -> Seq<(Seq<char>, Seq<char>, i32)> {
    seq![("vnc"@, "TCP"@, VNC_PORT), ("vnc-websocket"@, "TCP"@, VNC_WEBSOCKET_PORT)]
}

/// The replica count a new app's Deployment starts with: one when the app
/// starts on creation, zero (stopped) otherwise.
pub open spec fn initial_replicas(c: AppConfigView) -> i32 {
    if c.autostart {
        RUNNING_REPLICAS
    } else {
        STOPPED_REPLICAS
    }
}

/// The plan for creating an app with the given configuration and identifier.
pub open spec fn kube_plan(c: AppConfigView, id: u32) -> KubeAppPlanView {
    let name = c.name + "-"@ + hex_padded(id as nat, 8);
    let specs = c.container_specs();
    let config_maps = config_map_plans(name, specs);
    KubeAppPlanView {
        id,
        name,
        labels: kube_labels(id),
        annotations: kube_annotations(c),
        config_maps,
        service_ports: app_service_ports(),
        replicas: initial_replicas(c),
        x11_host: x11_host_plan(),
        containers: specs.map(|i: int, s: ContainerSpecView| kube_container_plan(c, i as nat, s)),
        volumes: config_maps.map_values(
            |m: ConfigMapPlanView| (m.volume_name, Some(m.name)),
        ) + seq![("container-outputs"@, None::<Seq<char>>)],
        app: AppView { id: id as AppId, config: c },
    }
}

/// The ConfigMap that holds the configuration data `data` of the container
/// at `index` of the app named `name`.
pub open spec fn config_map_for(name: Seq<char>, index: nat, data: Seq<char>) -> ConfigMapPlanView {
    ConfigMapPlanView {
        name: name + "-container-"@ + decimal(index) + "-config"@,
        data,
        volume_name: config_volume_name(index),
    }
}

proof fn lemma_config_map_listed(name: Seq<char>, specs: Seq<ContainerSpecView>, i: int)
    requires
        0 <= i < specs.len(),
        specs[i].config() is Some,
    ensures
        config_map_plans(name, specs).contains(config_map_for(name, i as nat, specs[i].config()->0)),
    decreases specs.len(),
{
    let r = config_map_plans(name, specs.drop_last());
    if i == specs.len() - 1 {
        let m = config_map_for(name, i as nat, specs[i].config()->0);
        assert(config_map_plans(name, specs) == r.push(m));
        assert(r.push(m)[r.len() as int] == m);
    } else {
        lemma_config_map_listed(name, specs.drop_last(), i);
        let j = choose|j: int| 0 <= j < r.len() && r[j] == config_map_for(name, i as nat, specs[i].config()->0);
        let all = config_map_plans(name, specs);
        if specs.last().config() is Some {
            assert(all[j] == r[j]);
        } else {
            assert(all == r);
        }
    }
}

/// The configuration data of a container reaches it: a ConfigMap holds the
/// data, the Deployment has a volume of that ConfigMap, the container mounts
/// the volume at `/etc/app-controller/config` and `AC_CONTAINER_CONFIG`
/// points to the file there. Every container mounts the shared outputs and
/// is told where its output goes.
pub proof fn lemma_config_reaches_container(c: AppConfigView, id: u32, i: int)
    requires
        0 <= i < c.container_specs().len(),
    ensures
        ({
            let p = kube_plan(c, id);
            let k = p.containers[i];
            let s = c.container_specs()[i];
            &&& k.image == s.image()
            &&& k.env.contains(("AC_CONTAINER_OUTPUT"@, "/outputs/container-"@ + decimal(i as nat) + ".log"@))
            &&& k.volume_mounts.contains(("container-outputs"@, "/outputs"@))
            &&& p.volumes.contains(("container-outputs"@, None::<Seq<char>>))
            &&& (s.config() matches Some(data) ==> {
                let m = config_map_for(p.name, i as nat, data);
                &&& p.config_maps.contains(m)
                &&& p.volumes.contains((config_volume_name(i as nat), Some(m.name)))
                &&& k.volume_mounts.contains((config_volume_name(i as nat), "/etc/app-controller/config"@))
                &&& k.env.contains(("AC_CONTAINER_CONFIG"@, "/etc/app-controller/config/config"@))
            })
        }),
{
    let p = kube_plan(c, id);
    let specs = c.container_specs();
    let s = specs[i];
    let k = p.containers[i];
    assert(k == kube_container_plan(c, i as nat, s));
    let mounts = k.volume_mounts;
    assert(mounts[mounts.len() - 1] == ("container-outputs"@, "/outputs"@));
    assert(k.env[k.env.len() - 1] == ("AC_CONTAINER_OUTPUT"@, "/outputs/container-"@ + decimal(i as nat) + ".log"@));
    assert(p.volumes[p.volumes.len() - 1] == ("container-outputs"@, None::<Seq<char>>));
    if s.config() is Some {
        let data = s.config()->0;
        let m = config_map_for(p.name, i as nat, data);
        lemma_config_map_listed(p.name, specs, i);
        let j = choose|j: int| 0 <= j < p.config_maps.len() && p.config_maps[j] == m;
        assert(p.volumes[j] == (config_volume_name(i as nat), Some(m.name)));
        assert(mounts[0] == (config_volume_name(i as nat), "/etc/app-controller/config"@));
        assert(k.env[1] == ("AC_CONTAINER_CONFIG"@, "/etc/app-controller/config/config"@));
    }
}

/// Plans the X11 host init container.
fn plan_x11_host() -> (p: InitContainerPlan)
    ensures
        p@ == x11_host_plan(),
{
    let mut ports: Vec<i32> = Vec::new();
    ports.push(VNC_PORT);
    ports.push(VNC_WEBSOCKET_PORT);
    let p = InitContainerPlan {
        name: String::from_str("x11-host"),
        image: String::from_str("ghcr.io/twizmwazin/app-controller/x11-host"),
        ports,
        restart_policy: String::from_str("Always"),
        privileged: true,
    };
    assert(p@.ports =~= x11_host_plan().ports);
    p
}

/// Plans the creation of an app with the given configuration and identifier.
pub fn plan_app(config: AppConfig, unique_id: u32) -> (plan: KubeAppPlan)
    ensures
        plan@ == kube_plan(config@, unique_id),
{
    let mut name = config.name.clone();
    name.append("-");
    name.append(hex8_string(unique_id).as_str());
    let labels = create_labels(unique_id);
    let annotations = create_annotations(&config);
    let containers = config.get_containers();
    let ghost specs = config@.container_specs();
    let mut config_maps: Vec<ConfigMapPlan> = Vec::new();
    let mut plans: Vec<KubeContainerPlan> = Vec::new();
    for i in 0..containers.len()
        invariant
            specs == config@.container_specs(),
            specs_view(containers@) == specs,
            config_maps@.map_values(|m: ConfigMapPlan| m@) == config_map_plans(name@, specs.take(i as int)),
            plans@.len() == i,
            forall|j: int| 0 <= j < i ==> #[trigger] plans@[j]@ == kube_container_plan(config@, j as nat, specs[j]),
    {
        assert(specs.take(i + 1).drop_last() =~= specs.take(i as int));
        assert(specs.take(i + 1).last() == containers@[i as int]@);
        if let Some(data) = containers[i].config() {
            let mut cm_name = name.clone();
            cm_name.append("-container-");
            push_decimal(&mut cm_name, i as u64);
            cm_name.append("-config");
            config_maps.push(
                ConfigMapPlan {
                    name: cm_name,
                    data: String::from_str(data),
                    volume_name: text_with_number("container-", i as u64, "-config"),
                },
            );
        }
        assert(config_maps@.map_values(|m: ConfigMapPlan| m@) =~= config_map_plans(name@, specs.take(i + 1)));
        plans.push(plan_container(&config, i, &containers[i]));
    }
    assert(specs.take(containers.len() as int) =~= specs);
    let mut volumes: Vec<VolumePlan> = Vec::new();
    for i in 0..config_maps.len()
        invariant
            volumes@.len() == i,
            forall|j: int| 0 <= j < i ==> (#[trigger] volumes@[j]).name@ == config_maps@[j].volume_name@
                && crate::types::opt_view(volumes@[j].config_map) == Some(config_maps@[j].name@),
    {
        volumes.push(
            VolumePlan {
                name: config_maps[i].volume_name.clone(),
                config_map: Some(config_maps[i].name.clone()),
            },
        );
    }
    volumes.push(VolumePlan { name: String::from_str("container-outputs"), config_map: None });
    let mut service_ports: Vec<ServicePortPlan> = Vec::new();
    service_ports.push(
        ServicePortPlan { name: String::from_str("vnc"), protocol: String::from_str("TCP"), port: VNC_PORT },
    );
    service_ports.push(
        ServicePortPlan {
            name: String::from_str("vnc-websocket"),
            protocol: String::from_str("TCP"),
            port: VNC_WEBSOCKET_PORT,
        },
    );
    assert(service_ports@.map_values(|p: ServicePortPlan| service_port_view(p)) =~= app_service_ports());
    let replicas = if config.autostart {
        RUNNING_REPLICAS
    } else {
        STOPPED_REPLICAS
    };
    let plan = KubeAppPlan {
        id: unique_id,
        name,
        labels,
        annotations,
        config_maps,
        service_ports,
        replicas,
        x11_host: plan_x11_host(),
        containers: plans,
        volumes,
        app: App { id: unique_id as u64, config },
    };
    assert(plan@.containers =~= kube_plan(plan@.app.config, unique_id).containers);
    assert(plan@.volumes =~= kube_plan(plan@.app.config, unique_id).volumes);
    assert(plan@ =~= kube_plan(plan@.app.config, unique_id));
    plan
}

/// Plans the creation of an app with the given configuration under a fresh
/// random identifier.
pub fn new_app_plan(config: AppConfig) -> (plan: KubeAppPlan)
    ensures
        plan@ == kube_plan(config@, plan.id),
{
    let unique_id = crate::backend::random_app_id();
    plan_app(config, unique_id)
}

/// The label selector `app-controller-id={id}`, which selects the resources
/// of an app.
pub fn app_selector(id: AppId) -> (s: String)
    ensures
        s@ == crate::backend::docker::id_filter(id),
{
    let f = crate::backend::docker::create_app_filters(id);
    assert(f@.len() == crate::types::strings_view(f@).len());
    assert(f@[0]@ == crate::types::strings_view(f@)[0]);
    f[0].clone()
}

/// The label selector that selects the resources of every app: those that
/// carry an `app-controller-id` label.
pub fn all_apps_selector() -> (s: String)
    ensures
        s@ == label_id(),
{
    String::from_str("app-controller-id")
}

/// The number of replicas of a running app's deployment.
pub const RUNNING_REPLICAS: i32 = 1;

/// The number of replicas of a stopped app's deployment.
pub const STOPPED_REPLICAS: i32 = 0;

/// What scaling an app's deployment needs: its name (an app whose
/// deployment has none is not found), the replicas to scale to, and the
/// status to report afterwards: one replica and running to start, zero and
/// stopped to stop.
pub fn scale_request(deployment_name: Option<String>, start: bool) -> (r: Result<(String, i32, AppStatus), BackendError>)
    ensures
        match deployment_name {
            None => r matches Err(BackendError::NotFound),
            Some(n) => r matches Ok(t) && t.0@ == n@ && t.1 == (if start {
                RUNNING_REPLICAS
            } else {
                STOPPED_REPLICAS
            }) && t.2 == (if start {
                AppStatus::Running
            } else {
                AppStatus::Stopped
            }),
        },
{
    match deployment_name {
        None => Err(BackendError::NotFound),
        Some(n) => if start {
            Ok((n, RUNNING_REPLICAS, AppStatus::Running))
        } else {
            Ok((n, STOPPED_REPLICAS, AppStatus::Stopped))
        },
    }
}

/// The status that a deployment's replica count stands for: running with
/// one or more replicas, stopped otherwise (also when no count is given).
pub open spec fn replica_status(replicas: Option<i32>) -> AppStatus {
    if replicas matches Some(n) && n >= RUNNING_REPLICAS {
        AppStatus::Running
    } else {
        AppStatus::Stopped
    }
}

/// The status that a deployment's replica count stands for.
pub fn status_from_replicas(replicas: Option<i32>) -> (s: AppStatus)
    ensures
        s == replica_status(replicas),
{
    match replicas {
        Some(n) => if n >= RUNNING_REPLICAS {
            AppStatus::Running
        } else {
            AppStatus::Stopped
        },
        None => AppStatus::Stopped,
    }
}

/// Scaling an app's deployment as a start or stop request says leaves it
/// with the replica count whose status is the one the request reports.
pub proof fn lemma_status_after_scale(start: bool)
    ensures
        replica_status(Some(if start { RUNNING_REPLICAS } else { STOPPED_REPLICAS })) == (if start {
            AppStatus::Running
        } else {
            AppStatus::Stopped
        }),
{
}

/// Where an app is reached, from its service's cluster IP (`None` when the
/// service has no spec): on the VNC WebSocket port; an internal error when
/// the spec or the cluster IP is missing.
pub fn service_address(cluster_ip: Option<Option<String>>) -> (r: Result<(String, u16), BackendError>)
    ensures
        match cluster_ip {
            None => r matches Err(e) && e@ == ErrorView::Internal("Missing spec in service"@),
            Some(None) => r matches Err(e) && e@ == ErrorView::Internal(
                "Missing cluster IP in service"@,
            ),
            Some(Some(ip)) => r matches Ok(a) && a.0@ == ip@ && a.1 == APP_ADDR_PORT,
        },
{
    match cluster_ip {
        None => Err(BackendError::internal("Missing spec in service")),
        Some(None) => Err(BackendError::internal("Missing cluster IP in service")),
        Some(Some(ip)) => Ok((ip, APP_ADDR_PORT)),
    }
}

/// What the backend reads of a deployment: its name, labels and annotations.
#[derive(Debug)]
pub struct DeploymentInfo {
    pub name: Option<String>,
    pub labels: Option<LabelMap>,
    pub annotations: Option<LabelMap>,
}

/// What reading an app from a deployment gives.
pub open spec fn deployment_lookup(d: DeploymentInfo) -> Result<AppView, ErrorView> {
    kube_app_lookup(crate::types::opt_view(d.name), opt_map_view(d.labels), opt_map_view(d.annotations))
}

fn clone_opt_map(o: &Option<LabelMap>) -> (r: Option<LabelMap>)
    ensures
        opt_map_view(r) == opt_map_view(*o),
{
    match o {
        Some(m) => Some(m.clone()),
        None => None,
    }
}

/// Reads the app from a deployment.
pub fn app_for_deployment(d: &DeploymentInfo) -> (r: Result<App, BackendError>)
    ensures
        result_view(r) == deployment_lookup(*d),
{
    make_app_for_deployment(
        crate::types::clone_opt_string(&d.name),
        clone_opt_map(&d.labels),
        clone_opt_map(&d.annotations),
    )
}

/// Reads the apps of all the listed deployments, in order; the first
/// deployment that describes no app makes the whole answer its error.
pub fn apps_from_deployments(deployments: &Vec<DeploymentInfo>) -> (r: Result<Vec<App>, BackendError>)
    ensures
        match r {
            Ok(apps) => apps@.len() == deployments@.len() && forall|i: int|
                0 <= i < apps@.len() ==> deployment_lookup(#[trigger] deployments@[i]) == Ok::<
                    AppView,
                    ErrorView,
                >(apps@[i]@),
            Err(e) => exists|k: int|
                0 <= k < deployments@.len() && (forall|i: int|
                    0 <= i < k ==> #[trigger] deployment_lookup(deployments@[i]) is Ok)
                    && deployment_lookup(deployments@[k]) == Err::<AppView, ErrorView>(e@),
        },
{
    let mut apps: Vec<App> = Vec::new();
    for i in 0..deployments.len()
        invariant
            apps@.len() == i,
            forall|j: int|
                0 <= j < i ==> deployment_lookup(#[trigger] deployments@[j]) == Ok::<AppView, ErrorView>(
                    apps@[j]@,
                ),
    {
        match app_for_deployment(&deployments[i]) {
            Ok(app) => apps.push(app),
            Err(e) => {
                assert(forall|j: int| 0 <= j < i ==> #[trigger] deployment_lookup(deployments@[j]) is Ok);
                return Err(e);
            },
        }
    }
    Ok(apps)
}

/// The first of the listed items, or `NotFound` when there is none (there
/// should be only one resource for each app).
pub fn first_or_not_found<T>(items: Vec<T>) -> (r: Result<T, BackendError>)
    ensures
        items@.len() == 0 ==> (r matches Err(BackendError::NotFound)),
        items@.len() > 0 ==> r == Ok::<T, BackendError>(items@[0]),
{
    let mut items = items;
    if items.len() == 0 {
        Err(BackendError::NotFound)
    } else {
        Ok(items.swap_remove(0))
    }
}

/// What the backend reads of a pod: its name, and the names of its
/// containers (none when the pod has no spec).
#[derive(Debug)]
pub struct PodInfo {
    pub name: Option<String>,
    pub container_names: Option<Vec<String>>,
}

/// The output reported for the container at `index` named `name`.
pub open spec fn placeholder_output(index: nat, name: Seq<char>) -> Seq<char> {
    "Output for container "@ + decimal(index) + " ("@ + name + ")"@
}

/// The output of the container at `index` of an app's first pod: an
/// internal error when the pod has no spec, or has no name while the
/// container is an application container; not found when there are no pods,
/// no container at that index, or the container is the X11 host; otherwise
/// a line that names the container.
pub open spec fn pod_output(pods: Seq<PodInfo>, index: nat) -> Result<Seq<char>, ErrorView> {
    if pods.len() == 0 {
        Err(ErrorView::NotFound)
    } else {
        match pods[0].container_names {
            None => Err(ErrorView::Internal("Pod missing spec"@)),
            Some(names) => if index >= names@.len() || names@[index as int]@ == "x11-host"@ {
                Err(ErrorView::NotFound)
            } else if pods[0].name is None {
                Err(ErrorView::Internal("Pod missing name"@))
            } else {
                Ok(placeholder_output(index, names@[index as int]@))
            },
        }
    }
}

/// The output of the container at `index` of an app, from its pods.
pub fn container_output(pods: &Vec<PodInfo>, index: usize) -> (r: Result<String, BackendError>)
    ensures
        result_view(r) == pod_output(pods@, index as nat),
{
    if pods.len() == 0 {
        return Err(BackendError::NotFound);
    }
    let pod = &pods[0];
    let names = match &pod.container_names {
        None => return Err(BackendError::internal("Pod missing spec")),
        Some(names) => names,
    };
    if index >= names.len() || crate::text::str_equal(names[index].as_str(), "x11-host") {
        return Err(BackendError::NotFound);
    }
    if pod.name.is_none() {
        return Err(BackendError::internal("Pod missing name"));
    }
    let mut output = text_with_number("Output for container ", index as u64, " (");
    output.append(names[index].as_str());
    output.append(")");
    Ok(output)
}

/// The names of the listed resources that have one.
pub fn named(names: &Vec<Option<String>>) -> (r: Vec<String>)
    ensures
        crate::types::strings_view(r@) == crate::backend::kubernetes::present_names(
            names@.map_values(|o: Option<String>| crate::types::opt_view(o)),
        ),
{
    let ghost all = names@.map_values(|o: Option<String>| crate::types::opt_view(o));
    let mut r: Vec<String> = Vec::new();
    for i in 0..names.len()
        invariant
            all == names@.map_values(|o: Option<String>| crate::types::opt_view(o)),
            crate::types::strings_view(r@) == present_names(all.take(i as int)),
    {
        assert(all.take(i + 1).drop_last() =~= all.take(i as int));
        if let Some(n) = &names[i] {
            r.push(n.clone());
        }
        assert(crate::types::strings_view(r@) =~= present_names(all.take(i + 1)));
    }
    assert(all.take(names.len() as int) =~= all);
    r
}

/// The names that are given, in order.
pub open spec fn present_names(s: Seq<Option<Seq<char>>>) -> Seq<Seq<char>>
    decreases s.len(),
{
    if s.len() == 0 {
        Seq::empty()
    } else {
        let r = present_names(s.drop_last());
        match s.last() {
            Some(n) => r.push(n),
            None => r,
        }
    }
}

} // verus!
