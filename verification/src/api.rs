//! What the REST API decides: which create requests it accepts and how it
//! normalizes them, and how each backend result is answered.
use vstd::prelude::*;
use crate::backend::error::{BackendError, error_message};
use crate::types::{
    App, AppConfig, AppConfigView, AppStatus, ContainerConfig, ContainerConfigView, ImagePullPolicy,
    IpAddr, SocketAddr, configs_view, strings_view,
};

verus! {

/// The largest configuration data a container may have: 1MB (1048576 bytes).
pub const MAX_CONFIG_BYTES: usize = 1048576;

/// The number of bytes that `s` takes in UTF-8.
pub open spec fn byte_len(s: Seq<char>) -> nat {
    vstd::utf8::encode_utf8(s).len()
}

/// Whether some container's configuration data is larger than 1MB.
pub open spec fn config_too_large(c: AppConfigView) -> bool {
    exists|i: int|
        0 <= i < c.containers.len() && (#[trigger] c.containers[i]).config is Some && byte_len(
            c.containers[i].config->0,
        ) > MAX_CONFIG_BYTES
}

/// The container configuration made for an image given in the simple format.
pub open spec fn image_container(image: Seq<char>) -> ContainerConfigView {
    ContainerConfigView {
        image,
        config: None,
        image_pull_policy: Some(ImagePullPolicy::IfNotPresent),
        tty: false,
    }
}

/// A configuration with its images turned into containers: when it gives
/// images, one container per image (no configuration data, pulled if not
/// present) is added after its containers and the images are cleared.
pub open spec fn normalized(c: AppConfigView) -> AppConfigView {
    if c.images.len() > 0 {
        AppConfigView {
            containers: c.containers + c.images.map_values(|i: Seq<char>| image_container(i)),
            images: Seq::empty(),
            ..c
        }
    } else {
        c
    }
}

/// The answer to a request to create an app.
#[derive(Debug)]
pub enum CreateAppResponse {
    /// The app was created successfully.
    Success(App),
    /// The app config is too large. Maximum size is 1MB.
    ConfigTooLarge,
    /// The app could not be created because of an internal error.
    InternalError(String),
}

impl CreateAppResponse {
    /// The HTTP status of the answer.
    pub fn status_code(&self) -> (code: u16)
        ensures
            code == match self {
                CreateAppResponse::Success(_) => 200u16,
                CreateAppResponse::ConfigTooLarge => 413u16,
                CreateAppResponse::InternalError(_) => 500u16,
            },
    {
        match self {
            CreateAppResponse::Success(_) => 200,
            CreateAppResponse::ConfigTooLarge => 413,
            CreateAppResponse::InternalError(_) => 500,
        }
    }
}

/// What checking a create request gives: too large when some container's
/// configuration data exceeds 1MB; an internal error when the request gives
/// both images and containers, or neither; otherwise the configuration,
/// normalized, to hand to the backend.
pub open spec fn create_check(c: AppConfigView) -> Result<AppConfigView, Option<Seq<char>>> {
    if config_too_large(c) {
        Err(None)
    } else if c.images.len() > 0 && c.containers.len() > 0 {
        Err(Some("Provide either 'images' or 'containers', not both"@))
    } else if c.images.len() == 0 && c.containers.len() == 0 {
        Err(Some("At least one container must be specified"@))
    } else {
        Ok(normalized(c))
    }
}

/// A request in which any container, at any position, has configuration
/// data of more than 1048576 bytes in UTF-8 is refused as too large.
pub proof fn lemma_too_large_refused(c: AppConfigView, i: int)
    requires
        0 <= i < c.containers.len(),
        c.containers[i].config is Some,
        vstd::utf8::encode_utf8(c.containers[i].config->0).len() > 1048576,
    ensures
        create_check(c) == Err::<AppConfigView, Option<Seq<char>>>(None),
{
    assert(config_too_large(c));
}

/// A request in which no container has configuration data of more than
/// 1048576 bytes in UTF-8 is not refused as too large.
pub proof fn lemma_small_not_refused_as_large(c: AppConfigView)
    requires
        forall|i: int|
            0 <= i < c.containers.len() && (#[trigger] c.containers[i]).config is Some
                ==> vstd::utf8::encode_utf8(c.containers[i].config->0).len() <= 1048576,
    ensures
        create_check(c) != Err::<AppConfigView, Option<Seq<char>>>(None),
{
    if config_too_large(c) {
        let i = choose|i: int|
            0 <= i < c.containers.len() && (#[trigger] c.containers[i]).config is Some && byte_len(
                c.containers[i].config->0,
            ) > MAX_CONFIG_BYTES;
        assert(false);
    }
}

/// Checks a request to create an app and normalizes its configuration, or
/// gives the answer that refuses it (`ConfigTooLarge` for `Err(None)` of the
/// specification, an internal error with the given text otherwise).
pub fn check_create_request(config: &AppConfig) -> (r: Result<AppConfig, CreateAppResponse>)
    ensures
        match create_check(config@) {
            Ok(c) => r matches Ok(n) && n@ == c,
            Err(None) => r matches Err(CreateAppResponse::ConfigTooLarge),
            Err(Some(m)) => r matches Err(CreateAppResponse::InternalError(s)) && s@ == m,
        },
{
    for i in 0..config.containers.len()
        invariant
            forall|j: int|
                0 <= j < i ==> !((#[trigger] config@.containers[j]).config is Some && byte_len(
                    config@.containers[j].config->0,
                ) > MAX_CONFIG_BYTES),
    {
        assert(config@.containers[i as int] == config.containers@[i as int]@);
        if let Some(data) = &config.containers[i].config {
            if data.as_str().as_bytes().len() > MAX_CONFIG_BYTES {
                return Err(CreateAppResponse::ConfigTooLarge);
            }
        }
    }
    if config.images.len() > 0 && config.containers.len() > 0 {
        return Err(
            CreateAppResponse::InternalError(
                String::from_str("Provide either 'images' or 'containers', not both"),
            ),
        );
    }
    if config.images.len() == 0 && config.containers.len() == 0 {
        return Err(
            CreateAppResponse::InternalError(String::from_str("At least one container must be specified")),
        );
    }
    let mut normalized_config = config.clone();
    if normalized_config.images.len() > 0 {
        let ghost before = configs_view(normalized_config.containers@);
        let ghost images = config.images@;
        for i in 0..config.images.len()
            invariant
                images == config.images@,
                strings_view(normalized_config.images@) == strings_view(config.images@),
                normalized_config.containers@.len() == before.len() + i,
                forall|j: int| 0 <= j < before.len() ==> #[trigger] normalized_config.containers@[j]@ == before[j],
                forall|j: int|
                    0 <= j < i ==> #[trigger] normalized_config.containers@[before.len() + j]@
                        == image_container(images[j]@),
                normalized_config.name@ == config.name@,
                normalized_config.interaction_model == config.interaction_model,
                normalized_config.always_pull_images == config.always_pull_images,
                normalized_config.enable_docker == config.enable_docker,
                normalized_config.autostart == config.autostart,
        {
            normalized_config.containers.push(
                ContainerConfig {
                    image: config.images[i].clone(),
                    config: None,
                    image_pull_policy: Some(ImagePullPolicy::IfNotPresent),
                    tty: false,
                },
            );
        }
        normalized_config.images.clear();
        proof {
            let want = normalized(config@);
            assert forall|j: int| 0 <= j < want.containers.len() implies #[trigger] configs_view(
                normalized_config.containers@,
            )[j] == want.containers[j] by {
                if j >= before.len() {
                    let t = j - before.len();
                    assert(normalized_config.containers@[before.len() + t]@ == image_container(images[t]@));
                }
            }
            assert(configs_view(normalized_config.containers@) =~= want.containers);
            assert(strings_view(normalized_config.images@) =~= Seq::<Seq<char>>::empty());
            assert(normalized_config@ =~= want);
        }
    }
    Ok(normalized_config)
}

/// The answer to a create request that the backend handled: the app, or an
/// internal error with the text of the backend's error.
pub fn create_app_response(r: Result<App, BackendError>) -> (resp: CreateAppResponse)
    ensures
        match r {
            Ok(app) => resp matches CreateAppResponse::Success(a) && a == app,
            Err(e) => resp matches CreateAppResponse::InternalError(s) && s@ == error_message(e),
        },
{
    match r {
        Ok(app) => CreateAppResponse::Success(app),
        Err(err) => CreateAppResponse::InternalError(err.message()),
    }
}

/// The answer to a request to start an app.
#[derive(Debug)]
pub enum StartAppResponse {
    /// The app was started successfully.
    Success(AppStatus),
    /// The app could not be started because it was not found.
    NotFound,
    /// The app could not be started because of an internal error.
    InternalError(String),
}

impl StartAppResponse {
    /// The HTTP status of the answer.
    pub fn status_code(&self) -> (code: u16)
        ensures
            code == match self {
                StartAppResponse::Success(_) => 200u16,
                StartAppResponse::NotFound => 404u16,
                StartAppResponse::InternalError(_) => 500u16,
            },
    {
        match self {
            StartAppResponse::Success(_) => 200,
            StartAppResponse::NotFound => 404,
            StartAppResponse::InternalError(_) => 500,
        }
    }
}

/// The answer to a start request: the status, not found, or the internal
/// error's text.
pub fn start_app_response(r: Result<AppStatus, BackendError>) -> (resp: StartAppResponse)
    ensures
        match r {
            Ok(s) => resp == StartAppResponse::Success(s),
            Err(BackendError::NotFound) => resp matches StartAppResponse::NotFound,
            Err(BackendError::InternalError(m)) => resp matches StartAppResponse::InternalError(s) && s == m,
        },
{
    match r {
        Ok(status) => StartAppResponse::Success(status),
        Err(BackendError::NotFound) => StartAppResponse::NotFound,
        Err(BackendError::InternalError(msg)) => StartAppResponse::InternalError(msg),
    }
}

/// The answer to a request to stop an app.
#[derive(Debug)]
pub enum StopAppResponse {
    /// The app was stopped successfully.
    Success(AppStatus),
    /// The app could not be stopped because it was not found.
    NotFound,
    /// The app could not be stopped because of an internal error.
    InternalError(String),
}

impl StopAppResponse {
    /// The HTTP status of the answer.
    pub fn status_code(&self) -> (code: u16)
        ensures
            code == match self {
                StopAppResponse::Success(_) => 200u16,
                StopAppResponse::NotFound => 404u16,
                StopAppResponse::InternalError(_) => 500u16,
            },
    {
        match self {
            StopAppResponse::Success(_) => 200,
            StopAppResponse::NotFound => 404,
            StopAppResponse::InternalError(_) => 500,
        }
    }
}

/// The answer to a stop request: the status, not found, or the internal
/// error's text.
pub fn stop_app_response(r: Result<AppStatus, BackendError>) -> (resp: StopAppResponse)
    ensures
        match r {
            Ok(s) => resp == StopAppResponse::Success(s),
            Err(BackendError::NotFound) => resp matches StopAppResponse::NotFound,
            Err(BackendError::InternalError(m)) => resp matches StopAppResponse::InternalError(s) && s == m,
        },
{
    match r {
        Ok(status) => StopAppResponse::Success(status),
        Err(BackendError::NotFound) => StopAppResponse::NotFound,
        Err(BackendError::InternalError(msg)) => StopAppResponse::InternalError(msg),
    }
}

/// The answer to a request to delete an app.
#[derive(Debug)]
pub enum DeleteAppResponse {
    /// The app was deleted successfully.
    Success,
    /// The app could not be deleted because it was not found.
    NotFound,
    /// The app could not be deleted because of an internal error.
    InternalError(String),
}

impl DeleteAppResponse {
    /// The HTTP status of the answer.
    pub fn status_code(&self) -> (code: u16)
        ensures
            code == match self {
                DeleteAppResponse::Success => 204u16,
                DeleteAppResponse::NotFound => 404u16,
                DeleteAppResponse::InternalError(_) => 500u16,
            },
    {
        match self {
            DeleteAppResponse::Success => 204,
            DeleteAppResponse::NotFound => 404,
            DeleteAppResponse::InternalError(_) => 500,
        }
    }
}

/// The answer to a delete request: done, not found, or the internal
/// error's text.
pub fn delete_app_response(r: Result<(), BackendError>) -> (resp: DeleteAppResponse)
    ensures
        match r {
            Ok(()) => resp matches DeleteAppResponse::Success,
            Err(BackendError::NotFound) => resp matches DeleteAppResponse::NotFound,
            Err(BackendError::InternalError(m)) => resp matches DeleteAppResponse::InternalError(s) && s == m,
        },
{
    match r {
        Ok(()) => DeleteAppResponse::Success,
        Err(BackendError::NotFound) => DeleteAppResponse::NotFound,
        Err(BackendError::InternalError(msg)) => DeleteAppResponse::InternalError(msg),
    }
}

/// The answer to a request for an app.
#[derive(Debug)]
pub enum GetAppResponse {
    /// The app was found successfully.
    Success(App),
    /// The app could not be found.
    NotFound,
    /// The app could not be found because of an internal error.
    InternalError(String),
}

impl GetAppResponse {
    /// The HTTP status of the answer.
    pub fn status_code(&self) -> (code: u16)
        ensures
            code == match self {
                GetAppResponse::Success(_) => 200u16,
                GetAppResponse::NotFound => 404u16,
                GetAppResponse::InternalError(_) => 500u16,
            },
    {
        match self {
            GetAppResponse::Success(_) => 200,
            GetAppResponse::NotFound => 404,
            GetAppResponse::InternalError(_) => 500,
        }
    }
}

/// The answer to a request for an app: the app, not found, or the internal
/// error's text.
pub fn get_app_response(r: Result<App, BackendError>) -> (resp: GetAppResponse)
    ensures
        match r {
            Ok(app) => resp matches GetAppResponse::Success(a) && a == app,
            Err(BackendError::NotFound) => resp matches GetAppResponse::NotFound,
            Err(BackendError::InternalError(m)) => resp matches GetAppResponse::InternalError(s) && s == m,
        },
{
    match r {
        Ok(app) => GetAppResponse::Success(app),
        Err(BackendError::NotFound) => GetAppResponse::NotFound,
        Err(BackendError::InternalError(msg)) => GetAppResponse::InternalError(msg),
    }
}

/// The answer to a request for all apps.
#[derive(Debug)]
pub enum GetAllAppsResponse {
    /// The apps were found successfully.
    Success(Vec<App>),
    /// The apps could not be found because of an internal error.
    InternalError(String),
}

impl GetAllAppsResponse {
    /// The HTTP status of the answer.
    pub fn status_code(&self) -> (code: u16)
        ensures
            code == match self {
                GetAllAppsResponse::Success(_) => 200u16,
                GetAllAppsResponse::InternalError(_) => 500u16,
            },
    {
        match self {
            GetAllAppsResponse::Success(_) => 200,
            GetAllAppsResponse::InternalError(_) => 500,
        }
    }
}

/// The answer to a request for all apps: the apps, or an internal error
/// with the text of the backend's error.
pub fn get_all_apps_response(r: Result<Vec<App>, BackendError>) -> (resp: GetAllAppsResponse)
    ensures
        match r {
            Ok(apps) => resp matches GetAllAppsResponse::Success(a) && a == apps,
            Err(e) => resp matches GetAllAppsResponse::InternalError(s) && s@ == error_message(e),
        },
{
    match r {
        Ok(apps) => GetAllAppsResponse::Success(apps),
        Err(err) => GetAllAppsResponse::InternalError(err.message()),
    }
}

/// The answer to a request for an app's address.
#[derive(Debug)]
pub enum GetAppAddrResponse {
    /// The address and port of the app were found successfully.
    Success(SocketAddr),
    /// The app could not be found.
    NotFound,
    /// The app could not be found because of an internal error.
    InternalError,
}

impl GetAppAddrResponse {
    /// The HTTP status of the answer.
    pub fn status_code(&self) -> (code: u16)
        ensures
            code == match self {
                GetAppAddrResponse::Success(_) => 200u16,
                GetAppAddrResponse::NotFound => 404u16,
                GetAppAddrResponse::InternalError => 500u16,
            },
    {
        match self {
            GetAppAddrResponse::Success(_) => 200,
            GetAppAddrResponse::NotFound => 404,
            GetAppAddrResponse::InternalError => 500,
        }
    }
}

/// The answer to a request for an app's address (the address written out):
/// the address and port, not found, or an internal error without text.
pub fn get_app_addr_response(r: Result<(IpAddr, u16), BackendError>) -> (resp: GetAppAddrResponse)
    ensures
        match r {
            Ok((ip, port)) => resp matches GetAppAddrResponse::Success(a) && a.ip == ip && a.port == port,
            Err(BackendError::NotFound) => resp matches GetAppAddrResponse::NotFound,
            Err(BackendError::InternalError(_)) => resp matches GetAppAddrResponse::InternalError,
        },
{
    match r {
        Ok((ip, port)) => GetAppAddrResponse::Success(SocketAddr { ip, port }),
        Err(BackendError::NotFound) => GetAppAddrResponse::NotFound,
        Err(BackendError::InternalError(_)) => GetAppAddrResponse::InternalError,
    }
}

} // verus!
