use vstd::prelude::*;
use crate::backend::error::BackendError;
use crate::text::{decimal, push_decimal};
use crate::types::{App, AppConfig, AppId, AppStatus, ContainerIndex, ContainerOutput, IpAddr};

verus! {

/// A backend that accepts every request and runs nothing: it answers each
/// request with a fixed, successful reply.
#[derive(Debug, Default)]
pub struct NullBackend;

/// The text that the null backend gives as the output of a container.
pub open spec fn null_output(id: AppId, index: ContainerIndex) -> Seq<char> {
    "Output for app "@ + decimal(id as nat) + " container "@ + decimal(index as nat)
}

impl NullBackend {
    /// Hands back an app with ID 0 and the given configuration.
    pub fn create_app(&self, config: AppConfig) -> (r: Result<App, BackendError>)
        ensures
            r matches Ok(app) && app.id == 0 && app.config == config,
    {
        Ok(App { id: 0, config })
    }

    /// Reports the app as ready.
    pub fn start_app(&self, id: AppId) -> (r: Result<AppStatus, BackendError>)
        ensures
            r == Ok::<AppStatus, BackendError>(AppStatus::Ready),
    {
        Ok(AppStatus::Ready)
    }

    /// Reports the app as stopped.
    pub fn stop_app(&self, id: AppId) -> (r: Result<AppStatus, BackendError>)
        ensures
            r == Ok::<AppStatus, BackendError>(AppStatus::Stopped),
    {
        Ok(AppStatus::Stopped)
    }

    /// Reports the app as deleted.
    pub fn delete_app(&self, id: AppId) -> (r: Result<(), BackendError>)
        ensures
            r == Ok::<(), BackendError>(()),
    {
        Ok(())
    }

    /// Hands back an app with the given ID and the default configuration.
    pub fn get_app(&self, id: AppId) -> (r: Result<App, BackendError>)
        ensures
            r matches Ok(app) && app.id == id && app.config@ == AppConfig::default_view(),
    {
        let config = AppConfig::default();
        assert(config@ =~= AppConfig::default_view());
        Ok(App { id, config })
    }

    /// Reports that there are no apps.
    pub fn get_all_apps(&self) -> (r: Result<Vec<App>, BackendError>)
        ensures
            r matches Ok(apps) && apps@.len() == 0,
    {
        Ok(Vec::new())
    }

    /// Reports the app as listening on 127.0.0.1, port 8080.
    pub fn get_app_addr(&self, id: AppId) -> (r: Result<(IpAddr, u16), BackendError>)
        ensures
            r matches Ok(addr) && addr.0@ == "127.0.0.1"@ && addr.1 == 8080,
    {
        Ok((String::from_str("127.0.0.1"), 8080))
    }

    /// A line that names the app and the container.
    pub fn get_app_output(&self, id: AppId, index: ContainerIndex) -> (r: Result<
        ContainerOutput,
        BackendError,
    >)
        ensures
            r matches Ok(s) && s@ == null_output(id, index),
    {
        let mut s = String::from_str("Output for app ");
        push_decimal(&mut s, id);
        s.append(" container ");
        push_decimal(&mut s, index as u64);
        Ok(s)
    }

    /// Reports the app as not ready.
    pub fn get_app_status(&self, id: AppId) -> (r: Result<AppStatus, BackendError>)
        ensures
            r == Ok::<AppStatus, BackendError>(AppStatus::NotReady),
    {
        Ok(AppStatus::NotReady)
    }
}

} // verus!
