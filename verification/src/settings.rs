//! Application settings and the rule deciding when a settings change must
//! tear down the remote backend connection: exactly when a transport-facing
//! field changed.

use vstd::prelude::*;

use crate::text::string_eq;

verus! {

/// Whether requests are served locally or forwarded to a remote backend.
#[derive(Clone, Copy)]
pub enum BackendMode {
    Local,
    Remote,
}

/// The transport used to reach a remote backend.
#[derive(Clone, Copy)]
pub enum RemoteBackendProvider {
    Tcp,
    Orbit,
}

/// The application's settings, as far as this crate reads them.
#[derive(Clone)]
pub struct AppSettings {
    pub theme: String,
    pub backend_mode: BackendMode,
    pub remote_backend_provider: RemoteBackendProvider,
    pub remote_backend_host: Option<String>,
    pub remote_backend_token: Option<String>,
    pub orbit_ws_url: Option<String>,
    pub orbit_auto_start_runner: bool,
}

impl Default for AppSettings {
    /// The default settings: local mode over TCP, no remote endpoint or
    /// token, the system theme, no auto-started runner.
    fn default() -> (r: Self)
        ensures
            r.theme@ == "system"@,
            r.backend_mode is Local,
            r.remote_backend_provider is Tcp,
            r.remote_backend_host is None,
            r.remote_backend_token is None,
            r.orbit_ws_url is None,
            !r.orbit_auto_start_runner,
    {
        AppSettings {
            theme: String::from_str("system"),
            backend_mode: BackendMode::Local,
            remote_backend_provider: RemoteBackendProvider::Tcp,
            remote_backend_host: None,
            remote_backend_token: None,
            orbit_ws_url: None,
            orbit_auto_start_runner: false,
        }
    }
}

/// Two optional strings hold the same text.
pub open spec fn opt_text_eq(a: Option<String>, b: Option<String>) -> bool {
    match (a, b) {
        (Some(x), Some(y)) => x@ == y@,
        (None, None) => true,
        _ => false,
    }
}

fn opt_text_eq_exec(a: &Option<String>, b: &Option<String>) -> (r: bool)
    ensures
        r == opt_text_eq(*a, *b),
{
    match (a, b) {
        (Some(x), Some(y)) => string_eq(x, y),
        (None, None) => true,
        _ => false,
    }
}

/// The transport-facing settings agree: same backend mode, same provider,
/// same host, token and websocket endpoint.
pub open spec fn transport_settings_equal(a: AppSettings, b: AppSettings) -> bool {
    &&& (a.backend_mode is Local <==> b.backend_mode is Local)
    &&& (a.remote_backend_provider is Tcp <==> b.remote_backend_provider is Tcp)
    &&& opt_text_eq(a.remote_backend_host, b.remote_backend_host)
    &&& opt_text_eq(a.remote_backend_token, b.remote_backend_token)
    &&& opt_text_eq(a.orbit_ws_url, b.orbit_ws_url)
}

/// The remote backend must be reset exactly when a transport-facing setting
/// changed; a change of theme or any other cosmetic field keeps it.
pub fn should_reset_remote_backend(previous: &AppSettings, updated: &AppSettings) -> (r: bool)
    ensures
        r == !transport_settings_equal(*previous, *updated),
{
    let backend_mode_changed = match (&previous.backend_mode, &updated.backend_mode) {
        (BackendMode::Local, BackendMode::Local) => false,
        (BackendMode::Remote, BackendMode::Remote) => false,
        _ => true,
    };
    let provider_changed = match (&previous.remote_backend_provider, &updated.remote_backend_provider) {
        (RemoteBackendProvider::Tcp, RemoteBackendProvider::Tcp) => false,
        (RemoteBackendProvider::Orbit, RemoteBackendProvider::Orbit) => false,
        _ => true,
    };
    backend_mode_changed || provider_changed || !opt_text_eq_exec(
        &previous.remote_backend_host,
        &updated.remote_backend_host,
    ) || !opt_text_eq_exec(&previous.remote_backend_token, &updated.remote_backend_token)
        || !opt_text_eq_exec(&previous.orbit_ws_url, &updated.orbit_ws_url)
}

} // verus!
