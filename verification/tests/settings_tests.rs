use forge_engine::settings::{should_reset_remote_backend, AppSettings, BackendMode, RemoteBackendProvider};

#[test]
fn should_reset_remote_backend_when_provider_changes() {
    let previous = AppSettings::default();
    let mut updated = previous.clone();
    updated.remote_backend_provider = RemoteBackendProvider::Orbit;
    assert!(should_reset_remote_backend(&previous, &updated));
}

#[test]
fn should_reset_remote_backend_when_transport_token_changes() {
    let previous = AppSettings::default();
    let mut updated = previous.clone();
    updated.remote_backend_token = Some("token-1".to_string());
    assert!(should_reset_remote_backend(&previous, &updated));
}

#[test]
fn should_not_reset_remote_backend_for_non_transport_setting_changes() {
    let previous = AppSettings::default();
    let mut updated = previous.clone();
    updated.theme = "dark".to_string();
    updated.backend_mode = BackendMode::Local;
    assert!(!should_reset_remote_backend(&previous, &updated));
}

#[test]
fn switching_to_remote_mode_resets_the_backend() {
    let previous = AppSettings::default();
    let mut updated = previous.clone();
    updated.backend_mode = BackendMode::Remote;
    assert!(should_reset_remote_backend(&previous, &updated));
}

#[test]
fn identical_settings_keep_the_backend() {
    let previous = AppSettings::default();
    let updated = previous.clone();
    assert!(!should_reset_remote_backend(&previous, &updated));
}
