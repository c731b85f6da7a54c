use sqs_worker::credentials::{
    credential_source, CredentialSource, ROLE_VARIABLE, TOKEN_FILE_VARIABLE,
};
use sqs_worker::settings::{ProbeAddr, Settings, DEFAULT_PROBE_PORT};
use sqs_worker::version::{version, BuildInfo};

fn build_info(git_version: Option<&str>) -> BuildInfo {
    BuildInfo {
        name: "sqs-worker".to_string(),
        version: "0.3.1".to_string(),
        git_version: git_version.map(|revision| revision.to_string()),
        profile: "release".to_string(),
        os: "linux".to_string(),
        arch: "x86_64".to_string(),
        built_time_utc: "Tue, 14 Jul 2020 09:12:44 +0000".to_string(),
    }
}

#[test]
fn version_line_with_revision() {
    assert_eq!(
        version(&build_info(Some("v0.3.1-2-gabc1234"))),
        "sqs-worker 0.3.1 (v0.3.1-2-gabc1234, release build, linux [x86_64], Tue, 14 Jul 2020 09:12:44 +0000)"
    );
}

#[test]
fn version_line_without_revision() {
    assert_eq!(
        version(&build_info(None)),
        "sqs-worker 0.3.1 (unknown, release build, linux [x86_64], Tue, 14 Jul 2020 09:12:44 +0000)"
    );
}

#[test]
fn version_line_of_empty_fields() {
    let info = BuildInfo {
        name: String::new(),
        version: String::new(),
        git_version: Some(String::new()),
        profile: String::new(),
        os: String::new(),
        arch: String::new(),
        built_time_utc: String::new(),
    };
    assert_eq!(version(&info), "  (,  build,  [], )");
}

#[test]
fn default_probe_address_is_every_interface_port_8080() {
    assert_eq!(DEFAULT_PROBE_PORT, 8080);
    assert_eq!(
        Settings::default_status_probe_addr(),
        ProbeAddr::V4 { octets: [0, 0, 0, 0], port: 8080 }
    );
}

#[test]
fn settings_fall_back_to_the_default_probe_address() {
    let settings = Settings::new("https://queue.example/jobs".to_string(), None);
    assert_eq!(settings.queue_url, "https://queue.example/jobs");
    assert_eq!(settings.status_probe_addr, ProbeAddr::V4 { octets: [0, 0, 0, 0], port: 8080 });
}

#[test]
fn settings_keep_a_configured_probe_address() {
    let v4 = ProbeAddr::V4 { octets: [127, 0, 0, 1], port: 9000 };
    let settings = Settings::new("https://queue.example/jobs".to_string(), Some(v4));
    assert_eq!(settings.status_probe_addr, v4);
    let v6 = ProbeAddr::V6 {
        segments: [0, 0, 0, 0, 0, 0, 0, 1],
        port: 8081,
        flowinfo: 0,
        scope_id: 0,
    };
    let settings = Settings::new(String::new(), Some(v6));
    assert_eq!(settings.status_probe_addr, v6);
    assert_eq!(settings.queue_url, "");
}

#[test]
fn web_identity_needs_token_file_and_role() {
    assert_eq!(
        credential_source(Some("/var/run/secrets/token"), Some("arn:aws:iam::1:role/worker")),
        CredentialSource::WebIdentity
    );
}

#[test]
fn default_credentials_when_a_variable_is_missing() {
    assert_eq!(credential_source(None, None), CredentialSource::Default);
    assert_eq!(credential_source(Some("/var/run/secrets/token"), None), CredentialSource::Default);
    assert_eq!(
        credential_source(None, Some("arn:aws:iam::1:role/worker")),
        CredentialSource::Default
    );
}

#[test]
fn default_credentials_when_a_variable_is_empty() {
    assert_eq!(
        credential_source(Some(""), Some("arn:aws:iam::1:role/worker")),
        CredentialSource::Default
    );
    assert_eq!(credential_source(Some("/var/run/secrets/token"), Some("")), CredentialSource::Default);
    assert_eq!(credential_source(Some(""), Some("")), CredentialSource::Default);
}

#[test]
fn web_identity_is_configured_by_two_variables() {
    assert_eq!(TOKEN_FILE_VARIABLE, "AWS_WEB_IDENTITY_TOKEN_FILE");
    assert_eq!(ROLE_VARIABLE, "AWS_ROLE_ARN");
}
