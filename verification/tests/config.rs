use upload_core::config::ConfigData;
use upload_core::config::LocalConfig;
use upload_core::errors::UploadError;
use upload_core::localhost::LocalMethod;

fn config(directory: &str, domain: Option<&str>) -> ConfigData {
    ConfigData {
        local_config: Some(LocalConfig {
            directory: directory.to_string(),
            domain: domain.map(|d| d.to_string()),
        }),
    }
}

#[test]
fn missing_local_config_is_a_config_error() {
    let r = LocalMethod::new(&ConfigData { local_config: None });
    assert!(matches!(r, Err(UploadError::Config(_))));
}

#[test]
fn malformed_domain_is_a_config_error() {
    let r = LocalMethod::new(&config("assets", Some("not a url")));
    let e = r.err().expect("expected a configuration error");
    assert!(matches!(e, UploadError::Config(_)));
    assert!(e.message().contains("Malformed domain URL"));
}

#[test]
fn valid_domain_is_normalized() {
    let m = LocalMethod::new(&config("assets", Some("http://localhost:8910"))).unwrap();
    assert_eq!(m.directory, "assets");
    // The URL parser normalizes the serialization; the stored domain is not
    // the raw configured string.
    assert_eq!(m.domain, "http://localhost:8910/");
}

#[test]
fn absent_domain_falls_back_to_default() {
    let m = LocalMethod::new(&config("assets", None)).unwrap();
    assert_eq!(m.domain, "http://localhost:8910");
}
