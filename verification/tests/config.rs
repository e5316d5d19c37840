use hydra_tnc::config::{LoadAction, LoadEvent, CONFIG_FILE_NAME};
use hydra_tnc::{Bandwidth, HydraConfig};

fn load(event: LoadEvent<String>) -> LoadAction<String> {
    HydraConfig::load(event)
}

#[test]
fn default_config() {
    let config = HydraConfig::default();
    assert_eq!(config.mercury_host, "127.0.0.1");
    assert_eq!(config.mercury_base_port, 8300);
    assert_eq!(config.mercury_data_port, 8301);
    assert_eq!(config.mercury_data_port, config.mercury_base_port + 1);
    assert_eq!(config.mercury_bandwidth, Bandwidth::BW500);
    assert_eq!(config.callsign, "");
    assert_eq!(config.mercury_address(), "127.0.0.1:8300");
    assert_eq!(CONFIG_FILE_NAME, "hydra-config.json");
}

#[test]
fn address_of_mercury() {
    let mut config = HydraConfig::default();
    config.mercury_host = "::1".to_string();
    config.mercury_base_port = 65535;
    assert_eq!(config.mercury_address(), "::1:65535");
    config.mercury_host = "10.0.0.2".to_string();
    config.mercury_base_port = 0;
    assert_eq!(config.mercury_address(), "10.0.0.2:0");
}

#[test]
fn a_missing_file_is_made_and_used() {
    let config = match load(LoadEvent::NotFound) {
        LoadAction::Save(config) => config,
        other => panic!("{:?}", other),
    };
    assert_eq!(config.callsign, "");
    assert_eq!(config.mercury_base_port, 8300);
    match load(LoadEvent::Saved(config)) {
        LoadAction::Use(config) => assert_eq!(config.mercury_host, "127.0.0.1"),
        other => panic!("{:?}", other),
    }
}

#[test]
fn a_file_is_used_if_it_has_a_callsign() {
    assert!(matches!(load(LoadEvent::Opened), LoadAction::Read));
    let mut config = HydraConfig::default();
    assert!(matches!(load(LoadEvent::Parsed(config.clone())), LoadAction::RefuseWithoutCallsign));
    config.callsign = "N0CALL".to_string();
    match load(LoadEvent::Parsed(config)) {
        LoadAction::Use(config) => assert_eq!(config.callsign, "N0CALL"),
        other => panic!("{:?}", other),
    }
}

#[test]
fn failures_are_passed_on() {
    match load(LoadEvent::Failed("no disk".to_string())) {
        LoadAction::Fail(e) => assert_eq!(e, "no disk"),
        other => panic!("{:?}", other),
    }
}
