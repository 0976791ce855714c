use icue_kb_games::config::{parse_port, resolve_endpoint, Endpoint, DEFAULT_PORT};
use icue_kb_games::error::ConfigError;

#[test]
fn endpoint_defaults_to_this_machine_and_the_usual_port() {
    assert_eq!(
        resolve_endpoint(None, None),
        Ok(Endpoint { host: "127.0.0.1".to_string(), port: 6742 })
    );
    assert_eq!(DEFAULT_PORT, 6742);
}

#[test]
fn endpoint_takes_the_overrides() {
    assert_eq!(
        resolve_endpoint(Some("lights.local"), Some("7000")),
        Ok(Endpoint { host: "lights.local".to_string(), port: 7000 })
    );
    assert_eq!(
        resolve_endpoint(Some("10.0.0.2"), None),
        Ok(Endpoint { host: "10.0.0.2".to_string(), port: 6742 })
    );
    assert_eq!(
        resolve_endpoint(None, Some("1")),
        Ok(Endpoint { host: "127.0.0.1".to_string(), port: 1 })
    );
}

#[test]
fn malformed_port_is_a_configuration_error() {
    for text in ["", "abc", "65536", "-1", " 80", "80 ", "8_0", "+", "0x50", "1e3", "７"] {
        assert_eq!(resolve_endpoint(None, Some(text)), Err(ConfigError::InvalidPort), "{text:?}");
    }
}

#[test]
fn port_is_read_as_the_standard_library_reads_it() {
    let samples = [
        "0", "1", "80", "6742", "65535", "65536", "99999", "+80", "+0", "++80", "-0", "0080",
        "000000000000000000065535", "000000000000000000065536", "4294967296", "", "+", "-",
        "12a", "a12", " 12", "12 ", "1 2", "٣", "18446744073709551616",
    ];
    for text in samples {
        assert_eq!(parse_port(text), text.parse::<u16>().ok(), "{text:?}");
    }
}
