use rumenx_blackjack::config::{decimal_string, parse_port_text, AppConfig};

#[test]
fn test_default_config() {
    let config = AppConfig {
        port: 8083,
        host: "0.0.0.0".to_string(),
    };
    assert_eq!(config.port, 8083);
    assert_eq!(config.host, "0.0.0.0");
    assert_eq!(config.bind_addr(), "0.0.0.0:8083");
}

#[test]
fn test_settings_defaults() {
    let config = AppConfig::from_settings(None, None);
    assert_eq!(config.port, 8083);
    assert_eq!(config.host, "0.0.0.0");
}

#[test]
fn test_settings_given() {
    let config = AppConfig::from_settings(Some("9000"), Some("127.0.0.1".to_string()));
    assert_eq!(config.port, 9000);
    assert_eq!(config.bind_addr(), "127.0.0.1:9000");
}

#[test]
fn test_invalid_port_falls_back_to_default() {
    for text in ["", "+", "abc", "-1", "70000", "65536", " 80", "8o"] {
        assert_eq!(AppConfig::from_settings(Some(text), None).port, 8083, "{text:?}");
    }
}

#[test]
fn test_port_parsing_matches_std() {
    for text in [
        "0", "1", "80", "+80", "0080", "65535", "65536", "99999999999", "", "+", "++1", "-0", "1a",
        "٣", "8083",
    ] {
        assert_eq!(parse_port_text(text), text.parse::<u16>().ok(), "{text:?}");
    }
}

#[test]
fn test_decimal_string() {
    for n in [0u16, 7, 10, 99, 100, 8083, 65535] {
        assert_eq!(decimal_string(n), n.to_string());
    }
}
