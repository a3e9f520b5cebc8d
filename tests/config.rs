use url_shortener::config::Config;
use url_shortener::models::{CountryCount, RefererCount};

#[test]
fn config_defaults() {
    let c = Config::from_settings(
        Some("postgres://db".to_string()),
        None,
        None,
        None,
        Some("http://sho.rt".to_string()),
    )
    .unwrap();
    assert_eq!(c.database_url, "postgres://db");
    assert_eq!(c.server_host, "127.0.0.1");
    assert_eq!(c.server_port, 8080);
    assert_eq!(c.short_code_length, 6);
    assert_eq!(c.base_url, "http://sho.rt");
}

#[test]
fn config_explicit_values() {
    let c = Config::from_settings(
        Some("d".to_string()),
        Some("0.0.0.0".to_string()),
        Some(3000),
        Some(9),
        Some("b".to_string()),
    )
    .unwrap();
    assert_eq!(c.server_host, "0.0.0.0");
    assert_eq!(c.server_port, 3000);
    assert_eq!(c.short_code_length, 9);
}

#[test]
fn config_requires_addresses() {
    assert!(Config::from_settings(None, None, None, None, Some("b".to_string())).is_none());
    assert!(Config::from_settings(Some("d".to_string()), None, None, None, None).is_none());
}

#[test]
fn analytics_rows() {
    let c = CountryCount { country: "NL".to_string(), count: 3 };
    let r = RefererCount { referer: "https://news.example".to_string(), count: 1 };
    assert_eq!(c.clone(), c);
    assert_eq!(r.count, 1);
}
