use dlpq::connection::{get_config_integrated_auth, get_select_query, server_address, AuthMethod};
use tiberius::Config;

#[test]
fn integrated_configuration() {
    let config = get_config_integrated_auth(
        "localhost".to_string(),
        1433,
        "MyDatabase".to_string(),
        true,
    );
    assert_eq!(config.host, "localhost");
    assert_eq!(config.port, 1433);
    assert_eq!(config.database, "MyDatabase");
    assert!(config.auth == AuthMethod::Integrated);
    assert!(config.trust_cert);
    assert_eq!(server_address(&config.to_config()), "localhost:1433");
}

#[test]
fn configuration_reaches_tiberius() {
    let config = get_config_integrated_auth("db.example".to_string(), 14330, "Sales".to_string(), true);
    let built = config.to_config();
    assert_eq!(built.get_addr(), "db.example:14330");
    let shown = format!("{:?}", built);
    assert!(shown.contains("host: Some(\"db.example\")"));
    assert!(shown.contains("port: Some(14330)"));
    assert!(shown.contains("database: Some(\"Sales\")"));
    assert!(shown.contains("trust: TrustAll"));
    let config = get_config_integrated_auth("h".to_string(), 1, "d".to_string(), false);
    assert!(format!("{:?}", config.to_config()).contains("trust: Default"));
}

#[test]
fn other_settings_are_those_of_a_new_configuration() {
    let config = get_config_integrated_auth("h".to_string(), 1, "d".to_string(), false);
    let shown = format!("{:?}", config.to_config());
    let plain = format!("{:?}", Config::new());
    for setting in [
        "instance_name: None",
        "application_name: None",
        "encryption: Required",
        "trust: Default",
        "auth: None",
        "readonly: false",
    ] {
        assert!(shown.contains(setting));
        assert!(plain.contains(setting));
    }
}

#[test]
fn settings_that_are_missing_have_defaults() {
    let mut config = Config::new();
    assert_eq!(server_address(&config), "localhost:1433");
    config.instance_name("SQLEXPRESS");
    assert_eq!(server_address(&config), "localhost:1434");
    config.port(99);
    config.host("h");
    assert_eq!(server_address(&config), "h:99");
}

#[test]
fn a_dot_is_the_local_host() {
    let config = get_config_integrated_auth(".".to_string(), 65535, "d".to_string(), false);
    assert_eq!(server_address(&config.to_config()), "localhost:65535");
    let config = get_config_integrated_auth("".to_string(), 0, "d".to_string(), false);
    assert_eq!(server_address(&config.to_config()), ":0");
}

#[test]
fn query_is_the_statement_without_parameters() {
    let query = get_select_query("SELECT * FROM MyFavoriteTable".to_string());
    assert_eq!(
        format!("{:?}", query),
        "Query { sql: \"SELECT * FROM MyFavoriteTable\", params: [] }"
    );
}
