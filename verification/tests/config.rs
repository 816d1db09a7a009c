use seichi_ranking::config::{
    Config, ConfigError, ConfigField, DatabaseAuthorizationInfo, HttpConfig, Port,
};

fn pairs(items: &[(&str, &str)]) -> Vec<(String, String)> {
    items.iter().map(|(k, v)| (k.to_string(), v.to_string())).collect()
}

#[test]
fn config_read_config_from_iterator() {
    let setting = [
        ("HTTP_PORT".to_string(), "12345".to_string()),
        ("HTTP_HOST".to_string(), "127.0.0.1".to_string()),
        ("DB_HOST".to_string(), "example.com".to_string()),
        ("DB_PORT".to_string(), "3307".to_string()),
        ("DB_USER".to_string(), "bff".to_string()),
        ("DB_PASSWORD".to_string(), "$tr0ngpAssw0rd".to_string()),
    ];

    Config::from_iter(setting.into_iter().collect()).unwrap();
}

#[test]
fn config_holds_the_values_of_the_variables() {
    let config = Config::from_iter(pairs(&[
        ("HTTP_PORT", "12345"),
        ("HTTP_HOST", "127.0.0.1"),
        ("DB_HOST", "example.com"),
        ("DB_PORT", "3307"),
        ("DB_USER", "bff"),
        ("DB_PASSWORD", "$tr0ngpAssw0rd"),
    ]))
    .unwrap();
    assert_eq!(config.http_config.host, "127.0.0.1");
    assert_eq!(config.http_config.port, Port(12345));
    assert_eq!(config.database_authorization.host, "example.com");
    assert_eq!(config.database_authorization.port, Port(3307));
    assert_eq!(config.database_authorization.user, "bff");
    assert_eq!(config.database_authorization.password, "$tr0ngpAssw0rd");
}

#[test]
fn config_without_the_http_host_is_refused() {
    let r = Config::from_iter(pairs(&[
        ("HTTP_PORT", "12345"),
        ("DB_HOST", "example.com"),
        ("DB_PORT", "3307"),
        ("DB_USER", "bff"),
        ("DB_PASSWORD", "$tr0ngpAssw0rd"),
    ]));
    assert_eq!(r.unwrap_err(), ConfigError::MissingValue(ConfigField::Host));
}

#[test]
fn config_names_the_first_missing_field() {
    let all = [
        ("DB_HOST", "h", ConfigField::Host),
        ("DB_PORT", "1", ConfigField::Port),
        ("DB_USER", "u", ConfigField::User),
        ("DB_PASSWORD", "p", ConfigField::Password),
    ];
    for skip in 0..all.len() {
        let given: Vec<(String, String)> = all
            .iter()
            .enumerate()
            .filter(|(i, _)| *i != skip)
            .map(|(_, (k, v, _))| (k.to_string(), v.to_string()))
            .collect();
        let r = DatabaseAuthorizationInfo::from_iter(&given);
        assert_eq!(r.unwrap_err(), ConfigError::MissingValue(all[skip].2));
    }
    let r = DatabaseAuthorizationInfo::from_iter(&pairs(&[]));
    assert_eq!(r.unwrap_err(), ConfigError::MissingValue(ConfigField::Host));
    let r = HttpConfig::from_iter(&pairs(&[("HTTP_HOST", "h")]));
    assert_eq!(r.unwrap_err(), ConfigError::MissingValue(ConfigField::Port));
}

#[test]
fn config_refuses_a_port_that_is_no_port() {
    for bad in ["65536", "-1", "", "80a", " 80", "0x50", "99999999999999999999999", "+"] {
        let r = HttpConfig::from_iter(&pairs(&[("HTTP_HOST", "h"), ("HTTP_PORT", bad)]));
        assert_eq!(r.unwrap_err(), ConfigError::InvalidPort);
    }
    let r = HttpConfig::from_iter(&pairs(&[("HTTP_PORT", "http")]));
    assert_eq!(r.unwrap_err(), ConfigError::InvalidPort);
}

#[test]
fn config_accepts_the_edges_of_the_port_range() {
    for (text, port) in [("0", 0u16), ("65535", 65535), ("+443", 443), ("00080", 80)] {
        let http = HttpConfig::from_iter(&pairs(&[("HTTP_HOST", "h"), ("HTTP_PORT", text)]))
            .unwrap();
        assert_eq!(http.port, Port(port));
        assert_eq!(http.host, "h");
    }
}

#[test]
fn config_takes_only_the_names_under_its_prefix() {
    let http = HttpConfig::from_iter(&pairs(&[
        ("HOST", "bare"),
        ("DB_HOST", "database"),
        ("HTTP_HOST", "service"),
        ("HTTP_PORT", "8080"),
        ("HTTP_UNKNOWN", "x"),
        ("PORT", "1"),
    ]))
    .unwrap();
    assert_eq!(http.host, "service");
    assert_eq!(http.port, Port(8080));
}

#[test]
fn config_reads_names_in_any_case_after_the_prefix() {
    let http =
        HttpConfig::from_iter(&pairs(&[("HTTP_Host", "service"), ("HTTP_port", "8080")])).unwrap();
    assert_eq!(http.host, "service");
    assert_eq!(http.port, Port(8080));
    let r = HttpConfig::from_iter(&pairs(&[("http_host", "service"), ("http_port", "8080")]));
    assert_eq!(r.unwrap_err(), ConfigError::MissingValue(ConfigField::Host));
}

#[test]
fn config_refuses_a_field_that_is_given_twice() {
    let r = HttpConfig::from_iter(&pairs(&[
        ("HTTP_HOST", "first"),
        ("HTTP_PORT", "81"),
        ("HTTP_host", "second"),
    ]));
    assert_eq!(r.unwrap_err(), ConfigError::DuplicateField(ConfigField::Host));
    let r = DatabaseAuthorizationInfo::from_iter(&pairs(&[
        ("DB_USER", "u"),
        ("DB_DB_USER", "v"),
        ("DB_PORT", "no port"),
    ]));
    assert_eq!(r.unwrap_err(), ConfigError::DuplicateField(ConfigField::User));
    let r = DatabaseAuthorizationInfo::from_iter(&pairs(&[
        ("DB_PORT", "no port"),
        ("DB_USER", "u"),
        ("DB_User", "v"),
    ]));
    assert_eq!(r.unwrap_err(), ConfigError::InvalidPort);
    let r = HttpConfig::from_iter(&pairs(&[
        ("HTTP_USER", "u"),
        ("HTTP_user", "v"),
        ("HTTP_HOST", "h"),
        ("HTTP_PORT", "1"),
    ]));
    assert_eq!(r.unwrap().host, "h");
}

#[test]
fn from_fields_reads_each_field_once() {
    let r = HttpConfig::from_fields(&pairs(&[
        ("other", "x"),
        ("host", "first"),
        ("port", "81"),
        ("host", "second"),
    ]));
    assert_eq!(r.unwrap_err(), ConfigError::DuplicateField(ConfigField::Host));
    let http = HttpConfig::from_fields(&pairs(&[
        ("other", "x"),
        ("host", "first"),
        ("other", "y"),
        ("port", "81"),
    ]))
    .unwrap();
    assert_eq!(http.host, "first");
    assert_eq!(http.port, Port(81));
    let r = HttpConfig::from_fields(&pairs(&[("HOST", "h"), ("port", "81")]));
    assert_eq!(r.unwrap_err(), ConfigError::MissingValue(ConfigField::Host));
    let info = DatabaseAuthorizationInfo::from_fields(&pairs(&[
        ("password", "p"),
        ("user", "u"),
        ("port", "5432"),
        ("host", "h"),
    ]))
    .unwrap();
    assert_eq!(info.host, "h");
    assert_eq!(info.port, Port(5432));
    assert_eq!(info.user, "u");
    assert_eq!(info.password, "p");
}
