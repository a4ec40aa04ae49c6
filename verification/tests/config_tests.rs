use inventario_api::config::{Config, Environment, ServerConfig};
use inventario_api::error::AppError;
use inventario_api::text::parse_u16;
use inventario_api::yaml::parse_entries;

const DEV_FILE: &str = "server: {protocol: http, host: 0.0.0.0, port: 8080}\nlog:\n  level: info\ndatabase:\n  url: postgres://localhost/app\nredis:\n  url: redis://localhost:6379\nauth:\n  secret: changeme\n";

fn no_vars() -> Vec<(String, String)> {
    Vec::new()
}

#[test]
fn environment_known_variants() {
    for name in ["development", "dev", "DEVELOPMENT", "Dev", "dEvElOpMeNt"] {
        assert!(matches!(Environment::from_name(name), Environment::Development));
    }
    for name in ["production", "prod", "PRODUCTION", "Prod"] {
        assert!(matches!(Environment::from_name(name), Environment::Production));
    }
    for name in ["testing", "test", "TESTING", "Test"] {
        assert!(matches!(Environment::from_name(name), Environment::Testing));
    }
}

#[test]
fn environment_other_is_verbatim_lowercased() {
    match Environment::from_name("Staging") {
        Environment::Other(s) => assert_eq!(s, "staging"),
        _ => panic!("expected Other"),
    }
    match Environment::from_name("qa") {
        Environment::Other(s) => assert_eq!(s, "qa"),
        _ => panic!("expected Other"),
    }
}

#[test]
fn environment_resolution_order() {
    assert!(matches!(Environment::resolve(None, None), Environment::Development));
    assert!(matches!(Environment::resolve(None, Some("prod")), Environment::Production));
    assert!(matches!(Environment::resolve(Some("testing"), Some("prod")), Environment::Testing));
}

#[test]
fn environment_selects_config_file() {
    assert_eq!(Environment::Development.config_file_name(), "development.yaml");
    assert_eq!(Environment::Production.config_file_name(), "production.yaml");
    assert_eq!(Environment::Other(String::from("qa")).config_file_name(), "qa.yaml");
}

#[test]
fn server_address_and_url() {
    let s = ServerConfig {
        protocol: String::from("http"),
        host: String::from("0.0.0.0"),
        port: 8080,
    };
    assert_eq!(s.address(), "0.0.0.0:8080");
    assert_eq!(s.url(), "http://0.0.0.0:8080");
}

#[test]
fn load_development_fixture() {
    let c = Config::load(DEV_FILE, &no_vars()).unwrap();
    assert_eq!(c.server().address(), "0.0.0.0:8080");
    assert_eq!(c.server().url(), "http://0.0.0.0:8080");
    assert_eq!(c.server().protocol, "http");
    assert_eq!(c.log().level, "info");
    assert_eq!(c.database().url, "postgres://localhost/app");
    assert_eq!(c.redis().url, "redis://localhost:6379");
    assert_eq!(c.auth().secret, "changeme");
}

#[test]
fn overlay_overrides_only_the_port() {
    let vars = vec![(String::from("APP_SERVER__PORT"), String::from("9090"))];
    let c = Config::load(DEV_FILE, &vars).unwrap();
    assert_eq!(c.server().address(), "0.0.0.0:9090");
    assert_eq!(c.server().protocol, "http");
    assert_eq!(c.server().host, "0.0.0.0");
    assert_eq!(c.log().level, "info");
}

#[test]
fn overlay_ignores_unprefixed_variables() {
    let vars = vec![(String::from("SERVER__PORT"), String::from("9090"))];
    let c = Config::load(DEV_FILE, &vars).unwrap();
    assert_eq!(c.server().port, 8080);
}

#[test]
fn overlay_reaches_nested_keys_case_insensitively() {
    let vars = vec![(String::from("APP_DATABASE__URL"), String::from("postgres://db/prod"))];
    let c = Config::load(DEV_FILE, &vars).unwrap();
    assert_eq!(c.database().url, "postgres://db/prod");
}

#[test]
fn missing_section_is_a_config_error() {
    let text = "server: {protocol: http, host: 0.0.0.0, port: 8080}\nlog:\n  level: info\n";
    let r = Config::load(text, &no_vars());
    assert!(matches!(r, Err(AppError::Config(_))));
}

#[test]
fn invalid_port_is_a_config_error() {
    let vars = vec![(String::from("APP_SERVER__PORT"), String::from("70000"))];
    let r = Config::load(DEV_FILE, &vars);
    assert!(matches!(r, Err(AppError::Config(_))));
    let vars2 = vec![(String::from("APP_SERVER__PORT"), String::from("eight"))];
    assert!(matches!(Config::load(DEV_FILE, &vars2), Err(AppError::Config(_))));
}

#[test]
fn malformed_file_is_a_config_error() {
    let text = "server\nlog:\n  level: info\n";
    assert!(matches!(Config::load(text, &no_vars()), Err(AppError::Config(_))));
    let indented = "  level: info\n";
    assert!(matches!(Config::load(indented, &no_vars()), Err(AppError::Config(_))));
}

#[test]
fn loading_twice_is_idempotent() {
    let vars = vec![(String::from("APP_SERVER__PORT"), String::from("9090"))];
    let c1 = Config::load(DEV_FILE, &vars).unwrap();
    let c2 = Config::load(DEV_FILE, &vars).unwrap();
    assert_eq!(c1.server().protocol, c2.server().protocol);
    assert_eq!(c1.server().host, c2.server().host);
    assert_eq!(c1.server().port, c2.server().port);
    assert_eq!(c1.log().level, c2.log().level);
    assert_eq!(c1.database().url, c2.database().url);
    assert_eq!(c1.redis().url, c2.redis().url);
    assert_eq!(c1.auth().secret, c2.auth().secret);
}

#[test]
fn parser_reads_block_and_flow_styles() {
    let text = "# top comment\nserver: {protocol: https, host: example.org, port: 443}\n\nlog:\n  level: warn\n";
    let entries = parse_entries(text).unwrap();
    let got: Vec<(Vec<String>, String)> = entries
        .into_iter()
        .map(|e| (e.path, e.value))
        .collect();
    let expected = vec![
        (vec![String::from("server"), String::from("protocol")], String::from("https")),
        (vec![String::from("server"), String::from("host")], String::from("example.org")),
        (vec![String::from("server"), String::from("port")], String::from("443")),
        (vec![String::from("log"), String::from("level")], String::from("warn")),
    ];
    assert_eq!(got, expected);
}

#[test]
fn parse_u16_bounds() {
    assert_eq!(parse_u16("0"), Some(0));
    assert_eq!(parse_u16("8080"), Some(8080));
    assert_eq!(parse_u16("65535"), Some(65535));
    assert_eq!(parse_u16("65536"), None);
    assert_eq!(parse_u16(""), None);
    assert_eq!(parse_u16("80a"), None);
}

#[test]
fn later_file_entry_wins_on_duplicate_keys() {
    let text = "server: {protocol: http, host: 0.0.0.0, port: 8080}\nserver:\n  port: 9000\nlog:\n  level: info\ndatabase:\n  url: d\nredis:\n  url: r\nauth:\n  secret: s\n";
    let c = Config::load(text, &no_vars()).unwrap();
    assert_eq!(c.server().port, 9000);
    assert_eq!(c.server().host, "0.0.0.0");
}

#[test]
fn empty_file_is_a_config_error() {
    assert!(matches!(Config::load("", &no_vars()), Err(AppError::Config(_))));
}

#[test]
fn overlay_beats_both_file_layers() {
    let vars = vec![(String::from("APP_SERVER__PORT"), String::from("7000"))];
    let text = "server: {protocol: http, host: h, port: 8080}\nserver:\n  port: 9000\nlog:\n  level: info\ndatabase:\n  url: d\nredis:\n  url: r\nauth:\n  secret: s\n";
    let c = Config::load(text, &vars).unwrap();
    assert_eq!(c.server().port, 7000);
}

#[test]
fn environment_other_lowercases_non_ascii() {
    match Environment::from_name("\u{c9}TAPE") {
        Environment::Other(s) => assert_eq!(s, "\u{e9}tape"),
        _ => panic!("expected Other"),
    }
}

#[test]
fn quoted_scalars_lose_their_quotes() {
    let text = "server: {protocol: \"http\", host: \"0.0.0.0\", port: '8080'}\nlog:\n  level: \"info\"\ndatabase:\n  url: d\nredis:\n  url: r\nauth:\n  secret: s\n";
    let c = Config::load(text, &no_vars()).unwrap();
    assert_eq!(c.server().protocol, "http");
    assert_eq!(c.server().host, "0.0.0.0");
    assert_eq!(c.server().port, 8080);
    assert_eq!(c.log().level, "info");
}

#[test]
fn crlf_line_endings_are_accepted() {
    let text = "server: {protocol: http, host: 0.0.0.0, port: 8080}\r\nlog:\r\n  level: info\r\ndatabase:\r\n  url: d\r\nredis:\r\n  url: r\r\nauth:\r\n  secret: s\r\n";
    let c = Config::load(text, &no_vars()).unwrap();
    assert_eq!(c.server().address(), "0.0.0.0:8080");
    assert_eq!(c.log().level, "info");
}

#[test]
fn inline_comments_are_stripped_from_values() {
    let text = "server: {protocol: http, host: 0.0.0.0, port: 8080} # flow section\nlog: # opens the section\n  level: info # default level\ndatabase:\n  url: postgres://h/db#frag\nredis:\n  url: r\nauth:\n  secret: s\n";
    let c = Config::load(text, &no_vars()).unwrap();
    assert_eq!(c.server().port, 8080);
    assert_eq!(c.log().level, "info");
    assert_eq!(c.database().url, "postgres://h/db#frag");
}

#[test]
fn error_messages_name_the_failure() {
    let text = "server: {protocol: http, host: h, port: 8080}\nlog:\n  level: info\ndatabase:\n  url: d\nredis:\n  url: r\n";
    match Config::load(text, &no_vars()) {
        Err(AppError::Config(m)) => {
            assert_eq!(m, "missing or invalid configuration key: auth.secret");
        }
        _ => panic!("expected a configuration error"),
    }
    match Config::load("no colon here", &no_vars()) {
        Err(AppError::Config(m)) => {
            assert_eq!(m, "configuration parse error near: no colon here");
        }
        _ => panic!("expected a configuration error"),
    }
    let vars = vec![(String::from("APP_SERVER__PORT"), String::from("badport"))];
    match Config::load(DEV_FILE, &vars) {
        Err(AppError::Config(m)) => {
            assert_eq!(m, "missing or invalid configuration key: server.port");
        }
        _ => panic!("expected a configuration error"),
    }
}
