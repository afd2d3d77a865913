use chunked_fetch::config::{parse_i32, Config};
use chunked_fetch::settings::{Settings, DEFAULT_HOST, DEFAULT_PATH, DEFAULT_PORT, DEFAULT_TIMEOUT_SECS};
use chunked_fetch::file_downloader::{DEFAULT_CHUNK_SIZE, DEFAULT_RETRIES};

#[test]
fn test_parse_and_get_success() {
    let mut config = Config::new();
    let ini = "[request]\nhost=127.0.0.1\nport=8080\n[downloader]\nchunk_size=50000";
    config.parse(ini);

    assert_eq!(
        config.get_as_string("request", "host"),
        Some("127.0.0.1".to_string())
    );
    assert_eq!(config.get_as_int("request", "port"), Some(8080));
    assert_eq!(config.get_as_int("downloader", "chunk_size"), Some(50000));
}

#[test]
fn test_get_string_not_found() {
    let mut config = Config::new();
    let ini = "[request]\nhost=127.0.0.1";
    config.parse(ini);

    assert_eq!(config.get_as_string("request", "port"), None);
    assert_eq!(config.get_as_string("missing", "host"), None);
}

#[test]
fn test_get_int_errors() {
    let mut config = Config::new();
    let ini = "[request]\nhost=127.0.0.1\nport=abc\n[downloader]\nchunk_size=50000";
    config.parse(ini);

    assert_eq!(config.get_as_int("request", "timeout"), None);

    assert_eq!(config.get_as_int("request", "port"), None);
}

#[test]
fn test_empty_config() {
    let config = Config::new();
    assert_eq!(config.get_as_string("request", "host"), None);
    assert_eq!(config.get_as_int("request", "port"), None);
}

#[test]
fn test_comments_and_empty_lines() {
    let mut config = Config::new();
    let ini = "# Comment\n[request]\n\nhost=127.0.0.1\nport=8080";
    config.parse(ini);

    assert_eq!(config.get_as_string("request", "host"), Some("127.0.0.1".to_string()));
    assert_eq!(config.get_as_int("request", "port"), Some(8080));
}

#[test]
fn later_value_wins_and_whitespace_is_trimmed() {
    let mut config = Config::new();
    config.parse("  [ s ]\r\n ; note\r\n k = a b \r\nk=c\nno equals here\n[other]\nk = d = e\n");
    assert_eq!(config.get_as_string(" s ", "k"), Some("c".to_string()));
    assert_eq!(config.get_as_string("[ s ]", "k"), None);
    config.parse("[s]\nk=first\nk=second");
    assert_eq!(config.get_as_string("s", "k"), Some("second".to_string()));
    assert_eq!(config.get_as_string("other", "k"), Some("d = e".to_string()));
}

#[test]
fn keys_before_any_section_belong_to_the_empty_section() {
    let mut config = Config::new();
    config.parse("top=1\n[a]\nx=2");
    assert_eq!(config.get_as_int("", "top"), Some(1));
    assert_eq!(config.get_as_int("a", "top"), None);
}

#[test]
fn i32_parsing_follows_signs_and_range() {
    assert_eq!(parse_i32("42"), Some(42));
    assert_eq!(parse_i32("+7"), Some(7));
    assert_eq!(parse_i32("-2147483648"), Some(i32::MIN));
    assert_eq!(parse_i32("2147483647"), Some(i32::MAX));
    assert_eq!(parse_i32("2147483648"), None);
    assert_eq!(parse_i32("-2147483649"), None);
    assert_eq!(parse_i32("-"), None);
    assert_eq!(parse_i32(""), None);
    assert_eq!(parse_i32(" 1"), None);
    assert_eq!(parse_i32("1x"), None);
}

#[test]
fn missing_configuration_falls_back_to_defaults() {
    let s = Settings::from_config(&Config::new());
    assert_eq!(s.host, DEFAULT_HOST);
    assert_eq!(s.host, "127.0.0.1");
    assert_eq!(s.path, DEFAULT_PATH);
    assert_eq!(s.port, DEFAULT_PORT);
    assert_eq!(s.chunk_size, DEFAULT_CHUNK_SIZE);
    assert_eq!(s.retries, DEFAULT_RETRIES);
    assert_eq!(s.timeout_secs, DEFAULT_TIMEOUT_SECS);
}

#[test]
fn configured_values_override_defaults_when_usable() {
    let mut c = Config::new();
    c.parse("[request]\nhost=files.local\npath=data.bin\nport=70000\n[downloader]\nchunk_size=4096\nretries=0\ntimeout=9");
    let s = Settings::from_config(&c);
    assert_eq!(s.host, "files.local");
    assert_eq!(s.path, "/");
    assert_eq!(s.port, 8080);
    assert_eq!(s.chunk_size, 4096);
    assert_eq!(s.retries, 3);
    assert_eq!(s.timeout_secs, 9);
}
