use review::options::{
    parse_port, resolve_option, resolve_port, resolve_with, resolve_with_optional, EnvironmentValue,
};

fn read_port(s: String) -> Result<u16, std::num::ParseIntError> {
    s.parse()
}

#[test]
fn command_line_value_wins() {
    assert_eq!(
        resolve_with(Some(1u16), EnvironmentValue::Present("2".to_string()), read_port, 3),
        1
    );
    assert_eq!(
        resolve_option(Some("cli".to_string()), EnvironmentValue::NotUnicode, "default".to_string()),
        "cli"
    );
    assert_eq!(
        resolve_with_optional(Some(5u16), EnvironmentValue::Present("6".to_string()), read_port),
        Some(5)
    );
}

#[test]
fn environment_value_is_used_without_command_line() {
    assert_eq!(resolve_with(None, EnvironmentValue::Present("6680".to_string()), read_port, 1), 6680);
    assert_eq!(
        resolve_option(None, EnvironmentValue::Present("10.0.0.2".to_string()), "10.11.99.1".to_string()),
        "10.0.0.2"
    );
    assert_eq!(
        resolve_with_optional(None, EnvironmentValue::Present("22".to_string()), read_port),
        Some(22)
    );
}

#[test]
fn default_without_command_line_or_environment() {
    assert_eq!(resolve_with(None, EnvironmentValue::NotPresent, read_port, 6680), 6680);
    assert_eq!(
        resolve_option(None, EnvironmentValue::NotPresent, "10.11.99.1".to_string()),
        "10.11.99.1"
    );
    assert_eq!(resolve_with_optional(None, EnvironmentValue::NotPresent, read_port), None);
}

#[test]
fn optional_value_ignores_empty_and_non_unicode_variables() {
    assert_eq!(
        resolve_with_optional(None, EnvironmentValue::Present(String::new()), read_port),
        None
    );
    assert_eq!(resolve_with_optional(None, EnvironmentValue::NotUnicode, read_port), None);
}

#[test]
fn port_numbers_are_read_as_str_parse_reads_them() {
    assert_eq!(parse_port("6680"), Some(6680));
    assert_eq!(parse_port("+22"), Some(22));
    assert_eq!(parse_port("0"), Some(0));
    assert_eq!(parse_port("65535"), Some(65535));
    assert_eq!(parse_port("65536"), None);
    assert_eq!(parse_port("99999999999999999999999"), None);
    assert_eq!(parse_port(""), None);
    assert_eq!(parse_port("+"), None);
    assert_eq!(parse_port("-1"), None);
    assert_eq!(parse_port(" 80"), None);
    assert_eq!(parse_port("8o"), None);
    for text in ["1", "443", "08080", "+65535", "65536", "x", "-0"] {
        assert_eq!(parse_port(text), text.parse::<u16>().ok());
    }
}

#[test]
fn port_comes_from_command_line_then_environment_then_default() {
    assert_eq!(resolve_port(Some(1), EnvironmentValue::Present("2".to_string()), 6680), 1);
    assert_eq!(resolve_port(None, EnvironmentValue::Present("2222".to_string()), 6680), 2222);
    assert_eq!(resolve_port(None, EnvironmentValue::NotPresent, 6680), 6680);
    assert_eq!(resolve_port(Some(7), EnvironmentValue::NotUnicode, 6680), 7);
}
