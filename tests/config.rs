use rss::config::{Config, ConfigError, Editor};

#[test]
fn parses_all_options() {
    let c = Config::parse("$0=true\n$1=false\n$2=true\n$3=nvim\n").unwrap();
    assert!(*c.check_hash());
    assert!(!*c.base64());
    assert!(*c.new_dir());
    assert_eq!(*c.editor(), Editor::Nvim);
}

#[test]
fn options_in_any_order_with_crlf() {
    let c = Config::parse("# settings\r\n$3=code\r\n$2=false\r\n$1=true\r\n$0=yes\r\n").unwrap();
    assert!(!*c.check_hash());
    assert!(*c.base64());
    assert!(!*c.new_dir());
    assert_eq!(*c.editor(), Editor::Code);
}

#[test]
fn missing_option_is_reported_in_order() {
    assert_eq!(Config::parse("$0=true\n$2=true\n$3=nano").err(), Some(ConfigError::MissingOption(1)));
    assert_eq!(Config::parse("").err(), Some(ConfigError::MissingOption(0)));
}

#[test]
fn unsupported_editor() {
    assert_eq!(
        Config::parse("$0=true\n$1=true\n$2=true\n$3=emacs\n").err(),
        Some(ConfigError::UnsupportedEditor("emacs".to_string()))
    );
}

#[test]
fn editor_names() {
    assert_eq!(Editor::from_str("code"), Ok(Editor::Code));
    assert_eq!(Editor::from_str("nvim"), Ok(Editor::Nvim));
    assert_eq!(Editor::from_str("nano"), Ok(Editor::Nano));
    assert_eq!(Editor::from_str("Nano"), Err(ConfigError::UnsupportedEditor("Nano".to_string())));
}
