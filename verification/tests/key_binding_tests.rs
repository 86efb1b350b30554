use zim::config::{Config, KeyBinding, KeyBindings};
use zim::keys::{KeyCode, KeyEvent, KeyModifiers};

#[test]
fn test_key_binding_matches() {
    let binding = KeyBinding::new("n").with_modifier("ctrl");
    let ctrl_n = KeyEvent::new(KeyCode::Char('n'), KeyModifiers::ctrl());
    assert!(binding.matches(&ctrl_n));
    let alt_n = KeyEvent::new(KeyCode::Char('n'), KeyModifiers { control: false, alt: true, shift: false });
    assert!(!binding.matches(&alt_n));
    let just_n = KeyEvent::new(KeyCode::Char('n'), KeyModifiers::none());
    assert!(!binding.matches(&just_n));
}

#[test]
fn test_default_key_bindings() {
    let bindings = KeyBindings::default();
    if let Some(new_tab_binding) = bindings.normal_mode.get("new_tab") {
        assert_eq!(new_tab_binding.key, "n");
        assert!(new_tab_binding.modifiers.contains(&"ctrl".to_string()));
    } else {
        panic!("No binding found for new_tab");
    }
}

#[test]
fn function_keys_and_named_keys_match() {
    let f12 = KeyBinding::new("f12");
    assert!(f12.matches(&KeyEvent::new(KeyCode::F(12), KeyModifiers::none())));
    assert!(!f12.matches(&KeyEvent::new(KeyCode::F(1), KeyModifiers::none())));
    let esc = KeyBinding::new("esc");
    assert!(esc.matches(&KeyEvent::new(KeyCode::Esc, KeyModifiers::none())));
    let bad = KeyBinding::new("x").with_modifier("hyper");
    assert!(!bad.matches(&KeyEvent::new(KeyCode::Char('x'), KeyModifiers::ctrl())));
}

#[test]
fn default_config_values() {
    let config = Config::default();
    assert_eq!(config.tab_size, 4);
    assert!(config.line_numbers);
    assert!(config.wrap_text);
    assert_eq!(config.theme.background, "#282c34");
    assert_eq!(config.key_bindings.normal_mode.len(), 42);
    assert_eq!(config.key_bindings.file_finder_mode.get("select").unwrap().key, "enter");
    let quit = config.key_bindings.normal_mode.get("quit").unwrap();
    assert_eq!(quit.key, "q");
    assert!(quit.modifiers.is_empty());
}
