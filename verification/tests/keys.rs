use handterm::synthetic_key::{
    parse_synthetic_key, parse_synthetic_physical_key, NamedKeyName, NamedPhysicalKey,
    PhysicalKeyName, SyntheticKey,
};

#[test]
fn parse_synthetic_key_supports_named_and_character_keys() {
    assert_eq!(parse_synthetic_key("space"), SyntheticKey::Named(NamedKeyName::Space));
    assert_eq!(parse_synthetic_key("Backspace"), SyntheticKey::Named(NamedKeyName::Backspace));
    assert_eq!(parse_synthetic_key("capslock"), SyntheticKey::Named(NamedKeyName::CapsLock));
    assert_eq!(parse_synthetic_key("num_lock"), SyntheticKey::Named(NamedKeyName::NumLock));
    assert_eq!(parse_synthetic_key("clear"), SyntheticKey::Named(NamedKeyName::Clear));
    assert_eq!(parse_synthetic_key("context_menu"), SyntheticKey::Named(NamedKeyName::ContextMenu));
    assert_eq!(parse_synthetic_key("x"), SyntheticKey::Character("x".into()));
    assert_eq!(parse_synthetic_key("👨‍💻"), SyntheticKey::Character("👨‍💻".into()));
}

#[test]
fn parse_synthetic_physical_key_supports_keypad_menu_and_side_specific_modifiers() {
    assert_eq!(
        parse_synthetic_physical_key(Some("context_menu")),
        Some(PhysicalKeyName::Named(NamedPhysicalKey::ContextMenu))
    );
    assert_eq!(
        parse_synthetic_physical_key(Some("numpad5")),
        Some(PhysicalKeyName::Named(NamedPhysicalKey::Numpad5))
    );
    assert_eq!(
        parse_synthetic_physical_key(Some("shift_right")),
        Some(PhysicalKeyName::Named(NamedPhysicalKey::ShiftRight))
    );
    assert_eq!(parse_synthetic_physical_key(Some("key_c")), Some(PhysicalKeyName::Letter(b'c')));
    assert_eq!(parse_synthetic_physical_key(Some("digit7")), Some(PhysicalKeyName::Digit(7)));
    assert_eq!(parse_synthetic_physical_key(Some("f12")), Some(PhysicalKeyName::Function(12)));
    assert_eq!(
        parse_synthetic_physical_key(Some("page_down")),
        Some(PhysicalKeyName::Named(NamedPhysicalKey::PageDown))
    );
    assert_eq!(
        parse_synthetic_physical_key(Some("backquote")),
        Some(PhysicalKeyName::Named(NamedPhysicalKey::Backquote))
    );
    assert_eq!(parse_synthetic_physical_key(Some("unknown")), None);
    assert_eq!(parse_synthetic_physical_key(None), None);
}

#[test]
fn physical_key_names_ignore_ascii_case_and_accept_both_spellings() {
    assert_eq!(parse_synthetic_physical_key(Some("KeyZ")), Some(PhysicalKeyName::Letter(b'z')));
    assert_eq!(parse_synthetic_physical_key(Some("DIGIT_0")), Some(PhysicalKeyName::Digit(0)));
    assert_eq!(
        parse_synthetic_physical_key(Some("Ctrl_Left")),
        Some(PhysicalKeyName::Named(NamedPhysicalKey::ControlLeft))
    );
    assert_eq!(parse_synthetic_physical_key(Some("key_cc")), None);
    assert_eq!(parse_synthetic_physical_key(Some("key1")), None);
}

#[test]
fn function_keys_read_their_number_as_unsigned_text() {
    assert_eq!(parse_synthetic_physical_key(Some("F1")), Some(PhysicalKeyName::Function(1)));
    assert_eq!(parse_synthetic_physical_key(Some("f35")), Some(PhysicalKeyName::Function(35)));
    assert_eq!(parse_synthetic_physical_key(Some("f+7")), Some(PhysicalKeyName::Function(7)));
    assert_eq!(parse_synthetic_physical_key(Some("f007")), Some(PhysicalKeyName::Function(7)));
    assert_eq!(parse_synthetic_physical_key(Some("f36")), None);
    assert_eq!(parse_synthetic_physical_key(Some("f0")), None);
    assert_eq!(parse_synthetic_physical_key(Some("f256")), None);
    assert_eq!(parse_synthetic_physical_key(Some("f")), None);
    assert_eq!(parse_synthetic_physical_key(Some("f+")), None);
    assert_eq!(parse_synthetic_physical_key(Some("f-1")), None);
}
