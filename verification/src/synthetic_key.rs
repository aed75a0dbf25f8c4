//! Names of keys in scripted (synthetic) key events: the logical key a name
//! stands for, and the physical key a name stands for. Names are matched
//! without regard to ASCII case.

use vstd::prelude::*;
use vstd::string::StringSliceAdditionalSpecFns;

verus! {

/// A named logical key.
#[derive(Debug, Clone, Copy, PartialEq, Eq, Structural)]
pub enum NamedKeyName {
    Enter,
    Tab,
    Escape,
    Backspace,
    Space,
    ArrowUp,
    ArrowDown,
    ArrowLeft,
    ArrowRight,
    Home,
    End,
    Delete,
    Clear,
    ContextMenu,
    PageUp,
    PageDown,
    Alt,
    Shift,
    Control,
    Super,
    CapsLock,
    NumLock,
}

/// The logical key of a synthetic event: a named key, or the text itself.
#[derive(Debug, Clone, PartialEq, Eq)]
pub enum SyntheticKey {
    Named(NamedKeyName),
    Character(String),
}

/// A physical key with a name of its own.
#[derive(Debug, Clone, Copy, PartialEq, Eq, Structural)]
pub enum NamedPhysicalKey {
    Escape,
    Tab,
    Enter,
    Space,
    Backspace,
    Delete,
    Insert,
    Home,
    End,
    PageUp,
    PageDown,
    ArrowUp,
    ArrowDown,
    ArrowLeft,
    ArrowRight,
    CapsLock,
    NumLock,
    ScrollLock,
    PrintScreen,
    Pause,
    ContextMenu,
    Backquote,
    Minus,
    Equal,
    BracketLeft,
    BracketRight,
    Backslash,
    Semicolon,
    Quote,
    Comma,
    Period,
    Slash,
    ShiftLeft,
    ShiftRight,
    ControlLeft,
    ControlRight,
    AltLeft,
    AltRight,
    SuperLeft,
    SuperRight,
    Meta,
    Hyper,
    Numpad0,
    Numpad1,
    Numpad2,
    Numpad3,
    Numpad4,
    Numpad5,
    Numpad6,
    Numpad7,
    Numpad8,
    Numpad9,
    NumpadDecimal,
    NumpadDivide,
    NumpadMultiply,
    NumpadSubtract,
    NumpadAdd,
    NumpadEnter,
    NumpadEqual,
    NumpadComma,
}

/// The physical key of a synthetic event: a named key, a letter key (its
/// lower-case ASCII letter), a digit key (its value) or a function key (its
/// number).
#[derive(Debug, Clone, Copy, PartialEq, Eq, Structural)]
pub enum PhysicalKeyName {
    Named(NamedPhysicalKey),
    Letter(u8),
    Digit(u8),
    Function(u8),
}

/// ASCII lower case of one byte; other bytes are unchanged.
pub open spec fn ascii_lower(b: u8) -> u8 {
    if 0x41 <= b <= 0x5a {
        (b + 0x20) as u8
    } else {
        b
    }
}

/// ASCII lower case of a byte string.
pub open spec fn lower_bytes(s: Seq<u8>) -> Seq<u8> {
    s.map_values(|b: u8| ascii_lower(b))
}

fn lowercase(s: &[u8]) -> (r: Vec<u8>)
    ensures
        r@ == lower_bytes(s@),
{
    let mut out: Vec<u8> = Vec::new();
    let mut i: usize = 0;
    while i < s.len()
        invariant
            i <= s@.len(),
            out@ == lower_bytes(s@.take(i as int)),
        decreases s.len() - i,
    {
        let b = s[i];
        let l: u8 = if 0x41 <= b && b <= 0x5a { b + 0x20 } else { b };
        out.push(l);
        i += 1;
        assert(out@ =~= lower_bytes(s@.take(i as int)));
    }
    assert(s@.take(s@.len() as int) =~= s@);
    out
}

fn bytes_equal(a: &[u8], b: &[u8]) -> (r: bool)
    ensures
        r == (a@ == b@),
{
    if a.len() != b.len() {
        return false;
    }
    let mut i: usize = 0;
    while i < a.len()
        invariant
            i <= a@.len(),
            a@.len() == b@.len(),
            forall|k: int| 0 <= k < i ==> a@[k] == b@[k],
        decreases a.len() - i,
    {
        if a[i] != b[i] {
            return false;
        }
        i += 1;
    }
    assert(a@ =~= b@);
    true
}

/// The value of the first entry at or after `from` whose name is `key`.
pub open spec fn lookup_name<T>(table: Seq<(&str, T)>, key: Seq<u8>, from: int) -> Option<T>
    decreases table.len() - from,
{
    if from < 0 || from >= table.len() {
        None
    } else if table[from].0.spec_bytes() == key {
        Some(table[from].1)
    } else {
        lookup_name(table, key, from + 1)
    }
}

fn find_name<T: Copy>(table: &Vec<(&'static str, T)>, key: &[u8]) -> (r: Option<T>)
    ensures
        r == lookup_name(table@, key@, 0),
{
    let mut i: usize = 0;
    while i < table.len()
        invariant
            i <= table@.len(),
            lookup_name(table@, key@, 0) == lookup_name(table@, key@, i as int),
        decreases table.len() - i,
    {
        let (name, value) = table[i];
        if bytes_equal(name.as_bytes(), key) {
            return Some(value);
        }
        i += 1;
    }
    None
}

/// The names of logical keys, aliases included.
#[verifier::opaque]
pub open spec fn logical_names() -> Seq<(&'static str, NamedKeyName)> {
    seq![
        ("enter", NamedKeyName::Enter),
        ("return", NamedKeyName::Enter),
        ("tab", NamedKeyName::Tab),
        ("escape", NamedKeyName::Escape),
        ("esc", NamedKeyName::Escape),
        ("backspace", NamedKeyName::Backspace),
        ("space", NamedKeyName::Space),
        ("up", NamedKeyName::ArrowUp),
        ("down", NamedKeyName::ArrowDown),
        ("left", NamedKeyName::ArrowLeft),
        ("right", NamedKeyName::ArrowRight),
        ("home", NamedKeyName::Home),
        ("end", NamedKeyName::End),
        ("delete", NamedKeyName::Delete),
        ("clear", NamedKeyName::Clear),
        ("menu", NamedKeyName::ContextMenu),
        ("context_menu", NamedKeyName::ContextMenu),
        ("contextmenu", NamedKeyName::ContextMenu),
        ("page_up", NamedKeyName::PageUp),
        ("pageup", NamedKeyName::PageUp),
        ("page_down", NamedKeyName::PageDown),
        ("pagedown", NamedKeyName::PageDown),
        ("alt", NamedKeyName::Alt),
        ("shift", NamedKeyName::Shift),
        ("control", NamedKeyName::Control),
        ("ctrl", NamedKeyName::Control),
        ("super", NamedKeyName::Super),
        ("meta", NamedKeyName::Super),
        ("caps_lock", NamedKeyName::CapsLock),
        ("capslock", NamedKeyName::CapsLock),
        ("num_lock", NamedKeyName::NumLock),
        ("numlock", NamedKeyName::NumLock),
    ]
}

fn logical_name_table() -> (t: Vec<(&'static str, NamedKeyName)>)
    ensures
        t@ == logical_names(),
{
    let t = vec![
        ("enter", NamedKeyName::Enter),
        ("return", NamedKeyName::Enter),
        ("tab", NamedKeyName::Tab),
        ("escape", NamedKeyName::Escape),
        ("esc", NamedKeyName::Escape),
        ("backspace", NamedKeyName::Backspace),
        ("space", NamedKeyName::Space),
        ("up", NamedKeyName::ArrowUp),
        ("down", NamedKeyName::ArrowDown),
        ("left", NamedKeyName::ArrowLeft),
        ("right", NamedKeyName::ArrowRight),
        ("home", NamedKeyName::Home),
        ("end", NamedKeyName::End),
        ("delete", NamedKeyName::Delete),
        ("clear", NamedKeyName::Clear),
        ("menu", NamedKeyName::ContextMenu),
        ("context_menu", NamedKeyName::ContextMenu),
        ("contextmenu", NamedKeyName::ContextMenu),
        ("page_up", NamedKeyName::PageUp),
        ("pageup", NamedKeyName::PageUp),
        ("page_down", NamedKeyName::PageDown),
        ("pagedown", NamedKeyName::PageDown),
        ("alt", NamedKeyName::Alt),
        ("shift", NamedKeyName::Shift),
        ("control", NamedKeyName::Control),
        ("ctrl", NamedKeyName::Control),
        ("super", NamedKeyName::Super),
        ("meta", NamedKeyName::Super),
        ("caps_lock", NamedKeyName::CapsLock),
        ("capslock", NamedKeyName::CapsLock),
        ("num_lock", NamedKeyName::NumLock),
        ("numlock", NamedKeyName::NumLock),
    ];
    proof {
        reveal(logical_names);
    }
    assert(t@ =~= logical_names());
    t
}

/// The logical key a synthetic key name stands for: a known name (in any
/// ASCII case) is that named key; any other text is typed as it is.
pub open spec fn spec_synthetic_key(s: &str) -> Option<NamedKeyName> {
    lookup_name(logical_names(), lower_bytes(s.spec_bytes()), 0)
}

/// The logical key of a synthetic key event named `spec`.
pub fn parse_synthetic_key(spec: &str) -> (k: SyntheticKey)
    ensures
        match spec_synthetic_key(spec) {
            Some(named) => k == SyntheticKey::Named(named),
            None => k matches SyntheticKey::Character(text) && text@ == spec@,
        },
{
    let lower = lowercase(spec.as_bytes());
    let table = logical_name_table();
    match find_name(&table, lower.as_slice()) {
        Some(named) => SyntheticKey::Named(named),
        None => SyntheticKey::Character(String::from_str(spec)),
    }
}

/// The names of named physical keys, aliases included.
pub open spec fn physical_names() -> Seq<(&'static str, NamedPhysicalKey)> {
    seq![
        ("escape", NamedPhysicalKey::Escape),
        ("esc", NamedPhysicalKey::Escape),
        ("tab", NamedPhysicalKey::Tab),
        ("enter", NamedPhysicalKey::Enter),
        ("return", NamedPhysicalKey::Enter),
        ("space", NamedPhysicalKey::Space),
        ("backspace", NamedPhysicalKey::Backspace),
        ("delete", NamedPhysicalKey::Delete),
        ("insert", NamedPhysicalKey::Insert),
        ("home", NamedPhysicalKey::Home),
        ("end", NamedPhysicalKey::End),
        ("page_up", NamedPhysicalKey::PageUp),
        ("pageup", NamedPhysicalKey::PageUp),
        ("page_down", NamedPhysicalKey::PageDown),
        ("pagedown", NamedPhysicalKey::PageDown),
        ("up", NamedPhysicalKey::ArrowUp),
        ("arrow_up", NamedPhysicalKey::ArrowUp),
        ("arrowup", NamedPhysicalKey::ArrowUp),
        ("down", NamedPhysicalKey::ArrowDown),
        ("arrow_down", NamedPhysicalKey::ArrowDown),
        ("arrowdown", NamedPhysicalKey::ArrowDown),
        ("left", NamedPhysicalKey::ArrowLeft),
        ("arrow_left", NamedPhysicalKey::ArrowLeft),
        ("arrowleft", NamedPhysicalKey::ArrowLeft),
        ("right", NamedPhysicalKey::ArrowRight),
        ("arrow_right", NamedPhysicalKey::ArrowRight),
        ("arrowright", NamedPhysicalKey::ArrowRight),
        ("caps_lock", NamedPhysicalKey::CapsLock),
        ("capslock", NamedPhysicalKey::CapsLock),
        ("num_lock", NamedPhysicalKey::NumLock),
        ("numlock", NamedPhysicalKey::NumLock),
        ("scroll_lock", NamedPhysicalKey::ScrollLock),
        ("scrolllock", NamedPhysicalKey::ScrollLock),
        ("print_screen", NamedPhysicalKey::PrintScreen),
        ("printscreen", NamedPhysicalKey::PrintScreen),
        ("pause", NamedPhysicalKey::Pause),
        ("context_menu", NamedPhysicalKey::ContextMenu),
        ("contextmenu", NamedPhysicalKey::ContextMenu),
        ("menu", NamedPhysicalKey::ContextMenu),
        ("backquote", NamedPhysicalKey::Backquote),
        ("minus", NamedPhysicalKey::Minus),
        ("equal", NamedPhysicalKey::Equal),
        ("bracket_left", NamedPhysicalKey::BracketLeft),
        ("bracketleft", NamedPhysicalKey::BracketLeft),
        ("bracket_right", NamedPhysicalKey::BracketRight),
        ("bracketright", NamedPhysicalKey::BracketRight),
        ("backslash", NamedPhysicalKey::Backslash),
        ("semicolon", NamedPhysicalKey::Semicolon),
        ("quote", NamedPhysicalKey::Quote),
        ("comma", NamedPhysicalKey::Comma),
        ("period", NamedPhysicalKey::Period),
        ("slash", NamedPhysicalKey::Slash),
        ("shift_left", NamedPhysicalKey::ShiftLeft),
        ("shiftleft", NamedPhysicalKey::ShiftLeft),
        ("shift_right", NamedPhysicalKey::ShiftRight),
        ("shiftright", NamedPhysicalKey::ShiftRight),
        ("control_left", NamedPhysicalKey::ControlLeft),
        ("controlleft", NamedPhysicalKey::ControlLeft),
        ("ctrl_left", NamedPhysicalKey::ControlLeft),
        ("ctrlleft", NamedPhysicalKey::ControlLeft),
        ("control_right", NamedPhysicalKey::ControlRight),
        ("controlright", NamedPhysicalKey::ControlRight),
        ("ctrl_right", NamedPhysicalKey::ControlRight),
        ("ctrlright", NamedPhysicalKey::ControlRight),
        ("alt_left", NamedPhysicalKey::AltLeft),
        ("altleft", NamedPhysicalKey::AltLeft),
        ("alt_right", NamedPhysicalKey::AltRight),
        ("altright", NamedPhysicalKey::AltRight),
        ("super_left", NamedPhysicalKey::SuperLeft),
        ("superleft", NamedPhysicalKey::SuperLeft),
        ("super_right", NamedPhysicalKey::SuperRight),
        ("superright", NamedPhysicalKey::SuperRight),
        ("meta", NamedPhysicalKey::Meta),
        ("hyper", NamedPhysicalKey::Hyper),
        ("numpad0", NamedPhysicalKey::Numpad0),
        ("numpad1", NamedPhysicalKey::Numpad1),
        ("numpad2", NamedPhysicalKey::Numpad2),
        ("numpad3", NamedPhysicalKey::Numpad3),
        ("numpad4", NamedPhysicalKey::Numpad4),
        ("numpad5", NamedPhysicalKey::Numpad5),
        ("numpad6", NamedPhysicalKey::Numpad6),
        ("numpad7", NamedPhysicalKey::Numpad7),
        ("numpad8", NamedPhysicalKey::Numpad8),
        ("numpad9", NamedPhysicalKey::Numpad9),
        ("numpad_decimal", NamedPhysicalKey::NumpadDecimal),
        ("numpaddecimal", NamedPhysicalKey::NumpadDecimal),
        ("numpad_divide", NamedPhysicalKey::NumpadDivide),
        ("numpaddivide", NamedPhysicalKey::NumpadDivide),
        ("numpad_multiply", NamedPhysicalKey::NumpadMultiply),
        ("numpadmultiply", NamedPhysicalKey::NumpadMultiply),
        ("numpad_subtract", NamedPhysicalKey::NumpadSubtract),
        ("numpadsubtract", NamedPhysicalKey::NumpadSubtract),
        ("numpad_add", NamedPhysicalKey::NumpadAdd),
        ("numpadadd", NamedPhysicalKey::NumpadAdd),
        ("numpad_enter", NamedPhysicalKey::NumpadEnter),
        ("numpadenter", NamedPhysicalKey::NumpadEnter),
        ("numpad_equal", NamedPhysicalKey::NumpadEqual),
        ("numpadequal", NamedPhysicalKey::NumpadEqual),
        ("numpad_comma", NamedPhysicalKey::NumpadComma),
        ("numpadcomma", NamedPhysicalKey::NumpadComma),
    ]
}

fn physical_name_table() -> (t: Vec<(&'static str, NamedPhysicalKey)>)
    ensures
        t@ == physical_names(),
{
    let t = vec![
        ("escape", NamedPhysicalKey::Escape),
        ("esc", NamedPhysicalKey::Escape),
        ("tab", NamedPhysicalKey::Tab),
        ("enter", NamedPhysicalKey::Enter),
        ("return", NamedPhysicalKey::Enter),
        ("space", NamedPhysicalKey::Space),
        ("backspace", NamedPhysicalKey::Backspace),
        ("delete", NamedPhysicalKey::Delete),
        ("insert", NamedPhysicalKey::Insert),
        ("home", NamedPhysicalKey::Home),
        ("end", NamedPhysicalKey::End),
        ("page_up", NamedPhysicalKey::PageUp),
        ("pageup", NamedPhysicalKey::PageUp),
        ("page_down", NamedPhysicalKey::PageDown),
        ("pagedown", NamedPhysicalKey::PageDown),
        ("up", NamedPhysicalKey::ArrowUp),
        ("arrow_up", NamedPhysicalKey::ArrowUp),
        ("arrowup", NamedPhysicalKey::ArrowUp),
        ("down", NamedPhysicalKey::ArrowDown),
        ("arrow_down", NamedPhysicalKey::ArrowDown),
        ("arrowdown", NamedPhysicalKey::ArrowDown),
        ("left", NamedPhysicalKey::ArrowLeft),
        ("arrow_left", NamedPhysicalKey::ArrowLeft),
        ("arrowleft", NamedPhysicalKey::ArrowLeft),
        ("right", NamedPhysicalKey::ArrowRight),
        ("arrow_right", NamedPhysicalKey::ArrowRight),
        ("arrowright", NamedPhysicalKey::ArrowRight),
        ("caps_lock", NamedPhysicalKey::CapsLock),
        ("capslock", NamedPhysicalKey::CapsLock),
        ("num_lock", NamedPhysicalKey::NumLock),
        ("numlock", NamedPhysicalKey::NumLock),
        ("scroll_lock", NamedPhysicalKey::ScrollLock),
        ("scrolllock", NamedPhysicalKey::ScrollLock),
        ("print_screen", NamedPhysicalKey::PrintScreen),
        ("printscreen", NamedPhysicalKey::PrintScreen),
        ("pause", NamedPhysicalKey::Pause),
        ("context_menu", NamedPhysicalKey::ContextMenu),
        ("contextmenu", NamedPhysicalKey::ContextMenu),
        ("menu", NamedPhysicalKey::ContextMenu),
        ("backquote", NamedPhysicalKey::Backquote),
        ("minus", NamedPhysicalKey::Minus),
        ("equal", NamedPhysicalKey::Equal),
        ("bracket_left", NamedPhysicalKey::BracketLeft),
        ("bracketleft", NamedPhysicalKey::BracketLeft),
        ("bracket_right", NamedPhysicalKey::BracketRight),
        ("bracketright", NamedPhysicalKey::BracketRight),
        ("backslash", NamedPhysicalKey::Backslash),
        ("semicolon", NamedPhysicalKey::Semicolon),
        ("quote", NamedPhysicalKey::Quote),
        ("comma", NamedPhysicalKey::Comma),
        ("period", NamedPhysicalKey::Period),
        ("slash", NamedPhysicalKey::Slash),
        ("shift_left", NamedPhysicalKey::ShiftLeft),
        ("shiftleft", NamedPhysicalKey::ShiftLeft),
        ("shift_right", NamedPhysicalKey::ShiftRight),
        ("shiftright", NamedPhysicalKey::ShiftRight),
        ("control_left", NamedPhysicalKey::ControlLeft),
        ("controlleft", NamedPhysicalKey::ControlLeft),
        ("ctrl_left", NamedPhysicalKey::ControlLeft),
        ("ctrlleft", NamedPhysicalKey::ControlLeft),
        ("control_right", NamedPhysicalKey::ControlRight),
        ("controlright", NamedPhysicalKey::ControlRight),
        ("ctrl_right", NamedPhysicalKey::ControlRight),
        ("ctrlright", NamedPhysicalKey::ControlRight),
        ("alt_left", NamedPhysicalKey::AltLeft),
        ("altleft", NamedPhysicalKey::AltLeft),
        ("alt_right", NamedPhysicalKey::AltRight),
        ("altright", NamedPhysicalKey::AltRight),
        ("super_left", NamedPhysicalKey::SuperLeft),
        ("superleft", NamedPhysicalKey::SuperLeft),
        ("super_right", NamedPhysicalKey::SuperRight),
        ("superright", NamedPhysicalKey::SuperRight),
        ("meta", NamedPhysicalKey::Meta),
        ("hyper", NamedPhysicalKey::Hyper),
        ("numpad0", NamedPhysicalKey::Numpad0),
        ("numpad1", NamedPhysicalKey::Numpad1),
        ("numpad2", NamedPhysicalKey::Numpad2),
        ("numpad3", NamedPhysicalKey::Numpad3),
        ("numpad4", NamedPhysicalKey::Numpad4),
        ("numpad5", NamedPhysicalKey::Numpad5),
        ("numpad6", NamedPhysicalKey::Numpad6),
        ("numpad7", NamedPhysicalKey::Numpad7),
        ("numpad8", NamedPhysicalKey::Numpad8),
        ("numpad9", NamedPhysicalKey::Numpad9),
        ("numpad_decimal", NamedPhysicalKey::NumpadDecimal),
        ("numpaddecimal", NamedPhysicalKey::NumpadDecimal),
        ("numpad_divide", NamedPhysicalKey::NumpadDivide),
        ("numpaddivide", NamedPhysicalKey::NumpadDivide),
        ("numpad_multiply", NamedPhysicalKey::NumpadMultiply),
        ("numpadmultiply", NamedPhysicalKey::NumpadMultiply),
        ("numpad_subtract", NamedPhysicalKey::NumpadSubtract),
        ("numpadsubtract", NamedPhysicalKey::NumpadSubtract),
        ("numpad_add", NamedPhysicalKey::NumpadAdd),
        ("numpadadd", NamedPhysicalKey::NumpadAdd),
        ("numpad_enter", NamedPhysicalKey::NumpadEnter),
        ("numpadenter", NamedPhysicalKey::NumpadEnter),
        ("numpad_equal", NamedPhysicalKey::NumpadEqual),
        ("numpadequal", NamedPhysicalKey::NumpadEqual),
        ("numpad_comma", NamedPhysicalKey::NumpadComma),
        ("numpadcomma", NamedPhysicalKey::NumpadComma),
    ];
    assert(t@ =~= physical_names());
    t
}

pub open spec fn has_prefix(s: Seq<u8>, p: Seq<u8>) -> bool {
    p.len() <= s.len() && s.take(p.len() as int) == p
}

fn starts_with(s: &[u8], p: &[u8]) -> (b: bool)
    ensures
        b == has_prefix(s@, p@),
{
    if p.len() > s.len() {
        return false;
    }
    let mut i: usize = 0;
    while i < p.len()
        invariant
            i <= p@.len() <= s@.len(),
            forall|k: int| 0 <= k < i ==> s@[k] == p@[k],
        decreases p.len() - i,
    {
        if s[i] != p[i] {
            assert(s@.take(p@.len() as int)[i as int] != p@[i as int]);
            return false;
        }
        i += 1;
    }
    assert(s@.take(p@.len() as int) =~= p@);
    true
}

/// The bytes of `key_` and `key`.
pub open spec fn key_underscore() -> Seq<u8> {
    seq![0x6bu8, 0x65, 0x79, 0x5f]
}

pub open spec fn key_prefix() -> Seq<u8> {
    seq![0x6bu8, 0x65, 0x79]
}

/// The bytes of `digit_` and `digit`.
pub open spec fn digit_underscore() -> Seq<u8> {
    seq![0x64u8, 0x69, 0x67, 0x69, 0x74, 0x5f]
}

pub open spec fn digit_prefix() -> Seq<u8> {
    seq![0x64u8, 0x69, 0x67, 0x69, 0x74]
}

/// What follows `long` or else `short` at the start of `s`.
pub open spec fn strip_either(s: Seq<u8>, long: Seq<u8>, short: Seq<u8>) -> Option<Seq<u8>> {
    if has_prefix(s, long) {
        Some(s.skip(long.len() as int))
    } else if has_prefix(s, short) {
        Some(s.skip(short.len() as int))
    } else {
        None
    }
}

/// `key_x` or `keyx` names the letter key `x`.
pub open spec fn spec_letter_key(l: Seq<u8>) -> Option<u8> {
    match strip_either(l, key_underscore(), key_prefix()) {
        Some(t) => if t.len() == 1 && 0x61 <= t[0] <= 0x7a {
            Some(t[0])
        } else {
            None
        },
        None => None,
    }
}

/// `digit_n` or `digitn` names the digit key `n`.
pub open spec fn spec_digit_key(l: Seq<u8>) -> Option<u8> {
    match strip_either(l, digit_underscore(), digit_prefix()) {
        Some(t) => if t.len() == 1 && 0x30 <= t[0] <= 0x39 {
            Some((t[0] - 0x30) as u8)
        } else {
            None
        },
        None => None,
    }
}

fn strip_either_exec(s: &[u8], long: &[u8], short: &[u8]) -> (r: Option<Vec<u8>>)
    ensures
        match r {
            Some(t) => strip_either(s@, long@, short@) == Some(t@),
            None => strip_either(s@, long@, short@) is None,
        },
{
    let n = if starts_with(s, long) {
        long.len()
    } else if starts_with(s, short) {
        short.len()
    } else {
        return None;
    };
    let mut out: Vec<u8> = Vec::new();
    let mut i: usize = n;
    while i < s.len()
        invariant
            n <= i <= s@.len(),
            out@ == s@.subrange(n as int, i as int),
        decreases s.len() - i,
    {
        out.push(s[i]);
        i += 1;
        assert(out@ =~= s@.subrange(n as int, i as int));
    }
    assert(s@.skip(n as int) =~= s@.subrange(n as int, s@.len() as int));
    Some(out)
}

fn letter_key(l: &[u8]) -> (r: Option<u8>)
    ensures
        r == spec_letter_key(l@),
{
    let long = vec![0x6bu8, 0x65, 0x79, 0x5f];
    let short = vec![0x6bu8, 0x65, 0x79];
    assert(long@ =~= key_underscore());
    assert(short@ =~= key_prefix());
    match strip_either_exec(l, long.as_slice(), short.as_slice()) {
        Some(t) => if t.len() == 1 && 0x61 <= t[0] && t[0] <= 0x7a {
            Some(t[0])
        } else {
            None
        },
        None => None,
    }
}

fn digit_key(l: &[u8]) -> (r: Option<u8>)
    ensures
        r == spec_digit_key(l@),
{
    let long = vec![0x64u8, 0x69, 0x67, 0x69, 0x74, 0x5f];
    let short = vec![0x64u8, 0x69, 0x67, 0x69, 0x74];
    assert(long@ =~= digit_underscore());
    assert(short@ =~= digit_prefix());
    match strip_either_exec(l, long.as_slice(), short.as_slice()) {
        Some(t) => if t.len() == 1 && 0x30 <= t[0] && t[0] <= 0x39 {
            Some(t[0] - 0x30)
        } else {
            None
        },
        None => None,
    }
}

/// An ASCII decimal digit byte.
pub open spec fn is_digit_byte(b: u8) -> bool {
    0x30 <= b <= 0x39
}

/// The value of a string of ASCII decimal digits.
pub open spec fn bytes_value(s: Seq<u8>) -> int
    decreases s.len(),
{
    if s.len() == 0 {
        0
    } else {
        bytes_value(s.drop_last()) * 10 + (s.last() - 0x30)
    }
}

/// The text after an optional leading `+`.
pub open spec fn unsigned_part(s: Seq<u8>) -> Seq<u8> {
    if s.len() > 0 && s[0] == 0x2b {
        s.drop_first()
    } else {
        s
    }
}

/// The `u8` that `text.parse::<u8>()` reads: an optional `+`, then at least
/// one digit, with a value that fits.
pub open spec fn spec_parse_u8(s: Seq<u8>) -> Option<u8> {
    let body = unsigned_part(s);
    if body.len() > 0 && (forall|i: int| 0 <= i < body.len() ==> is_digit_byte(#[trigger] body[i]))
        && bytes_value(body) <= 255 {
        Some(bytes_value(body) as u8)
    } else {
        None
    }
}

proof fn lemma_bytes_value_prefix(s: Seq<u8>, k: int)
    requires
        0 <= k <= s.len(),
        forall|i: int| 0 <= i < s.len() ==> is_digit_byte(#[trigger] s[i]),
    ensures
        bytes_value(s) >= bytes_value(s.take(k)),
        bytes_value(s) >= 0,
    decreases s.len(),
{
    if s.len() > 0 {
        if k < s.len() {
            lemma_bytes_value_prefix(s.drop_last(), k);
            assert(s.drop_last().take(k) =~= s.take(k));
        } else {
            lemma_bytes_value_prefix(s.drop_last(), k - 1);
            assert(s.take(k) =~= s);
        }
    } else {
        assert(s.take(k) =~= s);
    }
}

fn parse_u8(s: &[u8]) -> (r: Option<u8>)
    ensures
        r == spec_parse_u8(s@),
{
    let ghost body = unsigned_part(s@);
    let start: usize = if s.len() > 0 && s[0] == 0x2b { 1 } else { 0 };
    assert(body =~= s@.subrange(start as int, s@.len() as int));
    if start >= s.len() {
        return None;
    }
    let mut value: u32 = 0;
    let mut i: usize = start;
    while i < s.len()
        invariant
            start <= i <= s@.len(),
            body == s@.subrange(start as int, s@.len() as int),
            body == unsigned_part(s@),
            forall|k: int| 0 <= k < i - start ==> is_digit_byte(#[trigger] body[k]),
            value == bytes_value(body.take(i - start)),
            value <= 255,
        decreases s.len() - i,
    {
        let b = s[i];
        let ghost j = i - start;
        assert(body[j] == b);
        if !(0x30 <= b && b <= 0x39) {
            return None;
        }
        proof {
            assert(body.take(j + 1).drop_last() =~= body.take(j));
        }
        let next = value * 10 + (b - 0x30) as u32;
        if next > 255 {
            proof {
                if forall|k: int| 0 <= k < body.len() ==> is_digit_byte(#[trigger] body[k]) {
                    lemma_bytes_value_prefix(body, j + 1);
                }
            }
            return None;
        }
        value = next;
        i += 1;
    }
    assert(body.take(body.len() as int) =~= body);
    Some(value as u8)
}

/// `fN` names the function key `N`, for `N` from 1 to 35 as `u8` text.
pub open spec fn spec_function_key(l: Seq<u8>) -> Option<u8> {
    if l.len() > 0 && l[0] == 0x66 {
        match spec_parse_u8(l.drop_first()) {
            Some(v) => if 1 <= v <= 35 {
                Some(v)
            } else {
                None
            },
            None => None,
        }
    } else {
        None
    }
}

fn function_key(l: &[u8]) -> (r: Option<u8>)
    ensures
        r == spec_function_key(l@),
{
    if l.len() == 0 || l[0] != 0x66 {
        return None;
    }
    let mut rest: Vec<u8> = Vec::new();
    let mut i: usize = 1;
    while i < l.len()
        invariant
            1 <= i <= l@.len(),
            rest@ == l@.subrange(1, i as int),
        decreases l.len() - i,
    {
        rest.push(l[i]);
        i += 1;
        assert(rest@ =~= l@.subrange(1, i as int));
    }
    assert(rest@ =~= l@.drop_first());
    match parse_u8(rest.as_slice()) {
        Some(v) => if 1 <= v && v <= 35 {
            Some(v)
        } else {
            None
        },
        None => None,
    }
}

/// The physical key a synthetic key name stands for, tried in order as a
/// named key, a letter key, a digit key and a function key, in any ASCII
/// case.
pub open spec fn spec_physical_key(s: Option<&str>) -> Option<PhysicalKeyName> {
    match s {
        None => None,
        Some(t) => {
            let l = lower_bytes(t.spec_bytes());
            match lookup_name(physical_names(), l, 0) {
                Some(k) => Some(PhysicalKeyName::Named(k)),
                None => match spec_letter_key(l) {
                    Some(c) => Some(PhysicalKeyName::Letter(c)),
                    None => match spec_digit_key(l) {
                        Some(d) => Some(PhysicalKeyName::Digit(d)),
                        None => match spec_function_key(l) {
                            Some(f) => Some(PhysicalKeyName::Function(f)),
                            None => None,
                        },
                    },
                },
            }
        },
    }
}

/// The physical key of a synthetic key event named `spec`, if the name is
/// known.
pub fn parse_synthetic_physical_key(spec: Option<&str>) -> (k: Option<PhysicalKeyName>)
    ensures
        k == spec_physical_key(spec),
{
    let text = match spec {
        Some(t) => t,
        None => return None,
    };
    let lower = lowercase(text.as_bytes());
    let table = physical_name_table();
    if let Some(named) = find_name(&table, lower.as_slice()) {
        return Some(PhysicalKeyName::Named(named));
    }
    if let Some(c) = letter_key(lower.as_slice()) {
        return Some(PhysicalKeyName::Letter(c));
    }
    if let Some(d) = digit_key(lower.as_slice()) {
        return Some(PhysicalKeyName::Digit(d));
    }
    if let Some(f) = function_key(lower.as_slice()) {
        return Some(PhysicalKeyName::Function(f));
    }
    None
}

} // verus!
