//! De-duplication of text that reaches the terminal twice: once as an input
//! method commit and once as the key press that produced it.

use vstd::prelude::*;
use vstd::string::*;
use vstd::utf8::*;

verus! {

/// How long after a key press an identical input-method commit counts as
/// its duplicate (50 ms).
pub const IME_KEY_DEDUPE_WINDOW: u64 = 50_000_000;

/// The phase of a key event.
#[derive(Debug, Clone, Copy, PartialEq, Eq, Structural)]
pub enum KeyEventKind {
    Press,
    Repeat,
    Release,
}

/// The canonical form in which text is compared: DEL as backspace, a line
/// feed (or CR LF) as carriage return; empty text has no form.
pub open spec fn spec_normalize(s: Seq<char>) -> Option<Seq<char>> {
    if s.len() == 0 {
        None
    } else if s == seq!['\u{7f}'] {
        Some(seq!['\u{8}'])
    } else if s == seq!['\n'] || s == seq!['\r', '\n'] {
        Some(seq!['\r'])
    } else {
        Some(s)
    }
}

/// The view of an optional string.
pub open spec fn opt_view(s: Option<String>) -> Option<Seq<char>> {
    match s {
        Some(t) => Some(t@),
        None => None,
    }
}

/// The view of an optional string slice.
pub open spec fn opt_str_view(s: Option<&str>) -> Option<Seq<char>> {
    match s {
        Some(t) => Some(t@),
        None => None,
    }
}

/// The canonical form of optional event text.
pub open spec fn normalize_opt(s: Option<Seq<char>>) -> Option<Seq<char>> {
    match s {
        Some(t) => spec_normalize(t),
        None => None,
    }
}

/// A pending commit, unless it is empty.
pub open spec fn nonempty(s: Option<Seq<char>>) -> Option<Seq<char>> {
    match s {
        Some(t) => if t.len() > 0 { Some(t) } else { None },
        None => None,
    }
}

fn owned(text: &str) -> (s: String)
    ensures
        s@ == text@,
{
    String::from_str(text)
}

/// Brings text into the form in which commits and key presses are compared.
pub fn normalize_ime_dedupe_text(text: &str) -> (r: Option<String>)
    ensures
        opt_view(r) == spec_normalize(text@),
{
    let n = text.unicode_len();
    if n == 0 {
        return None;
    }
    if n == 1 && text.get_char(0) == '\u{7f}' {
        let bs = "\u{8}";
        proof {
            reveal_strlit("\u{8}");
            assert(text@ =~= seq!['\u{7f}']);
        }
        return Some(owned(bs));
    }
    if (n == 1 && text.get_char(0) == '\n') || (n == 2 && text.get_char(0) == '\r'
        && text.get_char(1) == '\n') {
        let cr = "\r";
        proof {
            reveal_strlit("\r");
            if n == 1 {
                assert(text@ =~= seq!['\n']);
            } else {
                assert(text@ =~= seq!['\r', '\n']);
            }
        }
        return Some(owned(cr));
    }
    proof {
        if n == 1 {
            assert(text@ != seq!['\u{7f}']) by {
                if text@ == seq!['\u{7f}'] {
                    assert(text@[0] == '\u{7f}');
                }
            }
            assert(text@ != seq!['\n']) by {
                if text@ == seq!['\n'] {
                    assert(text@[0] == '\n');
                }
            }
        }
        if n == 2 {
            assert(text@ != seq!['\r', '\n']) by {
                if text@ == seq!['\r', '\n'] {
                    assert(text@[0] == '\r' && text@[1] == '\n');
                }
            }
        }
    }
    Some(owned(text))
}

fn normalize_event_text(event_text: Option<&str>) -> (r: Option<String>)
    ensures
        opt_view(r) == normalize_opt(opt_str_view(event_text)),
{
    match event_text {
        Some(t) => normalize_ime_dedupe_text(t),
        None => None,
    }
}

fn nonempty_pending(pending: &Option<String>) -> (r: Option<&String>)
    ensures
        match r {
            Some(t) => nonempty(opt_view(*pending)) == Some(t@),
            None => nonempty(opt_view(*pending)) is None,
        },
{
    match pending {
        Some(t) => if t.as_str().unicode_len() > 0 {
            Some(t)
        } else {
            None
        },
        None => None,
    }
}

fn views_equal(a: &String, b: &String) -> (r: bool)
    ensures
        r == (a@ == b@),
{
    *a == *b
}

fn bytes_equal(a: &[u8], b: &[u8]) -> (r: bool)
    ensures
        r == (a@ == b@),
{
    if a.len() != b.len() {
        return false;
    }
    let mut i: usize = 0;
    while i < a.len()
        invariant
            i <= a@.len(),
            a@.len() == b@.len(),
            forall|k: int| 0 <= k < i ==> a@[k] == b@[k],
        decreases a@.len() - i,
    {
        if a[i] != b[i] {
            return false;
        }
        i += 1;
    }
    assert(a@ =~= b@);
    true
}

/// A key press that repeats the pending input-method commit is skipped; any
/// key press consumes the pending commit.
pub open spec fn spec_skip_key_event(pending: Option<Seq<char>>, event_text: Option<Seq<char>>) -> bool {
    nonempty(pending) == normalize_opt(event_text)
}

/// Whether a key event merely repeats the text just committed by the input
/// method. A press consumes the pending commit; other phases leave it.
pub fn should_skip_duplicate_ime_key_event(
    pending_ime_commit: &mut Option<String>,
    event_kind: KeyEventKind,
    event_text: Option<&str>,
) -> (skip: bool)
    ensures
        event_kind != KeyEventKind::Press ==> !skip && *final(pending_ime_commit) == *old(
            pending_ime_commit,
        ),
        event_kind == KeyEventKind::Press ==> skip == spec_skip_key_event(
            opt_view(*old(pending_ime_commit)),
            opt_str_view(event_text),
        ) && *final(pending_ime_commit) is None,
{
    match event_kind {
        KeyEventKind::Press => {},
        _ => return false,
    }
    let normalized = normalize_event_text(event_text);
    let should_skip = match (nonempty_pending(pending_ime_commit), &normalized) {
        (Some(a), Some(b)) => views_equal(a, b),
        (None, None) => true,
        _ => false,
    };
    *pending_ime_commit = None;
    should_skip
}

/// A key event repeats the pending commit when its normalized text, or the
/// bytes it encodes to, equal the commit.
pub open spec fn spec_skip_input(
    pending: Option<Seq<char>>,
    event_text: Option<Seq<char>>,
    encoded: Option<Seq<u8>>,
) -> bool {
    match nonempty(pending) {
        Some(t) => normalize_opt(event_text) == Some(t) || encoded == Some(encode_utf8(t)),
        None => false,
    }
}

/// The view of optional encoded bytes.
pub open spec fn opt_bytes_view(b: Option<&[u8]>) -> Option<Seq<u8>> {
    match b {
        Some(x) => Some(x@),
        None => None,
    }
}

/// Whether a key event repeats the pending input-method commit, by text or
/// by the bytes it encodes to. A press consumes the pending commit.
pub fn should_skip_duplicate_ime_input(
    pending_ime_commit: &mut Option<String>,
    event_kind: KeyEventKind,
    event_text: Option<&str>,
    encoded_bytes: Option<&[u8]>,
) -> (skip: bool)
    ensures
        event_kind != KeyEventKind::Press ==> !skip && *final(pending_ime_commit) == *old(
            pending_ime_commit,
        ),
        event_kind == KeyEventKind::Press ==> skip == spec_skip_input(
            opt_view(*old(pending_ime_commit)),
            opt_str_view(event_text),
            opt_bytes_view(encoded_bytes),
        ) && *final(pending_ime_commit) is None,
{
    match event_kind {
        KeyEventKind::Press => {},
        _ => return false,
    }
    let normalized = normalize_event_text(event_text);
    let should_skip = match nonempty_pending(pending_ime_commit) {
        Some(text) => {
            let by_text = match &normalized {
                Some(n) => views_equal(n, text),
                None => false,
            };
            by_text || match encoded_bytes {
                Some(bytes) => bytes_equal(text.as_str().as_bytes(), bytes),
                None => false,
            }
        },
        None => false,
    };
    *pending_ime_commit = None;
    should_skip
}

/// `std::str::from_utf8`: the bytes as text when they are valid UTF-8, as
/// its documentation states; the text is the decoding of the bytes.
#[verifier::external_body]
fn utf8_text(bytes: &[u8]) -> (r: Option<&str>)
    ensures
        r is Some <==> valid_utf8(bytes@),
        r matches Some(t) ==> t@ == decode_utf8(bytes@),
{
    std::str::from_utf8(bytes).ok()
}

/// The text with leading NUL characters removed.
pub open spec fn trim_nul_start(s: Seq<char>) -> Seq<char>
    decreases s.len(),
{
    if s.len() > 0 && s[0] == '\0' {
        trim_nul_start(s.drop_first())
    } else {
        s
    }
}

/// The text with trailing NUL characters removed.
pub open spec fn trim_nul_end(s: Seq<char>) -> Seq<char>
    decreases s.len(),
{
    if s.len() > 0 && s.last() == '\0' {
        trim_nul_end(s.drop_last())
    } else {
        s
    }
}

/// The text with NUL characters removed from both ends.
pub open spec fn trim_nul(s: Seq<char>) -> Seq<char> {
    trim_nul_end(trim_nul_start(s))
}

/// Unicode control characters (general category Cc).
pub open spec fn is_control_char(c: char) -> bool {
    (c as u32) <= 0x1f || (0x7f <= (c as u32) && (c as u32) <= 0x9f)
}

/// Characters that may appear in key text that is remembered for
/// de-duplication: space, tab, line feed, carriage return and backspace.
pub open spec fn is_text_key_char(c: char) -> bool {
    c == ' ' || c == '\t' || c == '\n' || c == '\r' || c == '\u{8}'
}

/// The text holds a control character other than the text-key ones.
pub open spec fn has_foreign_control(s: Seq<char>) -> bool {
    exists|k: int| 0 <= k < s.len() && is_control_char(#[trigger] s[k]) && !is_text_key_char(s[k])
}

/// The text a key press is remembered by: its normalized event text, or
/// else the normalized text its encoded bytes spell (without surrounding
/// NULs), unless those hold foreign control characters.
pub open spec fn spec_text_for_dedupe(event_text: Option<Seq<char>>, encoded: Option<Seq<u8>>) -> Option<Seq<char>> {
    match normalize_opt(event_text) {
        Some(t) => Some(t),
        None => match encoded {
            None => None,
            Some(b) => if !valid_utf8(b) {
                None
            } else {
                match spec_normalize(trim_nul(decode_utf8(b))) {
                    None => None,
                    Some(t) => if has_foreign_control(t) {
                        None
                    } else {
                        Some(t)
                    },
                }
            },
        },
    }
}

proof fn lemma_trim_start(s: Seq<char>, i: int)
    requires
        0 <= i <= s.len(),
        forall|k: int| 0 <= k < i ==> s[k] == '\0',
        i == s.len() || s[i] != '\0',
    ensures
        trim_nul_start(s) == s.subrange(i, s.len() as int),
    decreases i,
{
    if i == 0 {
        assert(s.subrange(0, s.len() as int) =~= s);
    } else {
        let t = s.drop_first();
        assert forall|k: int| 0 <= k < i - 1 implies t[k] == '\0' by {
            assert(t[k] == s[k + 1]);
        }
        lemma_trim_start(t, i - 1);
        assert(t.subrange(i - 1, t.len() as int) =~= s.subrange(i, s.len() as int));
    }
}

proof fn lemma_trim_end(s: Seq<char>, j: int)
    requires
        0 <= j <= s.len(),
        forall|k: int| j <= k < s.len() ==> s[k] == '\0',
        j == 0 || s[j - 1] != '\0',
    ensures
        trim_nul_end(s) == s.subrange(0, j),
    decreases s.len() - j,
{
    if j == s.len() {
        assert(s.subrange(0, j) =~= s);
    } else {
        let t = s.drop_last();
        assert forall|k: int| j <= k < t.len() implies t[k] == '\0' by {
            assert(t[k] == s[k]);
        }
        lemma_trim_end(t, j);
        assert(t.subrange(0, j) =~= s.subrange(0, j));
    }
}

fn trimmed_nul<'a>(text: &'a str) -> (r: &'a str)
    ensures
        r@ == trim_nul(text@),
{
    let n = text.unicode_len();
    let mut lo: usize = 0;
    while lo < n && text.get_char(lo) == '\0'
        invariant
            lo <= n,
            n == text@.len(),
            forall|k: int| 0 <= k < lo ==> text@[k] == '\0',
        decreases n - lo,
    {
        lo += 1;
    }
    proof {
        lemma_trim_start(text@, lo as int);
    }
    let mut hi: usize = n;
    while hi > lo && text.get_char(hi - 1) == '\0'
        invariant
            lo <= hi <= n,
            n == text@.len(),
            forall|k: int| hi <= k < n ==> text@[k] == '\0',
        decreases hi - lo,
    {
        hi -= 1;
    }
    proof {
        let u = text@.subrange(lo as int, n as int);
        assert forall|k: int| hi - lo <= k < u.len() implies u[k] == '\0' by {
            assert(u[k] == text@[lo + k]);
        }
        if hi > lo {
            assert(u[hi - lo - 1] == text@[hi - 1]);
        }
        lemma_trim_end(u, hi - lo);
        assert(u.subrange(0, hi - lo) =~= text@.subrange(lo as int, hi as int));
    }
    text.substring_char(lo, hi)
}

fn has_foreign_control_char(text: &String) -> (b: bool)
    ensures
        b == has_foreign_control(text@),
{
    let t = text.as_str();
    let n = t.unicode_len();
    let mut i: usize = 0;
    while i < n
        invariant
            i <= n,
            n == t@.len(),
            t@ == text@,
            forall|k: int| 0 <= k < i ==> !(is_control_char(#[trigger] t@[k]) && !is_text_key_char(t@[k])),
        decreases n - i,
    {
        let c = t.get_char(i);
        let code = c as u32;
        let control = code <= 0x1f || (0x7f <= code && code <= 0x9f);
        let text_key = c == ' ' || c == '\t' || c == '\n' || c == '\r' || c == '\u{8}';
        if control && !text_key {
            assert(is_control_char(t@[i as int]) && !is_text_key_char(t@[i as int]));
            return true;
        }
        i += 1;
    }
    false
}

fn text_for_ime_key_dedupe(event_text: Option<&str>, encoded_bytes: Option<&[u8]>) -> (r: Option<
    String,
>)
    ensures
        opt_view(r) == spec_text_for_dedupe(opt_str_view(event_text), opt_bytes_view(encoded_bytes)),
{
    let normalized = normalize_event_text(event_text);
    if normalized.is_some() {
        return normalized;
    }
    let bytes = match encoded_bytes {
        Some(b) => b,
        None => return None,
    };
    let decoded = match utf8_text(bytes) {
        Some(t) => t,
        None => return None,
    };
    let text = match normalize_ime_dedupe_text(trimmed_nul(decoded)) {
        Some(t) => t,
        None => return None,
    };
    if has_foreign_control_char(&text) {
        return None;
    }
    Some(text)
}

/// A recently pressed key's text and when it was pressed.
#[derive(Debug, Clone, PartialEq, Eq)]
pub struct RecentTextKeyEvent {
    text: String,
    at: u64,
}

impl View for RecentTextKeyEvent {
    type V = (Seq<char>, u64);

    closed spec fn view(&self) -> (Seq<char>, u64) {
        (self.text@, self.at)
    }
}

/// The view of an optional recent key event.
pub open spec fn recent_view(r: Option<RecentTextKeyEvent>) -> Option<(Seq<char>, u64)> {
    match r {
        Some(e) => Some(e@),
        None => None,
    }
}

/// Remembers the text of a key press at `now`, so that an input-method
/// commit of the same text right after it can be skipped. Only presses are
/// remembered; a press without usable text forgets the previous one.
pub fn remember_text_key_event(
    recent_text_key_event: &mut Option<RecentTextKeyEvent>,
    event_kind: KeyEventKind,
    event_text: Option<&str>,
    encoded_bytes: Option<&[u8]>,
    now: u64,
)
    ensures
        event_kind != KeyEventKind::Press ==> *final(recent_text_key_event) == *old(
            recent_text_key_event,
        ),
        event_kind == KeyEventKind::Press ==> recent_view(*final(recent_text_key_event)) == match spec_text_for_dedupe(
            opt_str_view(event_text),
            opt_bytes_view(encoded_bytes),
        ) {
            Some(t) => Some((t, now)),
            None => None,
        },
{
    match event_kind {
        KeyEventKind::Press => {},
        _ => return,
    }
    *recent_text_key_event = match text_for_ime_key_dedupe(event_text, encoded_bytes) {
        Some(text) => Some(RecentTextKeyEvent { text, at: now }),
        None => None,
    };
}

/// An input-method commit of `text` at `now` duplicates the remembered key
/// press when their normalized texts agree and at most the dedupe window has
/// passed since the press (and the press is not in the future).
pub open spec fn spec_skip_commit(recent: Option<(Seq<char>, u64)>, text: Seq<char>, now: u64) -> bool {
    match recent {
        Some((t, at)) => spec_normalize(text) == Some(t) && now >= at && now - at
            <= IME_KEY_DEDUPE_WINDOW,
        None => false,
    }
}

/// A commit repeats the remembered key press only within 50 ms of it (in
/// nanoseconds), and never before it.
pub proof fn law_commit_dedupe_window(t: Seq<char>, text: Seq<char>, at: u64, now: u64)
    requires
        spec_normalize(text) == Some(t),
    ensures
        spec_skip_commit(Some((t, at)), text, now) <==> (at <= now && now - at <= 50_000_000),
{
}

/// Whether an input-method commit repeats the key press just remembered;
/// the remembered press is consumed either way.
pub fn should_skip_ime_commit_after_key_event(
    recent_text_key_event: &mut Option<RecentTextKeyEvent>,
    text: &str,
    now: u64,
) -> (skip: bool)
    ensures
        skip == spec_skip_commit(recent_view(*old(recent_text_key_event)), text@, now),
        *final(recent_text_key_event) is None,
{
    let recent = match recent_text_key_event.take() {
        Some(r) => r,
        None => return false,
    };
    let matches = match normalize_ime_dedupe_text(text) {
        Some(n) => views_equal(&n, &recent.text),
        None => false,
    };
    matches && now >= recent.at && now - recent.at <= IME_KEY_DEDUPE_WINDOW
}

/// A key as far as de-duplication cares: the text it carries, one of the
/// named keys that type a control character, any other named key, or a key
/// the window system could not identify.
#[derive(Debug, Clone, Copy, PartialEq, Eq)]
pub enum DedupeKey<'a> {
    Character(&'a str),
    Space,
    Tab,
    Enter,
    Backspace,
    OtherNamed,
    Unidentified,
}

/// The text a named key types, for comparing with input-method commits:
/// space, tab, carriage return or backspace.
pub open spec fn spec_named_key_text(key: DedupeKey) -> Option<Seq<char>> {
    match key {
        DedupeKey::Space => Some(seq![' ']),
        DedupeKey::Tab => Some(seq!['\t']),
        DedupeKey::Enter => Some(seq!['\r']),
        DedupeKey::Backspace => Some(seq!['\u{8}']),
        _ => None,
    }
}

/// The text a named key types, if it types one.
pub fn named_key_ime_dedupe_text(key: DedupeKey) -> (t: Option<&'static str>)
    ensures
        opt_str_view(t) == spec_named_key_text(key),
{
    match key {
        DedupeKey::Space => {
            proof {
                reveal_strlit(" ");
            }
            Some(" ")
        },
        DedupeKey::Tab => {
            proof {
                reveal_strlit("\t");
            }
            Some("\t")
        },
        DedupeKey::Enter => {
            proof {
                reveal_strlit("\r");
            }
            Some("\r")
        },
        DedupeKey::Backspace => {
            proof {
                reveal_strlit("\u{8}");
            }
            Some("\u{8}")
        },
        _ => None,
    }
}

/// The named keys that type a character type their ASCII control or space
/// character: Space U+0020, Tab U+0009, Enter a carriage return U+000D and
/// Backspace U+0008, each a single character and each different; other keys
/// type nothing.
pub proof fn law_named_keys_type_their_characters()
    ensures
        spec_named_key_text(DedupeKey::Space) matches Some(t) && t.len() == 1 && t[0] as u32 == 0x20,
        spec_named_key_text(DedupeKey::Tab) matches Some(t) && t.len() == 1 && t[0] as u32 == 0x09,
        spec_named_key_text(DedupeKey::Enter) matches Some(t) && t.len() == 1 && t[0] as u32 == 0x0d,
        spec_named_key_text(DedupeKey::Backspace) matches Some(t) && t.len() == 1 && t[0] as u32
            == 0x08,
        spec_named_key_text(DedupeKey::OtherNamed) is None,
        spec_named_key_text(DedupeKey::Unidentified) is None,
{
}

/// The text of a key event for de-duplication: the event's own text when it
/// has a canonical form, else the key's character text, else what a named
/// key types.
pub open spec fn spec_key_dedupe_text(key: DedupeKey, event_text: Option<Seq<char>>) -> Option<Seq<char>> {
    match normalize_opt(event_text) {
        Some(t) => Some(t),
        None => match key {
            DedupeKey::Character(text) => spec_normalize(text@),
            DedupeKey::Unidentified => None,
            _ => spec_named_key_text(key),
        },
    }
}

/// The text a key event is compared by against input-method commits.
pub fn key_ime_dedupe_text(key: DedupeKey, event_text: Option<&str>) -> (t: Option<String>)
    ensures
        opt_view(t) == spec_key_dedupe_text(key, opt_str_view(event_text)),
{
    if let Some(text) = event_text {
        if let Some(normalized) = normalize_ime_dedupe_text(text) {
            return Some(normalized);
        }
    }
    match key {
        DedupeKey::Character(text) => normalize_ime_dedupe_text(text),
        DedupeKey::Unidentified => None,
        _ => match named_key_ime_dedupe_text(key) {
            Some(t) => Some(owned(t)),
            None => None,
        },
    }
}

/// A commit de-duplicates at most one key press: once a press consumed it,
/// no later key event is skipped on its account. For the text-only check
/// this holds of events that carry text; a press without text compares
/// equal to the absent commit.
pub proof fn law_consumed_commit_skips_nothing(event_text: Option<Seq<char>>, encoded: Option<Seq<u8>>)
    ensures
        !spec_skip_input(None, event_text, encoded),
        normalize_opt(event_text) is Some ==> !spec_skip_key_event(None, event_text),
{
}

} // verus!
