//! The native scroll protocol shared with child applications: pane hit
//! testing, the environment a child is given, and newline framing of the
//! messages exchanged over the bridge socket.

use vstd::prelude::*;

verus! {

/// Which pane of a child application a scroll applies to.
#[derive(Debug, Clone, Copy, PartialEq, Eq, Structural)]
pub enum PaneKind {
    Chat,
    SidePanel,
}

/// A scrollable pane reported by the child: its cell rectangle and its
/// scroll position, content length and viewport length in rows.
#[derive(Debug, Clone, Copy, PartialEq, Eq, Structural)]
pub struct PaneState {
    pub kind: PaneKind,
    pub x: u16,
    pub y: u16,
    pub width: u16,
    pub height: u16,
    pub position: usize,
    pub content_length: usize,
    pub viewport_length: usize,
}

/// Whether cell (`col`, `row`) lies in the pane's rectangle.
pub open spec fn spec_contains(p: PaneState, col: int, row: int) -> bool {
    p.x <= col < p.x + p.width && p.y <= row < p.y + p.height
}

/// Whether the pane has more content than fits its (non-empty) viewport.
pub open spec fn spec_scrollable(p: PaneState) -> bool {
    p.content_length > p.viewport_length && p.viewport_length > 0
}

impl PaneState {
    /// Whether cell (`col`, `row`) lies in the pane's rectangle.
    pub fn contains(&self, col: usize, row: usize) -> (b: bool)
        ensures
            b == spec_contains(*self, col as int, row as int),
    {
        let x = self.x as usize;
        let y = self.y as usize;
        let width = self.width as usize;
        let height = self.height as usize;
        col >= x && col < x + width && row >= y && row < y + height
    }

    /// Whether the pane can scroll.
    pub fn scrollable(&self) -> (b: bool)
        ensures
            b == spec_scrollable(*self),
    {
        self.content_length > self.viewport_length && self.viewport_length > 0
    }
}

/// The whole-row part of following a pane's reported position: how many
/// rows the child acknowledged since the last report (positive toward later
/// content), the rows still on their way, and how far the pane can still move
/// back and forward from its position.
#[derive(Debug, Clone, Copy, PartialEq, Eq, Structural)]
pub struct PaneReconcile {
    pub acknowledged: i32,
    pub outstanding: i32,
    pub rows_back: usize,
    pub rows_forward: usize,
}

pub open spec fn clamp_i32(v: int) -> i32 {
    if v > i32::MAX {
        i32::MAX
    } else if v < i32::MIN {
        i32::MIN
    } else {
        v as i32
    }
}

/// Rows the child moved by since the `previous` report, saturated at
/// `i32::MAX` either way; none without a previous report.
pub open spec fn spec_acknowledged(previous: Option<usize>, position: usize) -> i32 {
    match previous {
        None => 0,
        Some(p) => if position >= p {
            clamp_i32(position - p)
        } else {
            (-clamp_i32(p - position)) as i32
        },
    }
}

/// Follows a new report `state` of a pane last seen at `previous`, with
/// `outstanding` rows sent and not yet acknowledged.
pub fn reconcile_rows(previous: Option<usize>, outstanding: i32, state: &PaneState) -> (r: PaneReconcile)
    ensures
        r.acknowledged == spec_acknowledged(previous, state.position),
        r.outstanding == clamp_i32(outstanding - spec_acknowledged(previous, state.position)),
        r.rows_back == state.position,
        r.rows_forward == (if state.content_length >= state.viewport_length + state.position {
            state.content_length - state.viewport_length - state.position
        } else {
            0
        }),
{
    let acknowledged: i32 = match previous {
        None => 0,
        Some(p) => if state.position >= p {
            let d = state.position - p;
            if d > 0x7fff_ffff { 0x7fff_ffff } else { d as i32 }
        } else {
            let d = p - state.position;
            if d > 0x7fff_ffff { -0x7fff_ffff } else { -(d as i32) }
        },
    };
    let wide: i64 = outstanding as i64 - acknowledged as i64;
    let remaining: i32 = if wide > 0x7fff_ffff {
        0x7fff_ffff
    } else if wide < -0x8000_0000 {
        -0x8000_0000
    } else {
        wide as i32
    };
    let max_position = if state.content_length >= state.viewport_length {
        state.content_length - state.viewport_length
    } else {
        0
    };
    let forward = if max_position >= state.position { max_position - state.position } else { 0 };
    PaneReconcile { acknowledged, outstanding: remaining, rows_back: state.position, rows_forward: forward }
}

/// The panes the child last reported.
#[derive(Debug, Clone, PartialEq, Eq, Default)]
pub struct PaneSnapshot {
    pub panes: Vec<PaneState>,
}

/// The kind of the first pane (in reported order) that can scroll and
/// contains the cell.
pub open spec fn first_hovered(panes: Seq<PaneState>, col: int, row: int) -> Option<PaneKind>
    decreases panes.len(),
{
    if panes.len() == 0 {
        None
    } else if spec_scrollable(panes[0]) && spec_contains(panes[0], col, row) {
        Some(panes[0].kind)
    } else {
        first_hovered(panes.drop_first(), col, row)
    }
}

proof fn lemma_first_hovered_skip(panes: Seq<PaneState>, i: int, col: int, row: int)
    requires
        0 <= i < panes.len(),
        !(spec_scrollable(panes[i]) && spec_contains(panes[i], col, row)),
    ensures
        first_hovered(panes.skip(i), col, row) == first_hovered(panes.skip(i + 1), col, row),
{
    assert(panes.skip(i).drop_first() =~= panes.skip(i + 1));
}

/// The first reported pane of kind `kind`.
pub open spec fn first_of_kind(panes: Seq<PaneState>, kind: PaneKind) -> Option<PaneState>
    decreases panes.len(),
{
    if panes.len() == 0 {
        None
    } else if panes[0].kind == kind {
        Some(panes[0])
    } else {
        first_of_kind(panes.drop_first(), kind)
    }
}

impl PaneSnapshot {
    /// The state of the first reported pane of kind `kind`, if any.
    pub fn pane(&self, kind: PaneKind) -> (r: Option<PaneState>)
        ensures
            r == first_of_kind(self.panes@, kind),
    {
        let mut i: usize = 0;
        proof {
            assert(self.panes@.skip(0) =~= self.panes@);
        }
        while i < self.panes.len()
            invariant
                i <= self.panes@.len(),
                first_of_kind(self.panes@, kind) == first_of_kind(self.panes@.skip(i as int), kind),
            decreases self.panes@.len() - i,
        {
            assert(self.panes@.skip(i as int).drop_first() =~= self.panes@.skip(i + 1));
            if self.panes[i].kind == kind {
                return Some(self.panes[i]);
            }
            i += 1;
        }
        None
    }

    /// The pane under cell (`col`, `row`) that wheel scrolling should go to.
    pub fn hovered_pane(&self, col: usize, row: usize) -> (r: Option<PaneKind>)
        ensures
            r == first_hovered(self.panes@, col as int, row as int),
    {
        let mut i: usize = 0;
        proof {
            assert(self.panes@.skip(0) =~= self.panes@);
        }
        while i < self.panes.len()
            invariant
                i <= self.panes@.len(),
                first_hovered(self.panes@, col as int, row as int) == first_hovered(
                    self.panes@.skip(i as int),
                    col as int,
                    row as int,
                ),
            decreases self.panes@.len() - i,
        {
            let pane = &self.panes[i];
            if pane.scrollable() && pane.contains(col, row) {
                assert(self.panes@.skip(i as int)[0] == self.panes@[i as int]);
                return Some(pane.kind);
            }
            proof {
                lemma_first_hovered_skip(self.panes@, i as int, col as int, row as int);
            }
            i += 1;
        }
        assert(self.panes@.skip(i as int).len() == 0);
        None
    }
}

/// A message from the child application to the terminal.
#[derive(Debug, Clone, PartialEq, Eq)]
pub enum AppToHost {
    PaneSnapshot { panes: Vec<PaneState> },
}

/// A message from the terminal to the child application.
#[derive(Debug, Clone, Copy, PartialEq, Eq, Structural)]
pub enum HostToApp {
    Scroll { pane: PaneKind, delta: i32 },
}

/// Name of the environment variable carrying the bridge socket path.
pub fn socket_env_key() -> (s: &'static str)
    ensures
        s@ == "HANDTERM_NATIVE_SCROLL_SOCKET"@,
{
    "HANDTERM_NATIVE_SCROLL_SOCKET"
}

/// Name of the environment variable a child checks to detect the terminal.
pub fn term_program_env_key() -> (s: &'static str)
    ensures
        s@ == "TERM_PROGRAM"@,
{
    "TERM_PROGRAM"
}

/// The value of `TERM_PROGRAM` in a child's environment.
pub fn term_program_env_value() -> (s: &'static str)
    ensures
        s@ == "handterm"@,
{
    "handterm"
}

/// Name of the environment variable carrying the host window id.
pub fn window_env_key() -> (s: &'static str)
    ensures
        s@ == "HANDTERM_WINDOW_ID"@,
{
    "HANDTERM_WINDOW_ID"
}

/// The decimal digits of `n`, most significant first, without leading zeros.
pub open spec fn spec_decimal(n: u64) -> Seq<char>
    decreases n,
{
    let digit = (('0' as u32) + (n % 10) as u32) as char;
    if n < 10 {
        seq![digit]
    } else {
        spec_decimal(n / 10).push(digit)
    }
}

/// The one-character text of decimal digit `d`.
fn digit_str(d: u64) -> (s: &'static str)
    requires
        d < 10,
    ensures
        s@ == seq![(('0' as u32) + d as u32) as char],
{
    match d {
        0 => {
            proof {
                reveal_strlit("0");
            }
            "0"
        },
        1 => {
            proof {
                reveal_strlit("1");
            }
            "1"
        },
        2 => {
            proof {
                reveal_strlit("2");
            }
            "2"
        },
        3 => {
            proof {
                reveal_strlit("3");
            }
            "3"
        },
        4 => {
            proof {
                reveal_strlit("4");
            }
            "4"
        },
        5 => {
            proof {
                reveal_strlit("5");
            }
            "5"
        },
        6 => {
            proof {
                reveal_strlit("6");
            }
            "6"
        },
        7 => {
            proof {
                reveal_strlit("7");
            }
            "7"
        },
        8 => {
            proof {
                reveal_strlit("8");
            }
            "8"
        },
        _ => {
            proof {
                reveal_strlit("9");
            }
            "9"
        },
    }
}

/// The decimal representation of `n`: its digits, most significant first,
/// without sign, padding or leading zeros.
fn decimal_string(n: u64) -> (s: String)
    ensures
        s@ == spec_decimal(n),
    decreases n,
{
    if n < 10 {
        String::from_str(digit_str(n))
    } else {
        let mut s = decimal_string(n / 10);
        s.append(digit_str(n % 10));
        s
    }
}

/// A decimal digit character.
pub open spec fn is_decimal_digit(c: char) -> bool {
    '0' <= c && c <= '9'
}

/// The value of a string of decimal digits, most significant first.
pub open spec fn digits_value(s: Seq<char>) -> int
    decreases s.len(),
{
    if s.len() == 0 {
        0
    } else {
        digits_value(s.drop_last()) * 10 + (s.last() as int - '0' as int)
    }
}

/// The text after an optional leading `+`.
pub open spec fn unsigned_digits(s: Seq<char>) -> Seq<char> {
    if s.len() > 0 && s[0] == '+' {
        s.drop_first()
    } else {
        s
    }
}

/// The `u64` that `text.parse::<u64>()` reads: an optional `+` and then
/// at least one decimal digit, with a value that fits; `None` otherwise.
pub open spec fn spec_parse_u64(s: Seq<char>) -> Option<u64> {
    let body = unsigned_digits(s);
    if body.len() > 0 && (forall|i: int| 0 <= i < body.len() ==> is_decimal_digit(#[trigger] body[i]))
        && digits_value(body) <= u64::MAX {
        Some(digits_value(body) as u64)
    } else {
        None
    }
}

proof fn lemma_digits_value_nonneg(s: Seq<char>)
    requires
        forall|i: int| 0 <= i < s.len() ==> is_decimal_digit(#[trigger] s[i]),
    ensures
        digits_value(s) >= 0,
    decreases s.len(),
{
    if s.len() > 0 {
        lemma_digits_value_nonneg(s.drop_last());
    }
}

proof fn lemma_digits_value_prefix(s: Seq<char>, k: int)
    requires
        0 <= k <= s.len(),
        forall|i: int| 0 <= i < s.len() ==> is_decimal_digit(#[trigger] s[i]),
    ensures
        digits_value(s) >= digits_value(s.take(k)),
    decreases s.len(),
{
    if k < s.len() {
        lemma_digits_value_prefix(s.drop_last(), k);
        assert(s.drop_last().take(k) =~= s.take(k));
        lemma_digits_value_nonneg(s.drop_last());
    } else {
        assert(s.take(k) =~= s);
    }
}

/// Reads a window id as the child does: `text.parse::<u64>()`, an optional
/// `+` and decimal digits whose value fits in a `u64`.
pub fn parse_window_id(text: &str) -> (id: Option<u64>)
    ensures
        id == spec_parse_u64(text@),
{
    let n = text.unicode_len();
    let ghost s = text@;
    let start: usize = if n > 0 && text.get_char(0) == '+' { 1 } else { 0 };
    let ghost body = unsigned_digits(s);
    assert(body =~= s.subrange(start as int, s.len() as int));
    if start >= n {
        return None;
    }
    let mut value: u64 = 0;
    let mut i: usize = start;
    while i < n
        invariant
            n == s.len(),
            s == text@,
            start <= i <= n,
            body == s.subrange(start as int, s.len() as int),
            body == unsigned_digits(s),
            forall|k: int| 0 <= k < i - start ==> is_decimal_digit(#[trigger] body[k]),
            value == digits_value(body.take(i - start)),
        decreases n - i,
    {
        let c = text.get_char(i);
        assert(body[i - start] == c);
        if !('0' <= c && c <= '9') {
            assert(!is_decimal_digit(body[i - start]));
            return None;
        }
        let d = (c as u32 - '0' as u32) as u64;
        let ghost j = i - start;
        proof {
            assert(body.take(j + 1).drop_last() =~= body.take(j));
            assert(body.take(j + 1).last() == c);
            assert(digits_value(body.take(j + 1)) == value * 10 + d);
        }
        match value.checked_mul(10) {
            Some(v10) => match v10.checked_add(d) {
                Some(v) => {
                    value = v;
                },
                None => {
                    proof {
                        assert(forall|k: int| 0 <= k < j + 1 ==> is_decimal_digit(#[trigger] body[k]));
                        if forall|k: int| 0 <= k < body.len() ==> is_decimal_digit(#[trigger] body[k]) {
                            lemma_digits_value_prefix(body, j + 1);
                        }
                    }
                    return None;
                },
            },
            None => {
                proof {
                    assert(forall|k: int| 0 <= k < j + 1 ==> is_decimal_digit(#[trigger] body[k]));
                    if forall|k: int| 0 <= k < body.len() ==> is_decimal_digit(#[trigger] body[k]) {
                        lemma_digits_value_prefix(body, j + 1);
                        lemma_digits_value_nonneg(body.take(j));
                    }
                }
                return None;
            },
        }
        i += 1;
    }
    assert(body.take(body.len() as int) =~= body);
    Some(value)
}

proof fn lemma_decimal_digits(n: u64)
    ensures
        spec_decimal(n).len() > 0,
        spec_decimal(n)[0] != '+',
        forall|i: int| 0 <= i < spec_decimal(n).len() ==> is_decimal_digit(#[trigger] spec_decimal(n)[i]),
        digits_value(spec_decimal(n)) == n,
    decreases n,
{
    let digit = (('0' as u32) + (n % 10) as u32) as char;
    assert(digit as int == '0' as int + n % 10);
    if n < 10 {
        assert(spec_decimal(n) == seq![digit]);
        assert(seq![digit].drop_last() =~= Seq::<char>::empty());
        assert(digits_value(seq![digit]) == digits_value(Seq::<char>::empty()) * 10 + (digit as int - '0' as int));
    }
    if n >= 10 {
        lemma_decimal_digits(n / 10);
        let s = spec_decimal(n);
        assert(s == spec_decimal(n / 10).push(digit));
        assert(s.drop_last() =~= spec_decimal(n / 10));
        assert(digits_value(s) == digits_value(s.drop_last()) * 10 + (digit as int - '0' as int));
        assert forall|i: int| 0 <= i < s.len() implies is_decimal_digit(#[trigger] s[i]) by {
            if i < s.len() - 1 {
                assert(s[i] == spec_decimal(n / 10)[i]);
            }
        }
    }
}

/// A window id written into a child's environment reads back as the same
/// id.
pub proof fn law_window_id_round_trip(n: u64)
    ensures
        spec_parse_u64(spec_decimal(n)) == Some(n),
{
    lemma_decimal_digits(n);
}

/// The view of an environment list.
pub open spec fn env_view(envs: Seq<(&str, String)>) -> Seq<(Seq<char>, Seq<char>)> {
    envs.map_values(|e: (&str, String)| (e.0@, e.1@))
}

/// The environment of a child process of window `window_id`: it always
/// learns it runs in this terminal, and, when the scroll bridge is up with
/// socket `socket_path`, where the socket is and which window it is in.
pub open spec fn spec_child_envs(socket_path: Option<Seq<char>>, window_id: u64) -> Seq<(Seq<char>, Seq<char>)> {
    let identity = seq![("TERM_PROGRAM"@, "handterm"@)];
    match socket_path {
        Some(path) => identity + seq![
            ("HANDTERM_NATIVE_SCROLL_SOCKET"@, path),
            ("HANDTERM_WINDOW_ID"@, spec_decimal(window_id)),
        ],
        None => identity,
    }
}

/// A child always learns it runs in this terminal: its first variable is
/// `TERM_PROGRAM=handterm`; with the bridge up it also gets the socket path
/// under `HANDTERM_NATIVE_SCROLL_SOCKET` and its window under
/// `HANDTERM_WINDOW_ID`, written in decimal.
pub proof fn law_child_envs_name_terminal_and_window(socket_path: Option<Seq<char>>, window_id: u64)
    ensures
        spec_child_envs(socket_path, window_id)[0] == (
            seq!['T', 'E', 'R', 'M', '_', 'P', 'R', 'O', 'G', 'R', 'A', 'M'],
            seq!['h', 'a', 'n', 'd', 't', 'e', 'r', 'm'],
        ),
        socket_path is None ==> spec_child_envs(socket_path, window_id).len() == 1,
        socket_path matches Some(p) ==> spec_child_envs(socket_path, window_id).len() == 3
            && spec_child_envs(socket_path, window_id)[1].1 == p
            && spec_child_envs(socket_path, window_id)[2].1 == spec_decimal(window_id)
            && spec_parse_u64(spec_child_envs(socket_path, window_id)[2].1) == Some(window_id),
{
    reveal_strlit("TERM_PROGRAM");
    reveal_strlit("handterm");
    law_window_id_round_trip(window_id);
}

/// The environment the scroll bridge hands a child of window `window_id`:
/// where its socket is, which window the child is in, and that it runs in
/// this terminal, in that order.
pub open spec fn spec_bridge_child_envs(socket_path: Seq<char>, window_id: u64) -> Seq<(Seq<char>, Seq<char>)> {
    seq![
        ("HANDTERM_NATIVE_SCROLL_SOCKET"@, socket_path),
        ("HANDTERM_WINDOW_ID"@, spec_decimal(window_id)),
        ("TERM_PROGRAM"@, "handterm"@),
    ]
}

/// Environment variables the scroll bridge with socket `socket_path` passes
/// to a child of window `window_id`.
pub fn bridge_child_envs(socket_path: &str, window_id: u64) -> (envs: Vec<(&'static str, String)>)
    ensures
        env_view(envs@) == spec_bridge_child_envs(socket_path@, window_id),
{
    let mut envs: Vec<(&'static str, String)> = Vec::new();
    envs.push((socket_env_key(), String::from_str(socket_path)));
    envs.push((window_env_key(), decimal_string(window_id)));
    envs.push((term_program_env_key(), String::from_str(term_program_env_value())));
    assert(env_view(envs@) =~= spec_bridge_child_envs(socket_path@, window_id));
    envs
}

/// Environment variables passed to a child process. Terminal identity does
/// not depend on the scroll bridge, so `TERM_PROGRAM` is set even when the
/// bridge socket could not be set up (`socket_path` is `None`).
pub fn child_process_envs(socket_path: Option<&str>, window_id: u64) -> (envs: Vec<(&'static str, String)>)
    ensures
        env_view(envs@) == spec_child_envs(
            match socket_path {
                Some(p) => Some(p@),
                None => None,
            },
            window_id,
        ),
{
    let mut envs: Vec<(&'static str, String)> = Vec::new();
    envs.push((term_program_env_key(), String::from_str(term_program_env_value())));
    if let Some(path) = socket_path {
        envs.push((socket_env_key(), String::from_str(path)));
        envs.push((window_env_key(), decimal_string(window_id)));
    }
    proof {
        let ghost sp = match socket_path {
            Some(p) => Some(p@),
            None => None,
        };
        assert(env_view(envs@) =~= spec_child_envs(sp, window_id));
    }
    envs
}

/// Newline framing, one byte at a time: complete lines so far (empty lines
/// dropped) and the bytes of the line not yet terminated.
pub open spec fn frame_lines(s: Seq<u8>) -> (Seq<Seq<u8>>, Seq<u8>)
    decreases s.len(),
{
    if s.len() == 0 {
        (Seq::empty(), Seq::empty())
    } else {
        let (lines, current) = frame_lines(s.drop_last());
        let b = s.last();
        if b == 0x0a {
            (if current.len() > 0 { lines.push(current) } else { lines }, Seq::empty())
        } else {
            (lines, current.push(b))
        }
    }
}

/// Removes every complete line from `buffer` and returns them without their
/// newline, skipping empty lines; an unterminated tail stays in `buffer`.
pub fn split_complete_lines(buffer: &mut Vec<u8>) -> (lines: Vec<Vec<u8>>)
    ensures
        lines@.map_values(|l: Vec<u8>| l@) == frame_lines(old(buffer)@).0,
        final(buffer)@ == frame_lines(old(buffer)@).1,
{
    let mut lines: Vec<Vec<u8>> = Vec::new();
    let mut current: Vec<u8> = Vec::new();
    let mut i: usize = 0;
    let n = buffer.len();
    while i < n
        invariant
            i <= n,
            n == buffer@.len(),
            buffer@ == old(buffer)@,
            (lines@.map_values(|l: Vec<u8>| l@), current@) == frame_lines(buffer@.take(i as int)),
        decreases n - i,
    {
        let b = buffer[i];
        proof {
            assert(buffer@.take(i + 1).drop_last() =~= buffer@.take(i as int));
        }
        if b == 0x0a {
            if current.len() > 0 {
                let done = current;
                let ghost before = lines@;
                lines.push(done);
                assert(lines@.map_values(|l: Vec<u8>| l@) =~= before.map_values(|l: Vec<u8>| l@).push(done@));
                current = Vec::new();
            } else {
                current = Vec::new();
            }
        } else {
            current.push(b);
        }
        i += 1;
    }
    assert(buffer@.take(n as int) =~= old(buffer)@);
    *buffer = current;
    lines
}

} // verus!
