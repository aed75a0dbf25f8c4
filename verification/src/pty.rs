//! Everything a shell launch decides before the process is forked: the
//! window size handed to the pseudo terminal, the child's argument vector,
//! its environment, and the program paths tried in `execvp(3)` order, with
//! the malformed inputs that are refused. Strings are handled as bytes, as
//! the operating system sees them.

use vstd::prelude::*;
use vstd::slice::slice_to_vec;
use vstd::string::StringSliceAdditionalSpecFns;
use vstd::string::StrSliceExecFns;

verus! {

/// The size reported to the child through the pseudo terminal.
#[derive(Debug, Clone, Copy, PartialEq, Eq, Structural)]
pub struct WindowSize {
    pub ws_row: u16,
    pub ws_col: u16,
    pub ws_xpixel: u16,
    pub ws_ypixel: u16,
}

pub open spec fn clamp_u16(v: u32) -> u16 {
    if v > u16::MAX {
        u16::MAX
    } else {
        v as u16
    }
}

/// The pseudo terminal size for a grid of `columns` x `rows` cells drawn in
/// `pixel_width` x `pixel_height` pixels; pixel sizes beyond `u16::MAX` are
/// clamped to it.
pub fn make_winsize(columns: u16, rows: u16, pixel_width: u32, pixel_height: u32) -> (ws: WindowSize)
    ensures
        ws == (WindowSize {
            ws_row: rows,
            ws_col: columns,
            ws_xpixel: clamp_u16(pixel_width),
            ws_ypixel: clamp_u16(pixel_height),
        }),
{
    let xp: u16 = if pixel_width > 0xffff { 0xffff } else { pixel_width as u16 };
    let yp: u16 = if pixel_height > 0xffff { 0xffff } else { pixel_height as u16 };
    WindowSize { ws_row: rows, ws_col: columns, ws_xpixel: xp, ws_ypixel: yp }
}

/// Why a launch is refused before anything is forked.
#[derive(Debug, Clone, Copy, PartialEq, Eq, Structural)]
pub enum LaunchError {
    /// The shell path (or a path built from it) holds a NUL byte.
    InvalidShellPath,
    /// The startup command holds a NUL byte.
    InvalidShellCommand,
    /// The search path produced no candidate program.
    EmptySearchPath,
    /// An environment variable name holds `=`.
    EnvNameContainsEquals,
    /// An environment variable holds a NUL byte.
    EnvContainsNul,
    /// The working directory holds a NUL byte.
    CwdContainsNul,
}

impl LaunchError {
    /// A short description of the refusal.
    pub fn summary(&self) -> (s: &'static str)
        ensures
            *self == LaunchError::InvalidShellPath ==> s@ == "invalid shell path"@,
            *self == LaunchError::InvalidShellCommand ==> s@ == "invalid shell command"@,
            *self == LaunchError::EmptySearchPath ==> s@ == "empty PATH while resolving shell"@,
            *self == LaunchError::EnvNameContainsEquals ==> s@ == "environment variable name contains '='"@,
            *self == LaunchError::EnvContainsNul ==> s@ == "environment variable contains a NUL byte"@,
            *self == LaunchError::CwdContainsNul ==> s@ == "working directory contains a NUL byte"@,
    {
        match self {
            LaunchError::InvalidShellPath => "invalid shell path",
            LaunchError::InvalidShellCommand => "invalid shell command",
            LaunchError::EmptySearchPath => "empty PATH while resolving shell",
            LaunchError::EnvNameContainsEquals => "environment variable name contains '='",
            LaunchError::EnvContainsNul => "environment variable contains a NUL byte",
            LaunchError::CwdContainsNul => "working directory contains a NUL byte",
        }
    }
}

pub open spec fn nul() -> u8 {
    0u8
}

pub open spec fn slash() -> u8 {
    0x2fu8
}

pub open spec fn colon() -> u8 {
    0x3au8
}

pub open spec fn equals() -> u8 {
    0x3du8
}

pub open spec fn dot() -> u8 {
    0x2eu8
}

/// The bytes of `TERM`.
pub open spec fn term_key() -> Seq<u8> {
    seq![0x54u8, 0x45, 0x52, 0x4d]
}

/// The bytes of `xterm-256color`.
pub open spec fn term_value() -> Seq<u8> {
    seq![0x78u8, 0x74, 0x65, 0x72, 0x6d, 0x2d, 0x32, 0x35, 0x36, 0x63, 0x6f, 0x6c, 0x6f, 0x72]
}

/// The bytes of `COLORTERM`.
pub open spec fn colorterm_key() -> Seq<u8> {
    seq![0x43u8, 0x4f, 0x4c, 0x4f, 0x52, 0x54, 0x45, 0x52, 0x4d]
}

/// The bytes of `truecolor`.
pub open spec fn colorterm_value() -> Seq<u8> {
    seq![0x74u8, 0x72, 0x75, 0x65, 0x63, 0x6f, 0x6c, 0x6f, 0x72]
}

/// The bytes of `PATH`.
pub open spec fn path_key() -> Seq<u8> {
    seq![0x50u8, 0x41, 0x54, 0x48]
}

/// The bytes of `/usr/bin:/bin`, searched when `PATH` is unset.
pub open spec fn default_search_path() -> Seq<u8> {
    seq![0x2fu8, 0x75, 0x73, 0x72, 0x2f, 0x62, 0x69, 0x6e, 0x3a, 0x2f, 0x62, 0x69, 0x6e]
}

/// The bytes of `-lc`, the flag that makes the shell run a command.
pub open spec fn command_flag() -> Seq<u8> {
    seq![0x2du8, 0x6c, 0x63]
}

fn term_key_bytes() -> (v: Vec<u8>)
    ensures
        v@ == term_key(),
{
    let v = vec![0x54u8, 0x45, 0x52, 0x4d];
    assert(v@ =~= term_key());
    v
}

fn term_value_bytes() -> (v: Vec<u8>)
    ensures
        v@ == term_value(),
{
    let v = vec![0x78u8, 0x74, 0x65, 0x72, 0x6d, 0x2d, 0x32, 0x35, 0x36, 0x63, 0x6f, 0x6c, 0x6f, 0x72];
    assert(v@ =~= term_value());
    v
}

fn colorterm_key_bytes() -> (v: Vec<u8>)
    ensures
        v@ == colorterm_key(),
{
    let v = vec![0x43u8, 0x4f, 0x4c, 0x4f, 0x52, 0x54, 0x45, 0x52, 0x4d];
    assert(v@ =~= colorterm_key());
    v
}

fn colorterm_value_bytes() -> (v: Vec<u8>)
    ensures
        v@ == colorterm_value(),
{
    let v = vec![0x74u8, 0x72, 0x75, 0x65, 0x63, 0x6f, 0x6c, 0x6f, 0x72];
    assert(v@ =~= colorterm_value());
    v
}

fn path_key_bytes() -> (v: Vec<u8>)
    ensures
        v@ == path_key(),
{
    let v = vec![0x50u8, 0x41, 0x54, 0x48];
    assert(v@ =~= path_key());
    v
}

fn default_search_path_bytes() -> (v: Vec<u8>)
    ensures
        v@ == default_search_path(),
{
    let v = vec![0x2fu8, 0x75, 0x73, 0x72, 0x2f, 0x62, 0x69, 0x6e, 0x3a, 0x2f, 0x62, 0x69, 0x6e];
    assert(v@ =~= default_search_path());
    v
}

fn command_flag_bytes() -> (v: Vec<u8>)
    ensures
        v@ == command_flag(),
{
    let v = vec![0x2du8, 0x6c, 0x63];
    assert(v@ =~= command_flag());
    v
}

/// Whether `s` holds the byte `b`.
pub fn contains_byte(s: &[u8], b: u8) -> (r: bool)
    ensures
        r == s@.contains(b),
{
    let mut i: usize = 0;
    while i < s.len()
        invariant
            i <= s@.len(),
            forall|k: int| 0 <= k < i ==> s@[k] != b,
        decreases s.len() - i,
    {
        if s[i] == b {
            assert(s@[i as int] == b);
            return true;
        }
        i += 1;
    }
    false
}

fn bytes_equal(a: &[u8], b: &[u8]) -> (r: bool)
    ensures
        r == (a@ == b@),
{
    if a.len() != b.len() {
        return false;
    }
    let mut i: usize = 0;
    while i < a.len()
        invariant
            i <= a@.len(),
            a@.len() == b@.len(),
            forall|k: int| 0 <= k < i ==> a@[k] == b@[k],
        decreases a.len() - i,
    {
        if a[i] != b[i] {
            return false;
        }
        i += 1;
    }
    assert(a@ =~= b@);
    true
}

fn append_bytes(out: &mut Vec<u8>, s: &[u8])
    ensures
        final(out)@ == old(out)@ + s@,
{
    let ghost start = out@;
    let mut i: usize = 0;
    while i < s.len()
        invariant
            i <= s@.len(),
            out@ == start + s@.subrange(0, i as int),
        decreases s.len() - i,
    {
        out.push(s[i]);
        i += 1;
        assert(out@ =~= start + s@.subrange(0, i as int));
    }
    assert(s@.subrange(0, s@.len() as int) =~= s@);
}

/// Environment variables, name and value, as bytes.
pub open spec fn pairs_view(env: Seq<(Vec<u8>, Vec<u8>)>) -> Seq<(Seq<u8>, Seq<u8>)> {
    env.map_values(|e: (Vec<u8>, Vec<u8>)| (e.0@, e.1@))
}

/// Caller-provided variables as bytes.
pub open spec fn overrides_view(overrides: Seq<(&str, &str)>) -> Seq<(Seq<u8>, Seq<u8>)> {
    overrides.map_values(|e: (&str, &str)| (e.0.spec_bytes(), e.1.spec_bytes()))
}

/// Each byte string of a list.
pub open spec fn bytes_list(v: Seq<Vec<u8>>) -> Seq<Seq<u8>> {
    v.map_values(|e: Vec<u8>| e@)
}

/// The index of the first variable named `key` at or after `from`, or -1.
pub open spec fn key_slot(env: Seq<(Seq<u8>, Seq<u8>)>, key: Seq<u8>, from: int) -> int
    decreases env.len() - from,
{
    if from < 0 || from >= env.len() {
        -1
    } else if env[from].0 == key {
        from
    } else {
        key_slot(env, key, from + 1)
    }
}

proof fn lemma_key_slot_range(env: Seq<(Seq<u8>, Seq<u8>)>, key: Seq<u8>, from: int)
    requires
        0 <= from,
    ensures
        key_slot(env, key, from) == -1 || (from <= key_slot(env, key, from) < env.len()
            && env[key_slot(env, key, from)].0 == key),
    decreases env.len() - from,
{
    if from < env.len() && env[from].0 != key {
        lemma_key_slot_range(env, key, from + 1);
    }
}

/// Setting a variable: the first variable of that name takes the value, or
/// the variable is appended when there is none.
pub open spec fn spec_upsert(env: Seq<(Seq<u8>, Seq<u8>)>, key: Seq<u8>, value: Seq<u8>) -> Seq<(Seq<u8>, Seq<u8>)> {
    let k = key_slot(env, key, 0);
    if 0 <= k < env.len() {
        env.update(k, (env[k].0, value))
    } else {
        env.push((key, value))
    }
}

/// Setting the first `n` variables of `vars` in order.
pub open spec fn spec_upsert_all(env: Seq<(Seq<u8>, Seq<u8>)>, vars: Seq<(Seq<u8>, Seq<u8>)>, n: int) -> Seq<(Seq<u8>, Seq<u8>)>
    decreases n,
{
    if n <= 0 {
        env
    } else {
        let before = spec_upsert_all(env, vars, n - 1);
        spec_upsert(before, vars[n - 1].0, vars[n - 1].1)
    }
}

/// The variables that identify the terminal to its child.
pub open spec fn terminal_defaults() -> Seq<(Seq<u8>, Seq<u8>)> {
    seq![(term_key(), term_value()), (colorterm_key(), colorterm_value())]
}

/// The child's environment: the inherited one with the terminal defaults
/// and then the caller's variables set on top.
pub open spec fn spec_effective_env(inherited: Seq<(Seq<u8>, Seq<u8>)>, overrides: Seq<(Seq<u8>, Seq<u8>)>) -> Seq<(Seq<u8>, Seq<u8>)> {
    let vars = terminal_defaults() + overrides;
    spec_upsert_all(inherited, vars, vars.len() as int)
}

fn find_key(env: &Vec<(Vec<u8>, Vec<u8>)>, key: &[u8]) -> (slot: Option<usize>)
    ensures
        match slot {
            Some(i) => i as int == key_slot(pairs_view(env@), key@, 0) && i < env@.len()
                && env@[i as int].0@ == key@,
            None => key_slot(pairs_view(env@), key@, 0) == -1,
        },
{
    let ghost ev = pairs_view(env@);
    let mut i: usize = 0;
    while i < env.len()
        invariant
            i <= env@.len(),
            ev == pairs_view(env@),
            key_slot(ev, key@, 0) == key_slot(ev, key@, i as int),
        decreases env.len() - i,
    {
        assert(ev[i as int] == (env@[i as int].0@, env@[i as int].1@));
        if bytes_equal(env[i].0.as_slice(), key) {
            return Some(i);
        }
        i += 1;
    }
    None
}

/// Sets variable `key` to `value` in `env`: the first variable of that name
/// takes the new value, or the variable is appended.
pub fn upsert_env(env: &mut Vec<(Vec<u8>, Vec<u8>)>, key: &[u8], value: &[u8])
    ensures
        pairs_view(final(env)@) == spec_upsert(pairs_view(old(env)@), key@, value@),
{
    let ghost old_view = pairs_view(env@);
    match find_key(env, key) {
        Some(i) => {
            let name = slice_to_vec(env[i].0.as_slice());
            env.set(i, (name, slice_to_vec(value)));
            assert(old_view[i as int].0 == key@);
            assert(pairs_view(env@) =~= spec_upsert(old_view, key@, value@));
        },
        None => {
            env.push((slice_to_vec(key), slice_to_vec(value)));
            assert(pairs_view(env@) =~= spec_upsert(old_view, key@, value@));
        },
    }
}

/// The child's environment: `inherited` with `TERM=xterm-256color`,
/// `COLORTERM=truecolor` and then each of `overrides` set in order.
pub fn effective_env(inherited: Vec<(Vec<u8>, Vec<u8>)>, overrides: &[(&str, &str)]) -> (env: Vec<(Vec<u8>, Vec<u8>)>)
    ensures
        pairs_view(env@) == spec_effective_env(pairs_view(inherited@), overrides_view(overrides@)),
{
    let ghost vars = terminal_defaults() + overrides_view(overrides@);
    let ghost base = pairs_view(inherited@);
    let mut env = inherited;
    let tk = term_key_bytes();
    let tv = term_value_bytes();
    upsert_env(&mut env, tk.as_slice(), tv.as_slice());
    let ck = colorterm_key_bytes();
    let cv = colorterm_value_bytes();
    upsert_env(&mut env, ck.as_slice(), cv.as_slice());
    proof {
        assert(spec_upsert_all(base, vars, 0) == base);
        assert(vars[0] == (term_key(), term_value()));
        assert(vars[1] == (colorterm_key(), colorterm_value()));
        assert(spec_upsert_all(base, vars, 1) == spec_upsert(base, term_key(), term_value()));
        assert(pairs_view(env@) == spec_upsert_all(base, vars, 2));
    }
    let mut j: usize = 0;
    while j < overrides.len()
        invariant
            j <= overrides@.len(),
            vars == terminal_defaults() + overrides_view(overrides@),
            pairs_view(env@) == spec_upsert_all(base, vars, 2 + j),
        decreases overrides.len() - j,
    {
        let (k, v) = overrides[j];
        proof {
            assert(vars[2 + j] == overrides_view(overrides@)[j as int]);
        }
        upsert_env(&mut env, k.as_bytes(), v.as_bytes());
        j += 1;
    }
    env
}

/// The entries of a `PATH` value: the pieces between colons, empty pieces
/// included.
pub open spec fn split_colon(s: Seq<u8>) -> Seq<Seq<u8>>
    decreases s.len(),
{
    if s.len() == 0 {
        seq![Seq::empty()]
    } else {
        let init = split_colon(s.drop_last());
        if s.last() == colon() {
            init.push(Seq::empty())
        } else {
            init.update(init.len() - 1, init.last().push(s.last()))
        }
    }
}

proof fn lemma_split_colon_nonempty(s: Seq<u8>)
    ensures
        split_colon(s).len() >= 1,
    decreases s.len(),
{
    if s.len() > 0 {
        lemma_split_colon_nonempty(s.drop_last());
    }
}

/// The path of `program` in directory `dir`; an empty directory means the
/// current one.
pub open spec fn join_program(dir: Seq<u8>, program: Seq<u8>) -> Seq<u8> {
    let d = if dir.len() == 0 { seq![dot()] } else { dir };
    if d.last() == slash() {
        d + program
    } else {
        d.push(slash()) + program
    }
}

/// The value of the first `PATH` variable, or `/usr/bin:/bin`.
pub open spec fn search_path(env: Seq<(Seq<u8>, Seq<u8>)>) -> Seq<u8> {
    let k = key_slot(env, path_key(), 0);
    if 0 <= k < env.len() {
        env[k].1
    } else {
        default_search_path()
    }
}

/// The paths tried for `program`, in order: the program itself when it names
/// a path, else the program in each entry of the search path.
pub open spec fn spec_candidates(program: Seq<u8>, env: Seq<(Seq<u8>, Seq<u8>)>) -> Seq<Seq<u8>> {
    if program.contains(slash()) {
        seq![program]
    } else {
        split_colon(search_path(env)).map_values(|d: Seq<u8>| join_program(d, program))
    }
}

pub open spec fn any_has_nul(list: Seq<Seq<u8>>) -> bool {
    exists|i: int| 0 <= i < list.len() && #[trigger] list[i].contains(nul())
}

/// The candidate program paths, or why there are none.
pub open spec fn spec_program_candidates(program: Seq<u8>, env: Seq<(Seq<u8>, Seq<u8>)>) -> Result<Seq<Seq<u8>>, LaunchError> {
    let c = spec_candidates(program, env);
    if any_has_nul(c) {
        Err(LaunchError::InvalidShellPath)
    } else if c.len() == 0 {
        Err(LaunchError::EmptySearchPath)
    } else {
        Ok(c)
    }
}

fn join_program_exec(dir: &[u8], program: &[u8]) -> (p: Vec<u8>)
    ensures
        p@ == join_program(dir@, program@),
{
    let mut out: Vec<u8> = Vec::new();
    if dir.len() == 0 {
        out.push(0x2e);
    } else {
        append_bytes(&mut out, dir);
    }
    let ghost d = out@;
    assert(d == (if dir@.len() == 0 { seq![dot()] } else { dir@ }));
    if out[out.len() - 1] != 0x2f {
        out.push(0x2f);
    }
    append_bytes(&mut out, program);
    out
}

/// The program paths tried, in `execvp(3)` order: a program name holding
/// `/` is used as it is; any other is looked up in each entry of `PATH`
/// (`/usr/bin:/bin` when unset), an empty entry meaning the current
/// directory.
pub fn program_candidates(program: &[u8], env: &Vec<(Vec<u8>, Vec<u8>)>) -> (r: Result<Vec<Vec<u8>>, LaunchError>)
    ensures
        match r {
            Ok(c) => spec_program_candidates(program@, pairs_view(env@)) == Ok::<Seq<Seq<u8>>, LaunchError>(bytes_list(c@)),
            Err(e) => spec_program_candidates(program@, pairs_view(env@)) == Err::<Seq<Seq<u8>>, LaunchError>(e),
        },
{
    let ghost ev = pairs_view(env@);
    if contains_byte(program, 0x2f) {
        if contains_byte(program, 0) {
            assert(spec_candidates(program@, ev)[0] == program@);
            assert(spec_candidates(program@, ev)[0].contains(nul()));
            return Err(LaunchError::InvalidShellPath);
        }
        let mut one: Vec<Vec<u8>> = Vec::new();
        one.push(slice_to_vec(program));
        assert(bytes_list(one@) =~= spec_candidates(program@, ev));
        return Ok(one);
    }
    // The search path.
    let pk = path_key_bytes();
    let found = find_key(env, pk.as_slice());
    let default_path = default_search_path_bytes();
    let search: &[u8] = match found {
        Some(k) => env[k].1.as_slice(),
        None => default_path.as_slice(),
    };
    assert(search@ == search_path(ev));
    // Split it on colons, joining the program to each entry.
    let ghost whole = search@;
    let mut candidates: Vec<Vec<u8>> = Vec::new();
    let mut current: Vec<u8> = Vec::new();
    let mut bad = false;
    let mut j: usize = 0;
    while j < search.len()
        invariant
            j <= search@.len(),
            whole == search@,
            split_colon(whole.subrange(0, j as int)).len() == candidates@.len() + 1,
            forall|k: int| 0 <= k < candidates@.len() ==> #[trigger] candidates@[k]@ == join_program(split_colon(whole.subrange(0, j as int))[k], program@),
            split_colon(whole.subrange(0, j as int)).last() == current@,
            bad == any_has_nul(bytes_list(candidates@)),
        decreases search.len() - j,
    {
        let b = search[j];
        let ghost prefix = whole.subrange(0, j as int);
        let ghost next = whole.subrange(0, j + 1);
        proof {
            assert(next.drop_last() =~= prefix);
            assert(next.last() == b);
            lemma_split_colon_nonempty(prefix);
        }
        if b == 0x3a {
            let joined = join_program_exec(current.as_slice(), program);
            let has_nul = contains_byte(joined.as_slice(), 0);
            let ghost before = candidates@;
            candidates.push(joined);
            proof {
                assert(bytes_list(candidates@) =~= bytes_list(before).push(candidates@[before.len() as int]@));
                if has_nul {
                    assert(bytes_list(candidates@)[before.len() as int].contains(nul()));
                }
                if bad {
                    let w = choose|w: int| 0 <= w < bytes_list(before).len() && #[trigger] bytes_list(before)[w].contains(nul());
                    assert(bytes_list(candidates@)[w] == bytes_list(before)[w]);
                }
                if any_has_nul(bytes_list(candidates@)) && !has_nul {
                    let w = choose|w: int| 0 <= w < bytes_list(candidates@).len() && #[trigger] bytes_list(candidates@)[w].contains(nul());
                    assert(bytes_list(before)[w] == bytes_list(candidates@)[w]);
                }
            }
            bad = bad || has_nul;
            current = Vec::new();
        } else {
            current.push(b);
        }
        proof {
            lemma_split_colon_nonempty(next);
        }
        j += 1;
    }
    let joined = join_program_exec(current.as_slice(), program);
    let has_nul = contains_byte(joined.as_slice(), 0);
    let ghost before = candidates@;
    candidates.push(joined);
    proof {
        assert(whole.subrange(0, whole.len() as int) =~= whole);
        let spec_c = spec_candidates(program@, ev);
        assert(bytes_list(candidates@) =~= spec_c);
        if has_nul {
            assert(bytes_list(candidates@)[before.len() as int].contains(nul()));
        }
        if bad {
            let w = choose|w: int| 0 <= w < bytes_list(before).len() && #[trigger] bytes_list(before)[w].contains(nul());
            assert(bytes_list(candidates@)[w] == bytes_list(before)[w]);
        }
        if any_has_nul(bytes_list(candidates@)) && !has_nul {
            let w = choose|w: int| 0 <= w < bytes_list(candidates@).len() && #[trigger] bytes_list(candidates@)[w].contains(nul());
            assert(bytes_list(before)[w] == bytes_list(candidates@)[w]);
        }
    }
    if bad || has_nul {
        return Err(LaunchError::InvalidShellPath);
    }
    if candidates.len() == 0 {
        return Err(LaunchError::EmptySearchPath);
    }
    Ok(candidates)
}

/// The `NAME=VALUE` string of a variable.
pub open spec fn env_entry(p: (Seq<u8>, Seq<u8>)) -> Seq<u8> {
    p.0.push(equals()) + p.1
}

/// Why a variable cannot be handed to the child, if it cannot.
pub open spec fn env_pair_error(p: (Seq<u8>, Seq<u8>)) -> Option<LaunchError> {
    if p.0.contains(equals()) {
        Some(LaunchError::EnvNameContainsEquals)
    } else if env_entry(p).contains(nul()) {
        Some(LaunchError::EnvContainsNul)
    } else {
        None
    }
}

/// The index of the first refused variable at or after `from`, or -1.
pub open spec fn first_env_error(pairs: Seq<(Seq<u8>, Seq<u8>)>, from: int) -> int
    decreases pairs.len() - from,
{
    if from < 0 || from >= pairs.len() {
        -1
    } else if env_pair_error(pairs[from]) is Some {
        from
    } else {
        first_env_error(pairs, from + 1)
    }
}

/// The `NAME=VALUE` strings of the environment, or the refusal of its first
/// malformed variable.
pub open spec fn spec_env_entries(pairs: Seq<(Seq<u8>, Seq<u8>)>) -> Result<Seq<Seq<u8>>, LaunchError> {
    let k = first_env_error(pairs, 0);
    if 0 <= k < pairs.len() {
        Err(env_pair_error(pairs[k])->0)
    } else {
        Ok(pairs.map_values(|p: (Seq<u8>, Seq<u8>)| env_entry(p)))
    }
}

/// The `NAME=VALUE` strings handed to the child, in order. The first
/// variable whose name holds `=`, or whose entry holds a NUL byte, is
/// refused.
pub fn env_entries(env: &Vec<(Vec<u8>, Vec<u8>)>) -> (r: Result<Vec<Vec<u8>>, LaunchError>)
    ensures
        match r {
            Ok(entries) => spec_env_entries(pairs_view(env@)) == Ok::<Seq<Seq<u8>>, LaunchError>(bytes_list(entries@)),
            Err(e) => spec_env_entries(pairs_view(env@)) == Err::<Seq<Seq<u8>>, LaunchError>(e),
        },
{
    let ghost ev = pairs_view(env@);
    let mut out: Vec<Vec<u8>> = Vec::new();
    let mut i: usize = 0;
    while i < env.len()
        invariant
            i <= env@.len(),
            ev == pairs_view(env@),
            first_env_error(ev, 0) == first_env_error(ev, i as int),
            bytes_list(out@) == ev.subrange(0, i as int).map_values(|p: (Seq<u8>, Seq<u8>)| env_entry(p)),
        decreases env.len() - i,
    {
        assert(ev[i as int] == (env@[i as int].0@, env@[i as int].1@));
        let name = env[i].0.as_slice();
        if contains_byte(name, 0x3d) {
            return Err(LaunchError::EnvNameContainsEquals);
        }
        let mut entry: Vec<u8> = Vec::new();
        append_bytes(&mut entry, name);
        entry.push(0x3d);
        append_bytes(&mut entry, env[i].1.as_slice());
        assert(entry@ =~= env_entry(ev[i as int]));
        if contains_byte(entry.as_slice(), 0) {
            return Err(LaunchError::EnvContainsNul);
        }
        let ghost before = out@;
        out.push(entry);
        i += 1;
        assert(bytes_list(out@) =~= ev.subrange(0, i as int).map_values(|p: (Seq<u8>, Seq<u8>)| env_entry(p))) by {
            assert(bytes_list(out@) =~= bytes_list(before).push(out@[i - 1]@));
            assert(ev.subrange(0, i as int) =~= ev.subrange(0, i - 1).push(ev[i - 1]));
        }
    }
    assert(ev.subrange(0, ev.len() as int) =~= ev);
    Ok(out)
}

/// The argument vector: the shell, then `-lc` and the command when there is
/// one; refused when either holds a NUL byte.
pub open spec fn spec_args(shell: Seq<u8>, command: Option<Seq<u8>>) -> Result<Seq<Seq<u8>>, LaunchError> {
    if shell.contains(nul()) {
        Err(LaunchError::InvalidShellPath)
    } else {
        match command {
            None => Ok(seq![shell]),
            Some(c) => if c.contains(nul()) {
                Err(LaunchError::InvalidShellCommand)
            } else {
                Ok(seq![shell, command_flag(), c])
            },
        }
    }
}

pub open spec fn opt_bytes(s: Option<&str>) -> Option<Seq<u8>> {
    match s {
        Some(t) => Some(t.spec_bytes()),
        None => None,
    }
}

/// The argument vector of the child: the shell path, then `-lc` and the
/// command when there is one.
pub fn shell_args(shell_path: &str, command: Option<&str>) -> (r: Result<Vec<Vec<u8>>, LaunchError>)
    ensures
        match r {
            Ok(args) => spec_args(shell_path.spec_bytes(), opt_bytes(command)) == Ok::<Seq<Seq<u8>>, LaunchError>(bytes_list(args@)),
            Err(e) => spec_args(shell_path.spec_bytes(), opt_bytes(command)) == Err::<Seq<Seq<u8>>, LaunchError>(e),
        },
{
    let shell = shell_path.as_bytes();
    if contains_byte(shell, 0) {
        return Err(LaunchError::InvalidShellPath);
    }
    let mut args: Vec<Vec<u8>> = Vec::new();
    args.push(slice_to_vec(shell));
    if let Some(c) = command {
        let cb = c.as_bytes();
        if contains_byte(cb, 0) {
            return Err(LaunchError::InvalidShellCommand);
        }
        args.push(command_flag_bytes());
        args.push(slice_to_vec(cb));
    }
    assert(bytes_list(args@) =~= spec_args(shell_path.spec_bytes(), opt_bytes(command))->Ok_0);
    Ok(args)
}

/// What a launch hands to `execve(2)`: the candidate program paths, the
/// argument vector, the `NAME=VALUE` environment and the directory to enter
/// first, all without their terminating NUL bytes.
#[derive(Debug)]
pub struct ExecPlan {
    pub candidates: Vec<Vec<u8>>,
    pub args: Vec<Vec<u8>>,
    pub env: Vec<Vec<u8>>,
    pub cwd: Option<Vec<u8>>,
}

pub open spec fn opt_vec_bytes(v: Option<Vec<u8>>) -> Option<Seq<u8>> {
    match v {
        Some(b) => Some(b@),
        None => None,
    }
}

pub open spec fn opt_slice_bytes(v: Option<&[u8]>) -> Option<Seq<u8>> {
    match v {
        Some(b) => Some(b@),
        None => None,
    }
}

/// The launch plan as byte strings: candidates, arguments, environment and
/// working directory.
pub open spec fn plan_view(p: ExecPlan) -> (Seq<Seq<u8>>, Seq<Seq<u8>>, Seq<Seq<u8>>, Option<Seq<u8>>) {
    (bytes_list(p.candidates@), bytes_list(p.args@), bytes_list(p.env@), opt_vec_bytes(p.cwd))
}

/// The plan of a launch, or the first refusal: the arguments are checked
/// first, then the program paths, then the environment, then the working
/// directory.
pub open spec fn spec_prepare_exec(
    shell: Seq<u8>,
    command: Option<Seq<u8>>,
    inherited: Seq<(Seq<u8>, Seq<u8>)>,
    overrides: Seq<(Seq<u8>, Seq<u8>)>,
    cwd: Option<Seq<u8>>,
) -> Result<(Seq<Seq<u8>>, Seq<Seq<u8>>, Seq<Seq<u8>>, Option<Seq<u8>>), LaunchError> {
    let env = spec_effective_env(inherited, overrides);
    match spec_args(shell, command) {
        Err(e) => Err(e),
        Ok(args) => match spec_program_candidates(shell, env) {
            Err(e) => Err(e),
            Ok(candidates) => match spec_env_entries(env) {
                Err(e) => Err(e),
                Ok(entries) => match cwd {
                    Some(d) => if d.contains(nul()) {
                        Err(LaunchError::CwdContainsNul)
                    } else {
                        Ok((candidates, args, entries, cwd))
                    },
                    None => Ok((candidates, args, entries, cwd)),
                },
            },
        },
    }
}

/// Prepares everything the child needs to exec `shell_path` (with
/// `command` run through `-lc` when given) in an environment made of
/// `inherited` and `overrides`, entering `cwd` first when given.
pub fn prepare_exec(
    shell_path: &str,
    command: Option<&str>,
    inherited: Vec<(Vec<u8>, Vec<u8>)>,
    overrides: &[(&str, &str)],
    cwd: Option<&[u8]>,
) -> (r: Result<ExecPlan, LaunchError>)
    ensures
        match r {
            Ok(plan) => spec_prepare_exec(shell_path.spec_bytes(), opt_bytes(command), pairs_view(inherited@), overrides_view(overrides@), opt_slice_bytes(cwd))
                == Ok::<(Seq<Seq<u8>>, Seq<Seq<u8>>, Seq<Seq<u8>>, Option<Seq<u8>>), LaunchError>(plan_view(plan)),
            Err(e) => spec_prepare_exec(shell_path.spec_bytes(), opt_bytes(command), pairs_view(inherited@), overrides_view(overrides@), opt_slice_bytes(cwd))
                == Err::<(Seq<Seq<u8>>, Seq<Seq<u8>>, Seq<Seq<u8>>, Option<Seq<u8>>), LaunchError>(e),
        },
{
    let args = match shell_args(shell_path, command) {
        Ok(a) => a,
        Err(e) => return Err(e),
    };
    let env_pairs = effective_env(inherited, overrides);
    let candidates = match program_candidates(shell_path.as_bytes(), &env_pairs) {
        Ok(c) => c,
        Err(e) => return Err(e),
    };
    let env = match env_entries(&env_pairs) {
        Ok(e) => e,
        Err(e) => return Err(e),
    };
    let dir = match cwd {
        Some(d) => {
            if contains_byte(d, 0) {
                return Err(LaunchError::CwdContainsNul);
            }
            Some(slice_to_vec(d))
        },
        None => None,
    };
    Ok(ExecPlan { candidates, args, env, cwd: dir })
}

/// Unicode white space: what `str::trim` strips.
pub open spec fn is_white_space(c: char) -> bool {
    let u = c as u32;
    (0x9 <= u <= 0xd) || u == 0x20 || u == 0x85 || u == 0xa0 || u == 0x1680 || (0x2000 <= u
        <= 0x200a) || u == 0x2028 || u == 0x2029 || u == 0x202f || u == 0x205f || u == 0x3000
}

/// A command made of white space only.
pub open spec fn is_blank(s: Seq<char>) -> bool {
    forall|i: int| 0 <= i < s.len() ==> is_white_space(#[trigger] s[i])
}

fn is_white_space_exec(c: char) -> (b: bool)
    ensures
        b == is_white_space(c),
{
    let u = c as u32;
    (0x9 <= u && u <= 0xd) || u == 0x20 || u == 0x85 || u == 0xa0 || u == 0x1680 || (0x2000 <= u
        && u <= 0x200a) || u == 0x2028 || u == 0x2029 || u == 0x202f || u == 0x205f || u == 0x3000
}

/// The command a new window runs: none when it is absent or blank, so that
/// the shell starts interactively.
pub fn startup_command(command: Option<&str>) -> (r: Option<&str>)
    ensures
        r == (match command {
            Some(c) => if is_blank(c@) { None } else { Some(c) },
            None => None,
        }),
{
    match command {
        None => None,
        Some(c) => {
            let n = c.unicode_len();
            let mut i: usize = 0;
            while i < n
                invariant
                    command == Some(c),
                    n == c@.len(),
                    i <= n,
                    forall|k: int| 0 <= k < i ==> is_white_space(#[trigger] c@[k]),
                decreases n - i,
            {
                let ch = c.get_char(i);
                if !is_white_space_exec(ch) {
                    assert(!is_white_space(c@[i as int]));
                    return Some(c);
                }
                i += 1;
            }
            None
        },
    }
}

/// The step of a launch that failed in the child, as reported through the
/// status pipe.
#[derive(Debug, Clone, Copy, PartialEq, Eq, Structural)]
pub enum LaunchStage {
    Chdir,
    Exec,
    Setup,
}

impl LaunchStage {
    /// The stage a status byte names: `c` for entering the working
    /// directory, `e` for the exec, anything else for setup.
    pub fn from_code(code: u8) -> (s: LaunchStage)
        ensures
            s == (if code == 0x63 {
                LaunchStage::Chdir
            } else if code == 0x65 {
                LaunchStage::Exec
            } else {
                LaunchStage::Setup
            }),
    {
        if code == 0x63 {
            LaunchStage::Chdir
        } else if code == 0x65 {
            LaunchStage::Exec
        } else {
            LaunchStage::Setup
        }
    }

    /// The byte the child writes for this stage.
    pub fn code(&self) -> (c: u8)
        ensures
            *self == LaunchStage::Chdir ==> c == 0x63,
            *self == LaunchStage::Exec ==> c == 0x65,
            *self == LaunchStage::Setup ==> c == 0x73,
    {
        match self {
            LaunchStage::Chdir => 0x63,
            LaunchStage::Exec => 0x65,
            LaunchStage::Setup => 0x73,
        }
    }

    /// The stage's name in messages.
    pub fn name(&self) -> (s: &'static str)
        ensures
            *self == LaunchStage::Chdir ==> s@ == "chdir"@,
            *self == LaunchStage::Exec ==> s@ == "exec"@,
            *self == LaunchStage::Setup ==> s@ == "setup"@,
    {
        match self {
            LaunchStage::Chdir => "chdir",
            LaunchStage::Exec => "exec",
            LaunchStage::Setup => "setup",
        }
    }
}

/// The length of a launch status message: the stage byte and four errno
/// bytes.
pub const LAUNCH_MESSAGE_LEN: usize = 5;

/// What reading the launch status pipe does after one `read(2)` that
/// returned `n` with `offset` bytes already received.
#[derive(Debug, Clone, Copy, PartialEq, Eq, Structural)]
pub enum LaunchReadStep {
    /// The pipe closed before any byte: the exec succeeded.
    Launched,
    /// The pipe closed in the middle of a message.
    Truncated,
    /// The read was interrupted by a signal: read again.
    Retry,
    /// The read failed.
    Failed,
    /// More bytes are needed; this many are in hand.
    Continue(usize),
    /// The whole message is in hand.
    Complete,
}

/// The next step of reading a launch status message.
pub fn launch_read_step(offset: usize, n: isize, interrupted: bool) -> (step: LaunchReadStep)
    requires
        offset < LAUNCH_MESSAGE_LEN,
        n <= LAUNCH_MESSAGE_LEN - offset,
    ensures
        step == (if n == 0 {
            if offset == 0 {
                LaunchReadStep::Launched
            } else {
                LaunchReadStep::Truncated
            }
        } else if n < 0 {
            if interrupted {
                LaunchReadStep::Retry
            } else {
                LaunchReadStep::Failed
            }
        } else if offset + n == LAUNCH_MESSAGE_LEN {
            LaunchReadStep::Complete
        } else {
            LaunchReadStep::Continue((offset + n) as usize)
        }),
{
    if n == 0 {
        if offset == 0 {
            LaunchReadStep::Launched
        } else {
            LaunchReadStep::Truncated
        }
    } else if n < 0 {
        if interrupted {
            LaunchReadStep::Retry
        } else {
            LaunchReadStep::Failed
        }
    } else {
        let next = offset + n as usize;
        if next == LAUNCH_MESSAGE_LEN {
            LaunchReadStep::Complete
        } else {
            LaunchReadStep::Continue(next)
        }
    }
}

/// The value of the first variable named `key`, if any: what the child
/// reads.
pub open spec fn env_lookup(env: Seq<(Seq<u8>, Seq<u8>)>, key: Seq<u8>) -> Option<Seq<u8>> {
    let k = key_slot(env, key, 0);
    if 0 <= k < env.len() {
        Some(env[k].1)
    } else {
        None
    }
}

/// The value the last of the first `n` variables named `key` sets, if any.
pub open spec fn last_value(vars: Seq<(Seq<u8>, Seq<u8>)>, key: Seq<u8>, n: int) -> Option<Seq<u8>>
    decreases n,
{
    if n <= 0 {
        None
    } else if vars[n - 1].0 == key {
        Some(vars[n - 1].1)
    } else {
        last_value(vars, key, n - 1)
    }
}

proof fn lemma_key_slot_update(env: Seq<(Seq<u8>, Seq<u8>)>, j: int, v: Seq<u8>, k: Seq<u8>, from: int)
    requires
        0 <= j < env.len(),
        0 <= from,
    ensures
        key_slot(env.update(j, (env[j].0, v)), k, from) == key_slot(env, k, from),
    decreases env.len() - from,
{
    if from < env.len() {
        lemma_key_slot_update(env, j, v, k, from + 1);
    }
}

proof fn lemma_key_slot_push(env: Seq<(Seq<u8>, Seq<u8>)>, p: (Seq<u8>, Seq<u8>), k: Seq<u8>, from: int)
    requires
        0 <= from <= env.len(),
    ensures
        key_slot(env.push(p), k, from) == (if key_slot(env, k, from) >= 0 {
            key_slot(env, k, from)
        } else if p.0 == k {
            env.len() as int
        } else {
            -1
        }),
    decreases env.len() - from,
{
    if from < env.len() {
        lemma_key_slot_push(env, p, k, from + 1);
        assert(env.push(p)[from] == env[from]);
    } else {
        assert(env.push(p)[from] == p);
        assert(key_slot(env.push(p), k, from + 1) == -1);
    }
}

/// After setting a variable, the child reads the value just set.
pub proof fn law_upsert_then_lookup(env: Seq<(Seq<u8>, Seq<u8>)>, key: Seq<u8>, value: Seq<u8>)
    ensures
        env_lookup(spec_upsert(env, key, value), key) == Some(value),
{
    lemma_key_slot_range(env, key, 0);
    let k = key_slot(env, key, 0);
    if 0 <= k < env.len() {
        lemma_key_slot_update(env, k, value, key, 0);
    } else {
        lemma_key_slot_push(env, (key, value), key, 0);
    }
}

/// Setting a variable leaves every other variable as the child reads it.
pub proof fn law_upsert_keeps_other_names(env: Seq<(Seq<u8>, Seq<u8>)>, key: Seq<u8>, value: Seq<u8>, other: Seq<u8>)
    requires
        other != key,
    ensures
        env_lookup(spec_upsert(env, key, value), other) == env_lookup(env, other),
{
    lemma_key_slot_range(env, key, 0);
    lemma_key_slot_range(env, other, 0);
    let k = key_slot(env, key, 0);
    if 0 <= k < env.len() {
        lemma_key_slot_update(env, k, value, other, 0);
    } else {
        lemma_key_slot_push(env, (key, value), other, 0);
    }
}

proof fn lemma_upsert_all_lookup(env: Seq<(Seq<u8>, Seq<u8>)>, vars: Seq<(Seq<u8>, Seq<u8>)>, n: int, key: Seq<u8>)
    requires
        0 <= n <= vars.len(),
    ensures
        env_lookup(spec_upsert_all(env, vars, n), key) == (match last_value(vars, key, n) {
            Some(v) => Some(v),
            None => env_lookup(env, key),
        }),
    decreases n,
{
    if n > 0 {
        lemma_upsert_all_lookup(env, vars, n - 1, key);
        let before = spec_upsert_all(env, vars, n - 1);
        if vars[n - 1].0 == key {
            law_upsert_then_lookup(before, key, vars[n - 1].1);
        } else {
            law_upsert_keeps_other_names(before, vars[n - 1].0, vars[n - 1].1, key);
        }
    }
}

/// What the child reads for a variable: the last caller-provided value for
/// it, else the terminal's own default (`TERM`, `COLORTERM`), else what the
/// terminal inherited.
pub proof fn law_effective_env_lookup(inherited: Seq<(Seq<u8>, Seq<u8>)>, overrides: Seq<(Seq<u8>, Seq<u8>)>, key: Seq<u8>)
    ensures
        env_lookup(spec_effective_env(inherited, overrides), key) == (match last_value(overrides, key, overrides.len() as int) {
            Some(v) => Some(v),
            None => match last_value(terminal_defaults(), key, 2) {
                Some(v) => Some(v),
                None => env_lookup(inherited, key),
            },
        }),
{
    let vars = terminal_defaults() + overrides;
    lemma_upsert_all_lookup(inherited, vars, vars.len() as int, key);
    lemma_last_value_concat(terminal_defaults(), overrides, key, overrides.len() as int);
}

proof fn lemma_last_value_concat(a: Seq<(Seq<u8>, Seq<u8>)>, b: Seq<(Seq<u8>, Seq<u8>)>, key: Seq<u8>, m: int)
    requires
        0 <= m <= b.len(),
    ensures
        last_value(a + b, key, a.len() + m) == (match last_value(b, key, m) {
            Some(v) => Some(v),
            None => last_value(a, key, a.len() as int),
        }),
    decreases m,
{
    if m > 0 {
        lemma_last_value_concat(a, b, key, m - 1);
        assert((a + b)[a.len() + m - 1] == b[m - 1]);
    } else {
        lemma_last_value_prefix(a, b, key, a.len() as int);
    }
}

proof fn lemma_last_value_prefix(a: Seq<(Seq<u8>, Seq<u8>)>, b: Seq<(Seq<u8>, Seq<u8>)>, key: Seq<u8>, n: int)
    requires
        0 <= n <= a.len(),
    ensures
        last_value(a + b, key, n) == last_value(a, key, n),
    decreases n,
{
    if n > 0 {
        lemma_last_value_prefix(a, b, key, n - 1);
        assert((a + b)[n - 1] == a[n - 1]);
    }
}

} // verus!

verus! {

/// The child learns it runs in a 256-colour, true-colour terminal: unless
/// the caller sets them, `TERM` reads `xterm-256color` and `COLORTERM`
/// reads `truecolor`, whatever was inherited.
pub proof fn law_child_sees_terminal_identity(inherited: Seq<(Seq<u8>, Seq<u8>)>, overrides: Seq<(Seq<u8>, Seq<u8>)>)
    ensures
        last_value(overrides, seq![0x54u8, 0x45, 0x52, 0x4d], overrides.len() as int) is None
            ==> env_lookup(spec_effective_env(inherited, overrides), seq![0x54u8, 0x45, 0x52, 0x4d])
            == Some(seq![0x78u8, 0x74, 0x65, 0x72, 0x6d, 0x2d, 0x32, 0x35, 0x36, 0x63, 0x6f, 0x6c, 0x6f, 0x72]),
        last_value(overrides, seq![0x43u8, 0x4f, 0x4c, 0x4f, 0x52, 0x54, 0x45, 0x52, 0x4d], overrides.len() as int) is None
            ==> env_lookup(
            spec_effective_env(inherited, overrides),
            seq![0x43u8, 0x4f, 0x4c, 0x4f, 0x52, 0x54, 0x45, 0x52, 0x4d],
        ) == Some(seq![0x74u8, 0x72, 0x75, 0x65, 0x63, 0x6f, 0x6c, 0x6f, 0x72]),
{
    let term = seq![0x54u8, 0x45, 0x52, 0x4d];
    let colorterm = seq![0x43u8, 0x4f, 0x4c, 0x4f, 0x52, 0x54, 0x45, 0x52, 0x4d];
    law_effective_env_lookup(inherited, overrides, term);
    law_effective_env_lookup(inherited, overrides, colorterm);
    reveal_with_fuel(last_value, 3);
    assert(term_key() =~= term);
    assert(colorterm_key() =~= colorterm);
    assert(terminal_defaults()[1].0 != term);
    assert(terminal_defaults()[1].0.len() == 9);
}

/// A command runs through the shell as `shell -lc command`; without one
/// the shell runs alone.
pub proof fn law_command_runs_through_login_shell(shell: Seq<u8>, command: Seq<u8>)
    requires
        !shell.contains(0u8),
        !command.contains(0u8),
    ensures
        spec_args(shell, Some(command)) == Ok::<Seq<Seq<u8>>, LaunchError>(
            seq![shell, seq![0x2du8, 0x6c, 0x63], command],
        ),
        spec_args(shell, None) == Ok::<Seq<Seq<u8>>, LaunchError>(seq![shell]),
{
    assert(command_flag() =~= seq![0x2du8, 0x6c, 0x63]);
}

/// With no `PATH` in the environment a bare program name is looked for in
/// `/usr/bin`, then `/bin`.
pub proof fn law_default_search_path(program: Seq<u8>, env: Seq<(Seq<u8>, Seq<u8>)>)
    requires
        key_slot(env, seq![0x50u8, 0x41, 0x54, 0x48], 0) >= env.len(),
    ensures
        search_path(env) == seq![0x2fu8, 0x75, 0x73, 0x72, 0x2f, 0x62, 0x69, 0x6e, 0x3a, 0x2f, 0x62, 0x69, 0x6e],
{
    assert(path_key() =~= seq![0x50u8, 0x41, 0x54, 0x48]);
}

} // verus!
