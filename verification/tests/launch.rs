use handterm::pty::{
    effective_env, env_entries, launch_read_step, make_winsize, prepare_exec, program_candidates,
    shell_args, startup_command, upsert_env, LaunchError, LaunchReadStep, LaunchStage,
};

fn pair(k: &str, v: &str) -> (Vec<u8>, Vec<u8>) {
    (k.as_bytes().to_vec(), v.as_bytes().to_vec())
}

fn lookup<'a>(env: &'a [(Vec<u8>, Vec<u8>)], key: &str) -> Option<&'a [u8]> {
    env.iter().find(|(k, _)| k == key.as_bytes()).map(|(_, v)| v.as_slice())
}

#[test]
fn winsize_preserves_cell_and_pixel_dimensions() {
    let size = make_winsize(120, 40, 1080, 720);
    assert_eq!((size.ws_col, size.ws_row), (120, 40));
    assert_eq!((size.ws_xpixel, size.ws_ypixel), (1080, 720));

    let clamped = make_winsize(1, 1, u32::MAX, u32::MAX);
    assert_eq!((clamped.ws_xpixel, clamped.ws_ypixel), (u16::MAX, u16::MAX));
}

#[test]
fn pty_rejects_malformed_environment_names() {
    let error = prepare_exec("/bin/sh", None, Vec::new(), &[("BAD=NAME", "value")], None)
        .err()
        .expect("malformed environment name must be rejected");
    assert_eq!(error, LaunchError::EnvNameContainsEquals);
    assert!(error.summary().contains("contains '='"));
}

#[test]
fn pty_child_env_matches_pre_fork_preparation() {
    let inherited = vec![pair("HOME", "/home/me"), pair("TERM", "dumb"), pair("PATH", "/opt/bin::/bin/")];
    let plan = prepare_exec(
        "sh",
        Some("printf ok"),
        inherited,
        &[("HANDTERM_PTY_TEST", "fork-safe")],
        Some(b"/tmp".as_slice()),
    )
    .expect("launch should be prepared");
    assert_eq!(
        plan.env,
        vec![
            b"HOME=/home/me".to_vec(),
            b"TERM=xterm-256color".to_vec(),
            b"PATH=/opt/bin::/bin/".to_vec(),
            b"COLORTERM=truecolor".to_vec(),
            b"HANDTERM_PTY_TEST=fork-safe".to_vec(),
        ]
    );
    assert_eq!(
        plan.candidates,
        vec![b"/opt/bin/sh".to_vec(), b"./sh".to_vec(), b"/bin/sh".to_vec()]
    );
    assert_eq!(plan.args, vec![b"sh".to_vec(), b"-lc".to_vec(), b"printf ok".to_vec()]);
    assert_eq!(plan.cwd, Some(b"/tmp".to_vec()));
}

#[test]
fn upsert_replaces_the_first_match_or_appends() {
    let mut env = vec![pair("A", "1"), pair("B", "2"), pair("A", "3")];
    upsert_env(&mut env, b"A", b"9");
    assert_eq!(env, vec![pair("A", "9"), pair("B", "2"), pair("A", "3")]);
    upsert_env(&mut env, b"C", b"4");
    assert_eq!(env, vec![pair("A", "9"), pair("B", "2"), pair("A", "3"), pair("C", "4")]);
    assert_eq!(lookup(&env, "C"), Some(b"4".as_slice()));
}

#[test]
fn overrides_win_over_terminal_defaults() {
    let env = effective_env(vec![pair("COLORTERM", "256")], &[("TERM", "screen"), ("TERM", "linux")]);
    assert_eq!(lookup(&env, "TERM"), Some(b"linux".as_slice()));
    assert_eq!(lookup(&env, "COLORTERM"), Some(b"truecolor".as_slice()));
    assert_eq!(env.len(), 2);
}

#[test]
fn program_with_a_slash_is_used_as_it_is() {
    let env = vec![pair("PATH", "/usr/bin")];
    assert_eq!(program_candidates(b"./run", &env), Ok(vec![b"./run".to_vec()]));
    assert_eq!(program_candidates(b"/bin/s\0h", &env), Err(LaunchError::InvalidShellPath));
}

#[test]
fn unset_path_searches_usr_bin_then_bin() {
    assert_eq!(
        program_candidates(b"zsh", &Vec::new()),
        Ok(vec![b"/usr/bin/zsh".to_vec(), b"/bin/zsh".to_vec()])
    );
    let empty = vec![pair("PATH", "")];
    assert_eq!(program_candidates(b"zsh", &empty), Ok(vec![b"./zsh".to_vec()]));
}

#[test]
fn nul_bytes_are_refused_where_they_appear() {
    assert_eq!(shell_args("/bin/s\0h", None).err(), Some(LaunchError::InvalidShellPath));
    assert_eq!(shell_args("/bin/sh", Some("ec\0ho")).err(), Some(LaunchError::InvalidShellCommand));
    assert_eq!(shell_args("/bin/sh", None), Ok(vec![b"/bin/sh".to_vec()]));
    assert_eq!(
        env_entries(&vec![pair("OK", "1"), pair("X", "a\0b")]),
        Err(LaunchError::EnvContainsNul)
    );
    assert_eq!(
        prepare_exec("/bin/sh", None, Vec::new(), &[], Some(b"/t\0mp".as_slice())).err(),
        Some(LaunchError::CwdContainsNul)
    );
    let path_with_nul = vec![pair("PATH", "/b\0in")];
    assert_eq!(program_candidates(b"sh", &path_with_nul), Err(LaunchError::InvalidShellPath));
}

#[test]
fn blank_startup_commands_start_an_interactive_shell() {
    assert_eq!(startup_command(None), None);
    assert_eq!(startup_command(Some("  \t\n")), None);
    assert_eq!(startup_command(Some("\u{3000}")), None);
    assert_eq!(startup_command(Some(" ls ")), Some(" ls "));
}

#[test]
fn launch_status_reading_steps() {
    assert_eq!(launch_read_step(0, 0, false), LaunchReadStep::Launched);
    assert_eq!(launch_read_step(3, 0, false), LaunchReadStep::Truncated);
    assert_eq!(launch_read_step(0, -1, true), LaunchReadStep::Retry);
    assert_eq!(launch_read_step(0, -1, false), LaunchReadStep::Failed);
    assert_eq!(launch_read_step(1, 2, false), LaunchReadStep::Continue(3));
    assert_eq!(launch_read_step(2, 3, false), LaunchReadStep::Complete);
    assert_eq!(LaunchStage::from_code(b'c').name(), "chdir");
    assert_eq!(LaunchStage::from_code(b'e').name(), "exec");
    assert_eq!(LaunchStage::from_code(b'x').name(), "setup");
    assert_eq!(LaunchStage::from_code(LaunchStage::Exec.code()), LaunchStage::Exec);
}
