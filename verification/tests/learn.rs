use spotwatt::learn::{command_signature, estimate_minutes, has_shell_operators, DurationLearner, Estimate};

#[test]
fn none_until_enough_samples() {
    assert_eq!(estimate_minutes(&[40, 41], 3), None);
    assert!(estimate_minutes(&[40, 41, 42], 3).is_some());
}

#[test]
fn counts_fast_sub_minute_runs() {
    // Three quick commands (each rounds to 0 min) still produce a usable,
    // floored estimate — they must not be silently dropped.
    assert_eq!(estimate_minutes(&[0, 0, 0], 3), Some(1));
}

#[test]
fn consistent_runs_get_margin() {
    // mean 40 × 1.15 = 46, which exceeds the longest run (40).
    assert_eq!(estimate_minutes(&[40, 40, 40], 3), Some(46));
}

#[test]
fn never_under_covers_the_longest_run() {
    // mean 50 × 1.15 = 57.5 → 58, but one run took 90, so estimate is 90.
    assert_eq!(estimate_minutes(&[30, 30, 90], 3), Some(90));
}

#[test]
fn padded_mean_rounds_up() {
    // mean 50 × 1.15 = 57.5 rounds up to 58 when no run is longer.
    assert_eq!(estimate_minutes(&[50, 50, 50, 50], 3), Some(58));
    // Negative samples (clock skew) count as zero.
    assert_eq!(estimate_minutes(&[-5, 20, 20], 3), Some(20));
    // A minimum of zero still needs one sample.
    assert_eq!(estimate_minutes(&[], 0), None);
    assert_eq!(estimate_minutes(&[7], 0), Some(9));
}

#[test]
fn signature_drops_argument_values() {
    assert_eq!(command_signature("echo 212"), "echo");
    assert_eq!(command_signature("echo 1"), "echo");
    assert_eq!(command_signature("ffmpeg -i ep01.mkv out.mkv"), "ffmpeg");
}

#[test]
fn signature_keeps_subcommands() {
    assert_eq!(command_signature("restic backup /data"), "restic backup");
    assert_eq!(command_signature("git gc --aggressive"), "git gc");
    assert_eq!(command_signature("docker compose up -d"), "docker compose up");
}

#[test]
fn signature_skips_wrappers_and_env() {
    assert_eq!(command_signature("sudo restic backup /data"), "restic backup");
    assert_eq!(command_signature("nice -n 10 restic backup /x"), "restic backup");
    assert_eq!(command_signature("timeout 300 rsync -a /a /b"), "rsync");
    assert_eq!(command_signature("RUST_LOG=debug cargo build"), "cargo build");
}

#[test]
fn signature_keeps_interpreter_scripts_apart() {
    assert_eq!(command_signature("python3 train.py --epochs 5"), "python3 train.py");
    assert_eq!(command_signature("python3 quick.py"), "python3 quick.py");
    assert_eq!(command_signature("bash /opt/scripts/backup.sh"), "bash backup.sh");
}

#[test]
fn signature_strips_program_path() {
    assert_eq!(command_signature("/usr/local/bin/restic backup"), "restic backup");
}

#[test]
fn signature_survives_unbalanced_quotes() {
    // shlex fails on this; the whitespace fallback still yields something.
    assert_eq!(command_signature("echo 'unterminated"), "echo");
}

#[test]
fn compound_commands_keep_their_whole_line() {
    // `echo …` chained to a long script must not borrow echo's history.
    for cmd in [
        "echo 3222 & py biggest_script_in_world.py",
        "echo ok && ./train.sh",
        "sleep 1; restic backup /data",
        "cat list | xargs -n1 transcode",
        "echo `date`",
        "echo $(heavy-thing)",
        "echo \"$(heavy-thing)\"", // $() runs even inside double quotes
    ] {
        assert_eq!(command_signature(cmd), cmd, "must stay exact: {cmd}");
    }
}

#[test]
fn quoted_operators_are_just_data() {
    assert!(!has_shell_operators("echo 'a;b & c|d'"));
    assert!(!has_shell_operators("echo \"a;b\""));
    assert!(!has_shell_operators("echo a\\;b"));
    assert_eq!(command_signature("echo 'a;b'"), "echo");
}

#[test]
fn single_quotes_hide_everything_double_quotes_only_hide_operators() {
    for s in ["a;b", "x & y | z", "line\nbreak", "cost $5", "run `date`", "now $(date)", "$", "(", "plain"] {
        assert!(!has_shell_operators(&format!("echo '{s}'")), "single-quoted {s:?}");
        let substitutes = s.contains('`') || s.contains("$(");
        assert_eq!(has_shell_operators(&format!("echo \"{s}\"")), substitutes, "double-quoted {s:?}");
    }
}

#[test]
fn script_arguments_are_identity_even_for_unknown_programs() {
    // `py` (the Python launcher) and arbitrary runners: the script decides
    // the runtime, so different scripts must not pool.
    assert_eq!(command_signature("py 1_min_task.py"), "py 1_min_task.py");
    assert_eq!(command_signature("py 1_hrs_task.py"), "py 1_hrs_task.py");
    assert_ne!(
        command_signature("py 1_min_task.py"),
        command_signature("py 1_hrs_task.py")
    );
    assert_eq!(command_signature("myrunner task.sh --fast"), "myrunner task.sh");
}

#[test]
fn signature_of_blank_or_flag_only_lines_is_the_trimmed_line() {
    assert_eq!(command_signature("   "), "");
    assert_eq!(command_signature("  -v 10  "), "-v 10");
    assert_eq!(command_signature("sudo"), "sudo");
    assert_eq!(command_signature("MyTool run.PY"), "MyTool run.PY");
}

#[test]
fn learner_prefers_exact_history() {
    let learner = DurationLearner::from_history(vec![
        ("restic backup /data".to_string(), 40),
        ("restic backup /data".to_string(), 42),
        ("restic backup /data".to_string(), 44),
        ("restic backup /other".to_string(), 400),
        ("restic backup /other".to_string(), 400),
        ("restic backup /other".to_string(), 400),
    ]);
    let est = learner.estimate("restic backup /data").unwrap();
    assert!(est.exact);
    assert_eq!(est.runs, 3);
    assert!(est.minutes < 100, "must not be polluted by /other: {est:?}");
}

#[test]
fn learner_falls_back_to_similar_commands() {
    let learner = DurationLearner::from_history(vec![
        ("ffmpeg -i ep01.mkv a.mkv".to_string(), 30),
        ("ffmpeg -i ep02.mkv b.mkv".to_string(), 34),
        ("ffmpeg -i ep03.mkv c.mkv".to_string(), 32),
    ]);
    // Never ran this exact file, but three similar transcodes exist.
    let est = learner.estimate("ffmpeg -i ep04.mkv d.mkv").unwrap();
    assert!(!est.exact);
    assert_eq!(est.runs, 3);
}

#[test]
fn learner_none_when_nothing_matches() {
    let learner = DurationLearner::from_history(vec![("restic backup /data".to_string(), 40)]);
    assert!(learner.estimate("ffmpeg -i x.mkv y.mkv").is_none());
}

#[test]
fn learner_keeps_only_the_newest_ten_runs() {
    let mut runs = Vec::new();
    for _ in 0..10 {
        runs.push(("make all".to_string(), 10));
    }
    // Older runs beyond the first ten (most recent first) are ignored.
    for _ in 0..5 {
        runs.push(("make all".to_string(), 500));
    }
    let learner = DurationLearner::from_history(runs);
    assert_eq!(
        learner.estimate("make all"),
        Some(Estimate { minutes: 12, runs: 10, exact: true })
    );
}
