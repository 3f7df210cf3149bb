use media_engine::download::candidate_path_from_stdout;
use media_engine::errors::EngineError;
use media_engine::probe::{
    parse_duration, duration_from_outcome, probe_duration, build_audio_file, probe_invocation,
    Duration,
};
use media_engine::process::ProcessOutcome;

fn exited(exit_zero: bool, stdout: &str, stderr: &str) -> ProcessOutcome {
    ProcessOutcome::Exited {
        exit_zero,
        stdout: String::from(stdout),
        stderr: String::from(stderr),
    }
}

#[test]
fn duration_plain_integer() {
    assert_eq!(parse_duration("7"), Some(Duration { secs: 7, micros: 0 }));
    assert_eq!(parse_duration("  42 \n"), Some(Duration { secs: 42, micros: 0 }));
}

#[test]
fn duration_with_fraction() {
    assert_eq!(
        parse_duration("123.456789\n"),
        Some(Duration { secs: 123, micros: 456789 })
    );
    assert_eq!(parse_duration("1.5"), Some(Duration { secs: 1, micros: 500000 }));
    assert_eq!(parse_duration("0.000001"), Some(Duration { secs: 0, micros: 1 }));
}

#[test]
fn duration_fraction_is_truncated_after_six_digits() {
    assert_eq!(
        parse_duration("2.9999999"),
        Some(Duration { secs: 2, micros: 999999 })
    );
}

#[test]
fn duration_bare_dot_edges() {
    assert_eq!(parse_duration(".5"), Some(Duration { secs: 0, micros: 500000 }));
    assert_eq!(parse_duration("5."), Some(Duration { secs: 5, micros: 0 }));
    assert_eq!(parse_duration("."), None);
}

#[test]
fn duration_rejects_garbage() {
    assert_eq!(parse_duration(""), None);
    assert_eq!(parse_duration("   \n "), None);
    assert_eq!(parse_duration("N/A"), None);
    assert_eq!(parse_duration("12a.5"), None);
    assert_eq!(parse_duration("1.2.3"), None);
    assert_eq!(parse_duration("99999999999999999999"), None);
}

#[test]
fn probe_parse_failure_is_an_error_at_probe_level() {
    let outcome = exited(true, "N/A\n", "");
    assert_eq!(probe_duration(outcome), Err(EngineError::OutputParseFailed));
    let outcome = exited(false, "", "no such stream");
    assert_eq!(
        probe_duration(outcome),
        Err(EngineError::NonZeroExit(String::from("no such stream")))
    );
    let outcome = exited(true, "9.25", "");
    assert_eq!(probe_duration(outcome), Ok(Duration { secs: 9, micros: 250000 }));
}

#[test]
fn probe_failure_means_duration_unknown() {
    let outcome = exited(false, "", "stream not found");
    assert_eq!(duration_from_outcome(&outcome), None);
    let outcome = exited(true, "not a number", "");
    assert_eq!(duration_from_outcome(&outcome), None);
    let outcome = exited(true, "3.25\n", "");
    assert_eq!(
        duration_from_outcome(&outcome),
        Some(Duration { secs: 3, micros: 250000 })
    );
}

#[test]
fn audio_file_survives_probe_failure() {
    let outcome = exited(false, "", "probe exploded");
    let f = build_audio_file("/music/track.mp3", true, 4096, Some(&outcome)).unwrap();
    assert_eq!(f.name, "track.mp3");
    assert_eq!(f.path, "/music/track.mp3");
    assert_eq!(f.size, 4096);
    assert_eq!(f.duration, None);
    assert_eq!(f.format.as_deref(), Some("MP3"));
}

#[test]
fn audio_file_missing_input_is_an_error() {
    let r = build_audio_file("/music/track.mp3", false, 0, None);
    assert!(r.is_err());
}

#[test]
fn audio_file_enriched_on_probe_success() {
    let outcome = exited(true, "208.12\n", "");
    let f = build_audio_file("/music/track.FLAC", true, 99, Some(&outcome)).unwrap();
    assert_eq!(f.duration, Some(Duration { secs: 208, micros: 120000 }));
    assert_eq!(f.format.as_deref(), Some("FLAC"));
}

#[test]
fn audio_file_without_extension_has_no_format() {
    let f = build_audio_file("/music/trackfile", true, 1, None).unwrap();
    assert_eq!(f.format, None);
    assert_eq!(f.name, "trackfile");
}

#[test]
fn probe_invocation_arguments() {
    let inv = probe_invocation(String::from("/app/ffprobe"), "/music/track.mp3");
    assert_eq!(inv.program, "/app/ffprobe");
    assert_eq!(
        inv.args,
        vec![
            "-v",
            "quiet",
            "-show_entries",
            "format=duration",
            "-of",
            "csv=p=0",
            "/music/track.mp3",
        ]
    );
}

#[test]
fn candidate_is_last_nonblank_line() {
    let stdout = "downloading 10%\ndownloading 100%\n/music/Song Title.mp3\n";
    assert_eq!(
        candidate_path_from_stdout(stdout),
        Some(String::from("/music/Song Title.mp3"))
    );
}

#[test]
fn candidate_single_line() {
    assert_eq!(
        candidate_path_from_stdout("/music/a.mp3"),
        Some(String::from("/music/a.mp3"))
    );
}

#[test]
fn candidate_absent_for_blank_output() {
    assert_eq!(candidate_path_from_stdout(""), None);
    assert_eq!(candidate_path_from_stdout("  \n \n"), None);
}

#[test]
fn candidate_line_is_trimmed() {
    assert_eq!(
        candidate_path_from_stdout("log\n  /music/b.mp3  \n"),
        Some(String::from("/music/b.mp3"))
    );
}
