use media_engine::convert::{plan_convert, finish_convert, ConversionOptions};
use media_engine::download::{plan_download, is_recognized_url, download_result};
use media_engine::errors::EngineError;
use media_engine::pitch::{pitch_multiplier, pitch_filter, shift_description};
use media_engine::process::{classify_outcome, ProcessOutcome};
use media_engine::resolve::{resolve_tool_path, check_tool_present, capabilities, Tool, Platform};

fn options(semitones: i32) -> ConversionOptions {
    ConversionOptions {
        semitones,
        output_format: String::from("mp3"),
        output_path: String::from("/tmp/out.mp3"),
    }
}

#[test]
fn zero_shift_is_exactly_identity() {
    let (num, den) = pitch_multiplier(0);
    assert_eq!(num, den);
    assert_eq!(num, 1048576);
}

#[test]
fn multiplier_doubles_per_octave() {
    assert_eq!(pitch_multiplier(12), (2097152, 1048576));
    assert_eq!(pitch_multiplier(24), (4194304, 1048576));
    assert_eq!(pitch_multiplier(-12), (1048576, 2097152));
    assert_eq!(pitch_multiplier(1), (1110928, 1048576));
    assert_eq!(pitch_multiplier(-1), (1979448, 2097152));
}

#[test]
fn multiplier_strictly_increases() {
    let mut prev = pitch_multiplier(-30);
    for n in -29..=30 {
        let cur = pitch_multiplier(n);
        // compare prev.0/prev.1 < cur.0/cur.1 as cross products
        assert!((prev.0 as u128) * (cur.1 as u128) < (cur.0 as u128) * (prev.1 as u128));
        prev = cur;
    }
}

#[test]
fn filter_expression_for_zero_shift() {
    assert_eq!(
        pitch_filter(0),
        "asetrate=44100*1048576/1048576,aresample=44100"
    );
}

#[test]
fn filter_expression_for_one_semitone() {
    assert_eq!(
        pitch_filter(1),
        "asetrate=44100*1110928/1048576,aresample=44100"
    );
}

#[test]
fn shift_descriptions() {
    assert_eq!(shift_description(3), "raised by 3 semitones");
    assert_eq!(shift_description(-5), "lowered by 5 semitones");
    assert_eq!(shift_description(0), "unchanged");
}

#[test]
fn convert_missing_input_is_file_not_found() {
    let transcoder = String::from("/app/ffmpeg");
    let r = plan_convert("/music/gone.mp3", false, &options(2), Some(&transcoder));
    assert_eq!(r.err(), Some(EngineError::FileNotFound));
}

#[test]
fn convert_unsupported_extension_is_rejected() {
    let transcoder = String::from("/app/ffmpeg");
    let r = plan_convert("/music/notes.txt", true, &options(2), Some(&transcoder));
    assert_eq!(r.err(), Some(EngineError::UnsupportedFormat));
}

#[test]
fn convert_missing_binary_is_reported() {
    let r = plan_convert("/music/song.mp3", true, &options(2), None);
    assert_eq!(r.err(), Some(EngineError::BinaryNotFound));
}

#[test]
fn convert_plan_builds_exact_transcoder_arguments() {
    let transcoder = String::from("/app/ffmpeg");
    let inv = plan_convert("/music/song.WAV", true, &options(1), Some(&transcoder)).unwrap();
    assert_eq!(inv.program, "/app/ffmpeg");
    assert_eq!(
        inv.args,
        vec![
            "-i",
            "/music/song.WAV",
            "-af",
            "asetrate=44100*1110928/1048576,aresample=44100",
            "-f",
            "mp3",
            "-y",
            "/tmp/out.mp3",
        ]
    );
}

#[test]
fn convert_failure_carries_stderr_verbatim() {
    let outcome = ProcessOutcome::Exited {
        exit_zero: false,
        stdout: String::new(),
        stderr: String::from("codec not found"),
    };
    let r = finish_convert(outcome, "/music/song.mp3", 2, "/tmp/out.mp3");
    assert_eq!(
        r.err(),
        Some(EngineError::NonZeroExit(String::from("codec not found")))
    );
}

#[test]
fn convert_success_summarizes_the_work() {
    let outcome = ProcessOutcome::Exited {
        exit_zero: true,
        stdout: String::new(),
        stderr: String::new(),
    };
    let r = finish_convert(outcome, "/music/song.mp3", 2, "/tmp/out.mp3");
    assert_eq!(
        r.unwrap(),
        "Successfully processed song.mp3 (raised by 2 semitones) to /tmp/out.mp3"
    );
}

#[test]
fn spawn_failure_and_timeout_classify() {
    let r = classify_outcome(ProcessOutcome::SpawnFailed(String::from("permission denied")));
    assert_eq!(
        r.err(),
        Some(EngineError::SpawnFailed(String::from("permission denied")))
    );
    let r = classify_outcome(ProcessOutcome::TimedOut);
    assert_eq!(r.err(), Some(EngineError::Timeout));
}

#[test]
fn url_allowlist() {
    assert!(is_recognized_url("https://www.youtube.com/watch?v=abc"));
    assert!(is_recognized_url("https://youtu.be/abc"));
    assert!(!is_recognized_url("https://example.com/watch?v=abc"));
}

#[test]
fn download_invalid_url_is_rejected() {
    let downloader = String::from("/app/yt-dlp");
    let r = plan_download("https://example.com/a", "/music", Some(&downloader));
    assert_eq!(r.err(), Some(EngineError::InvalidUrl));
}

#[test]
fn download_missing_binary_is_reported() {
    let r = plan_download("https://youtu.be/abc", "/music", None);
    assert_eq!(r.err(), Some(EngineError::BinaryNotFound));
}

#[test]
fn download_plan_builds_exact_downloader_arguments() {
    let downloader = String::from("/app/yt-dlp");
    let inv = plan_download("https://youtu.be/abc", "/music", Some(&downloader)).unwrap();
    assert_eq!(inv.program, "/app/yt-dlp");
    assert_eq!(
        inv.args,
        vec![
            "-x",
            "--audio-format",
            "mp3",
            "--audio-quality",
            "0",
            "--print",
            "after_move:filepath",
            "-o",
            "/music/%(title)s.%(ext)s",
            "https://youtu.be/abc",
        ]
    );
}

#[test]
fn download_message_names_the_url() {
    let r = download_result("https://youtu.be/abc", None);
    assert_eq!(r.message, "Successfully downloaded: https://youtu.be/abc");
    assert!(r.file.is_none());
}

#[test]
fn tool_paths_per_platform() {
    assert_eq!(
        resolve_tool_path("C:\\Program Files\\App", Tool::Transcoder, Platform::Windows),
        "C:\\Program Files\\App\\ffmpeg.exe"
    );
    assert_eq!(
        resolve_tool_path("/opt/app", Tool::Prober, Platform::Posix),
        "/opt/app/ffprobe"
    );
    assert_eq!(
        resolve_tool_path("/opt/app", Tool::Downloader, Platform::Posix),
        "/opt/app/yt-dlp"
    );
}

#[test]
fn missing_tool_is_binary_not_found() {
    let r = check_tool_present(String::from("/opt/app/ffmpeg"), false);
    assert_eq!(r.err(), Some(EngineError::BinaryNotFound));
    let r = check_tool_present(String::from("/opt/app/ffmpeg"), true);
    assert_eq!(r.unwrap(), "/opt/app/ffmpeg");
}

#[test]
fn capabilities_reports_what_it_was_given() {
    let c = capabilities(String::from("linux"), String::from("x86_64"), true, false);
    assert_eq!(c.platform, "linux");
    assert_eq!(c.arch, "x86_64");
    assert!(c.transcoder_available);
    assert!(!c.downloader_available);
}
