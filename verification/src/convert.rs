//! Conversion orchestration.
//!
//! A conversion is validated, planned as a transcoder invocation, and its
//! outcome classified. Validation always comes first: a missing input or
//! an unsupported extension rejects the request before anything would be
//! spawned, and a missing transcoder binary is found out before the run.

use vstd::prelude::*;
use crate::errors::EngineError;
use crate::paths::{supported_audio_extension, has_supported_extension, display_name,
    file_display_name};
use crate::pitch::{filter_expr, pitch_filter, shift_description_spec, shift_description};
use crate::process::{Invocation, ProcessOutcome};

verus! {

/// A conversion request, constructed by the caller and consumed once.
pub struct ConversionOptions {
    /// Signed semitone shift; zero means no shift.
    pub semitones: i32,
    /// Target container format, e.g. "mp3".
    pub output_format: String,
    /// Destination path; an existing file there is overwritten.
    pub output_path: String,
}

/// The transcoder argument list for a conversion: input, filter graph,
/// target format, and overwrite-destination.
pub open spec fn convert_args(
    file_path: Seq<char>,
    semitones: int,
    output_format: Seq<char>,
    output_path: Seq<char>,
) -> Seq<Seq<char>> {
    seq![
        "-i"@,
        file_path,
        "-af"@,
        filter_expr(semitones),
        "-f"@,
        output_format,
        "-y"@,
        output_path,
    ]
}

/// Validates a conversion request and plans the transcoder invocation.
/// `input_exists` and `transcoder` stand for the caller's filesystem
/// findings: whether the input file is on disk, and the resolved
/// transcoder path if its binary is present.
pub fn plan_convert(
    file_path: &str,
    input_exists: bool,
    options: &ConversionOptions,
    transcoder: Option<&String>,
) -> (r: Result<Invocation, EngineError>)
    requires
        -480 <= options.semitones <= 480,
    ensures
        !input_exists ==> r == Err::<Invocation, EngineError>(EngineError::FileNotFound),
        input_exists && !supported_audio_extension(file_path@) ==> r == Err::<
            Invocation,
            EngineError,
        >(EngineError::UnsupportedFormat),
        input_exists && supported_audio_extension(file_path@) && transcoder is None ==> r == Err::<
            Invocation,
            EngineError,
        >(EngineError::BinaryNotFound),
        input_exists && supported_audio_extension(file_path@) && transcoder is Some ==> {
            &&& r is Ok
            &&& r.unwrap().program == *transcoder.unwrap()
            &&& r.unwrap().args_view() == convert_args(
                file_path@,
                options.semitones as int,
                options.output_format@,
                options.output_path@,
            )
        },
{
    if !input_exists {
        return Err(EngineError::FileNotFound);
    }
    if !has_supported_extension(file_path) {
        return Err(EngineError::UnsupportedFormat);
    }
    match transcoder {
        None => Err(EngineError::BinaryNotFound),
        Some(p) => {
            let filter = pitch_filter(options.semitones);
            let mut args: Vec<String> = Vec::new();
            args.push(String::from_str("-i"));
            args.push(file_path.to_owned());
            args.push(String::from_str("-af"));
            args.push(filter);
            args.push(String::from_str("-f"));
            args.push(options.output_format.clone());
            args.push(String::from_str("-y"));
            args.push(options.output_path.clone());
            let inv = Invocation { program: p.clone(), args };
            proof {
                assert(inv.args_view() =~= convert_args(
                    file_path@,
                    options.semitones as int,
                    options.output_format@,
                    options.output_path@,
                ));
            }
            Ok(inv)
        },
    }
}

/// The success message for a finished conversion: source name, what the
/// shift did, and the destination.
pub open spec fn convert_summary(file_path: Seq<char>, n: int, output_path: Seq<char>) -> Seq<
    char,
> {
    "Successfully processed "@ + display_name(file_path) + " ("@ + shift_description_spec(n)
        + ") to "@ + output_path
}

/// Classifies the transcoder's outcome. On a zero exit the summary is
/// returned; on a nonzero exit the captured stderr is the error detail,
/// verbatim and unreformatted.
pub fn finish_convert(
    outcome: ProcessOutcome,
    file_path: &str,
    semitones: i32,
    output_path: &str,
) -> (r: Result<String, EngineError>)
    requires
        -480 <= semitones <= 480,
    ensures
        match outcome {
            ProcessOutcome::Exited { exit_zero: true, .. } => {
                &&& r is Ok
                &&& r.unwrap()@ == convert_summary(file_path@, semitones as int, output_path@)
            },
            ProcessOutcome::Exited { exit_zero: false, stdout, stderr } => r == Err::<
                String,
                EngineError,
            >(EngineError::NonZeroExit(stderr)),
            ProcessOutcome::SpawnFailed(m) => r == Err::<String, EngineError>(
                EngineError::SpawnFailed(m),
            ),
            ProcessOutcome::TimedOut => r == Err::<String, EngineError>(EngineError::Timeout),
        },
{
    match outcome {
        ProcessOutcome::Exited { exit_zero, stdout, stderr } => {
            if exit_zero {
                let mut m = String::from_str("Successfully processed ");
                let name = file_display_name(file_path);
                m.append(name.as_str());
                m.append(" (");
                let d = shift_description(semitones);
                m.append(d.as_str());
                m.append(") to ");
                m.append(output_path);
                proof {
                    assert(m@ =~= convert_summary(file_path@, semitones as int, output_path@));
                }
                Ok(m)
            } else {
                Err(EngineError::NonZeroExit(stderr))
            }
        },
        ProcessOutcome::SpawnFailed(m) => Err(EngineError::SpawnFailed(m)),
        ProcessOutcome::TimedOut => Err(EngineError::Timeout),
    }
}

} // verus!
