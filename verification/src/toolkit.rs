//! The command lines of the video toolkit: what is handed to its probe and to
//! the toolkit itself for each of the steps that it runs.

use crate::rate::{decimal_text, Decimal, FrameRate};
use crate::text::texts;
use vstd::prelude::*;
use vstd::string::*;

verus! {

/// The toolkit's probe.
pub const PROBE_PROGRAM: &'static str = "ffprobe";

/// The toolkit.
pub const TOOLKIT_PROGRAM: &'static str = "ffmpeg";

/// The working directory of the frames extracted from the source.
pub const SOURCE_FRAMES_DIR: &'static str = "original_frames";

/// The working directory of the interpolated frames.
pub const OUTPUT_FRAMES_DIR: &'static str = "out_frames";

/// The probe's arguments: the video to probe.
pub open spec fn probe_args_of(input: Seq<char>) -> Seq<Seq<char>> {
    seq![input]
}

/// The arguments of a counting run: the first video stream is copied to
/// nowhere, and the toolkit reports the frames it passed.
pub open spec fn count_args_of(input: Seq<char>) -> Seq<Seq<char>> {
    seq!["-i"@, input, "-map"@, "0:v:0"@, "-c"@, "copy"@, "-f"@, "null"@, "tmp"@]
}

/// The arguments of the extraction: each frame of the video becomes a
/// numbered image among the source frames.
pub open spec fn extract_args_of(input: Seq<char>) -> Seq<Seq<char>> {
    seq!["-i"@, input, "original_frames/%08d.png"@]
}

/// The arguments of the assembly: the numbered images among the interpolated
/// frames become a video at `rate`, encoded with libx264.
pub open spec fn assemble_args_of(rate: Decimal, output: Seq<char>) -> Seq<Seq<char>> {
    seq![
        "-r"@,
        decimal_text(rate),
        "-i"@,
        "out_frames/%08d.png"@,
        "-c:v"@,
        "libx264"@,
        output,
    ]
}

/// The arguments with which the probe reports on `input`.
pub fn probe_args(input: &str) -> (args: Vec<String>)
    ensures
        texts(args@) == probe_args_of(input@),
{
    let mut args: Vec<String> = Vec::new();
    args.push(input.to_owned());
    assert(texts(args@) =~= probe_args_of(input@));
    args
}

/// The arguments with which the toolkit counts the frames of `input`.
pub fn count_args(input: &str) -> (args: Vec<String>)
    ensures
        texts(args@) == count_args_of(input@),
{
    let mut args: Vec<String> = Vec::new();
    args.push("-i".to_owned());
    args.push(input.to_owned());
    args.push("-map".to_owned());
    args.push("0:v:0".to_owned());
    args.push("-c".to_owned());
    args.push("copy".to_owned());
    args.push("-f".to_owned());
    args.push("null".to_owned());
    args.push("tmp".to_owned());
    assert(texts(args@) =~= count_args_of(input@));
    args
}

/// The arguments with which the toolkit extracts the frames of `input`.
pub fn extract_args(input: &str) -> (args: Vec<String>)
    ensures
        texts(args@) == extract_args_of(input@),
{
    let mut args: Vec<String> = Vec::new();
    args.push("-i".to_owned());
    args.push(input.to_owned());
    args.push("original_frames/%08d.png".to_owned());
    assert(texts(args@) =~= extract_args_of(input@));
    args
}

/// The arguments with which the toolkit assembles the interpolated frames
/// into `output` at `rate`.
pub fn assemble_args(rate: &FrameRate, output: &str) -> (args: Vec<String>)
    ensures
        texts(args@) == assemble_args_of(rate@, output@),
{
    let mut args: Vec<String> = Vec::new();
    args.push("-r".to_owned());
    args.push(rate.to_text());
    args.push("-i".to_owned());
    args.push("out_frames/%08d.png".to_owned());
    args.push("-c:v".to_owned());
    args.push("libx264".to_owned());
    args.push(output.to_owned());
    assert(texts(args@) =~= assemble_args_of(rate@, output@));
    args
}

} // verus!
