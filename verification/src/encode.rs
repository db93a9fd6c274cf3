//! The job dispatcher's policy: which external command a file is
//! transcoded with, where its scratch output goes, how a worker's exit
//! status is interpreted, and what happens to an improved file at the
//! end of the run.

use vstd::prelude::*;
use vstd::string::*;

use crate::collect::{ext_of, views};
use crate::collect::path_extension;
use crate::text::{dec_rep, dec_u64, eq_str};

verus! {

/// The run's encoding mode, resolved once at startup.
#[derive(Debug)]
pub enum EncodeMode {
    /// Re-encode video files with the given video and audio codecs.
    Video { video_codec: String, audio_codec: String },
    /// Re-encode still images.
    Image,
}

/// One external transcode invocation: a program and its arguments.
#[derive(Debug)]
pub struct EncodeCommand {
    pub program: String,
    pub args: Vec<String>,
}

/// A file the dispatcher refuses before invoking any encoder.
#[derive(Debug)]
pub enum EncodeError {
    /// The source extension belongs to no supported image format.
    UnsupportedImage { path: String },
}

impl EncodeError {
    /// The message reported for the failure.
    pub fn message(&self) -> (r: String)
        ensures
            (match self {
                EncodeError::UnsupportedImage { path } => r@ == path@
                    + " is not a supported image format"@,
            }),
    {
        match self {
            EncodeError::UnsupportedImage { path } => {
                path.as_str().to_owned().concat(" is not a supported image format")
            },
        }
    }
}

/// Resolves the mode flags into the configuration value the dispatcher
/// runs with.
pub fn resolve_mode(images: bool, video_codec: &str, audio_codec: &str) -> (mode: EncodeMode)
    ensures
        images ==> mode is Image,
        !images ==> (mode matches EncodeMode::Video { video_codec: v, audio_codec: a } && v@
            == video_codec@ && a@ == audio_codec@),
{
    if images {
        EncodeMode::Image
    } else {
        EncodeMode::Video {
            video_codec: video_codec.to_owned(),
            audio_codec: audio_codec.to_owned(),
        }
    }
}

/// Extensions that take the lossless image encode path.
pub open spec fn lossless_image_ext(e: Seq<char>) -> bool {
    e == "png"@
}

/// Extensions that take the lossy image encode path.
pub open spec fn lossy_image_ext(e: Seq<char>) -> bool {
    e == "jpg"@ || e == "jpeg"@
}

/// The image encoder's arguments: a distance of zero selects the
/// lossless path; the input and the scratch output close the list.
pub open spec fn image_args_rep(input: Seq<char>, output: Seq<char>, lossless: bool) -> Seq<
    Seq<char>,
> {
    if lossless {
        seq!["-d"@, "0"@, input, output]
    } else {
        seq![input, output]
    }
}

/// The general transcoder's arguments: input, video and audio codec,
/// subtitle streams copied, top-level metadata kept, stale scratch
/// output overwritten, and the scratch output path.
pub open spec fn video_args_rep(
    input: Seq<char>,
    output: Seq<char>,
    video_codec: Seq<char>,
    audio_codec: Seq<char>,
) -> Seq<Seq<char>> {
    seq![
        "-i"@,
        input,
        "-c:v"@,
        video_codec,
        "-c:a"@,
        audio_codec,
        "-c:s"@,
        "copy"@,
        "-map_metadata"@,
        "0"@,
        "-y"@,
        output,
    ]
}

/// Plans the one external transcode command for a file.  In image mode
/// the source extension selects the lossless (`png`) or lossy
/// (`jpg`/`jpeg`) encode path, and any other extension is rejected
/// before an encoder is invoked; in video mode the general transcoder
/// is always invoked.
pub fn plan_encode(mode: &EncodeMode, input: &str, output: &str) -> (r: Result<
    EncodeCommand,
    EncodeError,
>)
    ensures
        (mode is Image && lossless_image_ext(ext_of(input@))) ==> (r matches Ok(c) && c.program@
            == "cjxl"@ && views(c.args@) == image_args_rep(input@, output@, true)),
        (mode is Image && lossy_image_ext(ext_of(input@))) ==> (r matches Ok(c) && c.program@
            == "cjxl"@ && views(c.args@) == image_args_rep(input@, output@, false)),
        (mode is Image && !lossless_image_ext(ext_of(input@)) && !lossy_image_ext(ext_of(input@)))
            ==> (r matches Err(EncodeError::UnsupportedImage { path }) && path@ == input@),
        mode matches EncodeMode::Video { video_codec, audio_codec } ==> (r matches Ok(c)
            && c.program@ == "ffmpeg"@ && views(c.args@) == video_args_rep(
            input@,
            output@,
            video_codec@,
            audio_codec@,
        )),
{
    match mode {
        EncodeMode::Image => {
            proof {
                reveal_strlit("png");
                reveal_strlit("jpg");
                reveal_strlit("jpeg");
            }
            let e = path_extension(input);
            let lossless = if eq_str(e.as_str(), "png") {
                true
            } else if eq_str(e.as_str(), "jpg") || eq_str(e.as_str(), "jpeg") {
                false
            } else {
                return Err(EncodeError::UnsupportedImage { path: input.to_owned() });
            };
            let mut args: Vec<String> = Vec::new();
            if lossless {
                args.push("-d".to_owned());
                args.push("0".to_owned());
            }
            args.push(input.to_owned());
            args.push(output.to_owned());
            proof {
                assert(views(args@) =~= image_args_rep(input@, output@, lossless));
                assert(("png"@)[0] == 'p');
                assert(("jpg"@)[0] == 'j');
                assert(("jpeg"@)[1] == 'p');
                assert("png"@ != "jpg"@);
                assert("png"@ != "jpeg"@);
            }
            Ok(EncodeCommand { program: "cjxl".to_owned(), args })
        },
        EncodeMode::Video { video_codec, audio_codec } => {
            let mut args: Vec<String> = Vec::new();
            args.push("-i".to_owned());
            args.push(input.to_owned());
            args.push("-c:v".to_owned());
            args.push(video_codec.as_str().to_owned());
            args.push("-c:a".to_owned());
            args.push(audio_codec.as_str().to_owned());
            args.push("-c:s".to_owned());
            args.push("copy".to_owned());
            args.push("-map_metadata".to_owned());
            args.push("0".to_owned());
            args.push("-y".to_owned());
            args.push(output.to_owned());
            proof {
                assert(views(args@) =~= video_args_rep(
                    input@,
                    output@,
                    video_codec@,
                    audio_codec@,
                ));
            }
            Ok(EncodeCommand { program: "ffmpeg".to_owned(), args })
        },
    }
}

/// The scratch file name of a task: its ordinal index, a dot, and the
/// source's extension, so that workers write to disjoint paths.
pub fn scratch_name(index: usize, file: &str) -> (r: String)
    ensures
        r@ == dec_rep(index as int) + "."@ + ext_of(file@),
{
    let ext = path_extension(file);
    dec_u64(index as u64).concat(".").concat(ext.as_str())
}

/// The message reported when an external command fails on a file: the
/// file's path and the command's captured error output.
pub open spec fn failure_message_rep(file: Seq<char>, stderr: Seq<char>) -> Seq<char> {
    file + "\n"@ + stderr + "\n"@
}

/// Interprets an external command's result at the worker boundary: a
/// clean exit is a success, and any other exit becomes a per-file
/// failure carrying the captured error output — never a fatal one.
pub fn interpret_encode(success: bool, file: &str, stderr: &str) -> (r: Result<(), String>)
    ensures
        success ==> r is Ok,
        !success ==> (r matches Err(m) && m@ == failure_message_rep(file@, stderr@)),
{
    if success {
        Ok(())
    } else {
        Err(file.to_owned().concat("\n").concat(stderr).concat("\n"))
    }
}

/// What the finalizer does with an improved file.
#[derive(Debug)]
pub enum ReplacePlan {
    /// Dry run: the original is left untouched.
    Skip,
    /// Move the scratch output to `dest`; in image mode the original
    /// keeps its own extension, so it is removed separately.
    Move { dest: String, remove_original: bool },
}

/// Plans the replacement of an improved file: nothing on a dry run;
/// otherwise the scratch output replaces the original in place, except
/// that image mode writes a distinct `.jxl` target and deletes the
/// original.
pub fn replace_plan(images: bool, dry_run: bool, file: &str) -> (r: ReplacePlan)
    ensures
        dry_run ==> r is Skip,
        (!dry_run && images) ==> (r matches ReplacePlan::Move { dest, remove_original } && dest@
            == file@ + ".jxl"@ && remove_original),
        (!dry_run && !images) ==> (r matches ReplacePlan::Move { dest, remove_original } && dest@
            == file@ && !remove_original),
{
    if dry_run {
        ReplacePlan::Skip
    } else if images {
        ReplacePlan::Move { dest: file.to_owned().concat(".jxl"), remove_original: true }
    } else {
        ReplacePlan::Move { dest: file.to_owned(), remove_original: false }
    }
}

/// Worker count handed to the thread-pool builder: an explicit request
/// wins; otherwise image mode runs sequentially and video mode uses all
/// available parallelism (`0` means "auto" to the pool builder).
pub fn worker_count(threads: usize, images: bool) -> (n: usize)
    ensures
        threads != 0 ==> n == threads,
        threads == 0 && images ==> n == 1,
        threads == 0 && !images ==> n == 0,
{
    if threads != 0 {
        threads
    } else if images {
        1
    } else {
        0
    }
}

} // verus!
