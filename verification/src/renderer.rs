//! An engine that starts a `servoshell` process for every shot. Here is what it
//! decides; the process and the image file are left to the caller, step by step.

use vstd::prelude::*;

use crate::crypto;
use crate::engine;
use crate::error;
use crate::error::ApiError;
use crate::error::ApiErrorView;
use crate::target;
use crate::target::Url;
use crate::text;

verus! {

/// An argument of the process.
#[derive(Debug)]
pub enum Arg {
    /// This text.
    Text(String),
    /// The path of the image file.
    Output,
}

/// An [`Arg`] with its text as a character sequence.
pub enum ArgView {
    Text(Seq<char>),
    Output,
}

impl View for Arg {
    type V = ArgView;

    open spec fn view(&self) -> ArgView {
        match self {
            Arg::Text(t) => ArgView::Text(t@),
            Arg::Output => ArgView::Output,
        }
    }
}

/// The views of a list of arguments.
pub open spec fn args_view(args: Seq<Arg>) -> Seq<ArgView> {
    args.map_values(|a: Arg| a@)
}

/// The arguments of the process: without a display, ending once the page is
/// rendered, with the size of the window, the device pixel ratio where one is
/// given, the image file and the page.
pub open spec fn shot_args(
    width: u32,
    height: u32,
    device_pixel_ratio: Option<Seq<char>>,
    page: Seq<char>,
) -> Seq<ArgView> {
    seq![
        ArgView::Text("-z"@),
        ArgView::Text("-x"@),
        ArgView::Text(engine::size_arg(width, height)),
    ] + (match device_pixel_ratio {
        Some(dpr) => seq![ArgView::Text("--device-pixel-ratio="@ + dpr)],
        None => seq![],
    }) + seq![ArgView::Text("-o"@), ArgView::Output, ArgView::Text(page)]
}

/// What a shot does next.
#[derive(Debug)]
pub enum Next {
    /// Wait for the process, until the time for the shot is over.
    Wait,
    /// Read the image file.
    Read,
    /// Remove the image file. That it cannot be removed changes nothing. Then this
    /// is the result.
    Remove { result: Result<Vec<u8>, ApiError> },
    /// Nothing: this is the result.
    Done { result: Result<Vec<u8>, ApiError> },
}

/// A [`Next`] over sequences.
pub enum NextView {
    Wait,
    Read,
    Remove { result: Result<Seq<u8>, ApiErrorView> },
    Done { result: Result<Seq<u8>, ApiErrorView> },
}

impl View for Next {
    type V = NextView;

    open spec fn view(&self) -> NextView {
        match self {
            Next::Wait => NextView::Wait,
            Next::Read => NextView::Read,
            Next::Remove { result } => NextView::Remove { result: error::bytes_view(*result) },
            Next::Done { result } => NextView::Done { result: error::bytes_view(*result) },
        }
    }
}

/// How the process ended.
#[derive(Debug)]
pub enum Waited {
    /// It did not end in time.
    TimedOut,
    /// It could not be waited for.
    Failed(String),
    /// It failed with this status, and wrote this about errors.
    Exited { status: String, stderr: Vec<u8> },
    /// It succeeded.
    Succeeded,
}

/// The error of a process that failed with this status and wrote this about
/// errors: the last line of it tells why.
pub open spec fn exit_error(status: Seq<char>, stderr: Seq<char>) -> ApiErrorView {
    ApiErrorView::Render(
        "servoshell exited "@ + status + ": "@ + text::trimmed(text::last_line(stderr)),
    )
}

/// What follows the end of the process.
pub open spec fn after_wait(waited: Waited) -> NextView {
    match waited {
        Waited::TimedOut => NextView::Remove { result: Err(ApiErrorView::Timeout) },
        Waited::Failed(e) => NextView::Done { result: Err(ApiErrorView::Internal(e@)) },
        Waited::Exited { status, stderr } => NextView::Remove {
            result: Err(exit_error(status@, crypto::utf8_lossy(stderr@))),
        },
        Waited::Succeeded => NextView::Read,
    }
}

/// What follows the reading of the image file.
pub open spec fn after_read(read: Result<Seq<u8>, Seq<char>>) -> NextView {
    match read {
        Err(e) => NextView::Done {
            result: Err(ApiErrorView::Render("read output image: "@ + e)),
        },
        Ok(bytes) => NextView::Remove {
            result: if bytes.len() == 0 {
                Err(ApiErrorView::Render("servoshell produced an empty image"@))
            } else {
                Ok(bytes)
            },
        },
    }
}

/// The error of a process that failed with this status and wrote this about
/// errors.
pub fn exited(status: &str, stderr: &str) -> (r: ApiError)
    ensures
        r@ == exit_error(status@, stderr@),
{
    let line = text::final_line(stderr);
    let tail = text::trim(&line);
    ApiError::Render(text::cat4("servoshell exited ", status, ": ", &tail))
}

/// A fresh name for the image file of a shot.
pub fn output_name() -> (r: String)
    ensures
        exists|id: Seq<char>| #[trigger]
            crypto::random_uuid_text(id) && r@ == "trickshot-"@ + id + ".png"@,
{
    let id = crypto::random_uuid();
    let r = text::cat3("trickshot-", &id, ".png");
    assert(crypto::random_uuid_text(id@));
    r
}

/// The engine.
#[derive(Debug)]
pub struct ServoRenderer {
    /// The `servoshell` program.
    pub bin: String,
}

impl ServoRenderer {
    /// An engine with this program.
    pub fn new(bin: String) -> (r: Self)
        ensures
            r.bin == bin,
    {
        ServoRenderer { bin }
    }

    /// The page to render, if it is one that may be rendered.
    pub fn page(&self, url: &str) -> (r: Result<Url, ApiError>)
        ensures
            target::page_view(r) == target::page_of(target::url_parse(url@), engine::web_only()),
    {
        engine::page(url)
    }

    /// The arguments of the process for a page.
    pub fn args(&self, width: u32, height: u32, device_pixel_ratio: Option<&str>, page: &Url) -> (r:
        Vec<Arg>)
        ensures
            args_view(r@) == shot_args(
                width,
                height,
                text::opt_str(device_pixel_ratio),
                page@.href,
            ),
    {
        let mut args: Vec<Arg> = Vec::new();
        args.push(Arg::Text(text::owned("-z")));
        args.push(Arg::Text(text::owned("-x")));
        args.push(Arg::Text(engine::window_size(width, height)));
        if let Some(dpr) = device_pixel_ratio {
            args.push(Arg::Text(text::cat2("--device-pixel-ratio=", dpr)));
        }
        args.push(Arg::Text(text::owned("-o")));
        args.push(Arg::Output);
        args.push(Arg::Text(page.href.clone()));
        assert(args_view(args@) =~= shot_args(
            width,
            height,
            text::opt_str(device_pixel_ratio),
            page@.href,
        ));
        args
    }

    /// What follows the start of the process.
    pub fn spawned(&self, outcome: Result<(), String>) -> (r: Next)
        ensures
            r@ == (match outcome {
                Ok(_) => NextView::Wait,
                Err(e) => NextView::Done { result: Err(engine::spawn_error(self.bin@, e@)) },
            }),
    {
        match outcome {
            Ok(()) => Next::Wait,
            Err(e) => Next::Done { result: Err(engine::spawn_failed(&self.bin, &e)) },
        }
    }

    /// What follows the end of the process.
    pub fn waited(&self, waited: Waited) -> (r: Next)
        ensures
            r@ == after_wait(waited),
    {
        match waited {
            Waited::TimedOut => Next::Remove { result: Err(ApiError::Timeout) },
            Waited::Failed(e) => Next::Done { result: Err(ApiError::Internal(e)) },
            Waited::Exited { status, stderr } => {
                let said = crypto::lossy_text(&stderr);
                Next::Remove { result: Err(exited(&status, &said)) }
            },
            Waited::Succeeded => Next::Read,
        }
    }

    /// What follows the reading of the image file.
    pub fn read(&self, read: Result<Vec<u8>, String>) -> (r: Next)
        ensures
            r@ == after_read(engine::decoded_view(read)),
    {
        match read {
            Err(e) => Next::Done {
                result: Err(ApiError::Render(text::cat2("read output image: ", &e))),
            },
            Ok(bytes) => if bytes.len() == 0 {
                Next::Remove {
                    result: Err(
                        ApiError::Render(text::owned("servoshell produced an empty image")),
                    ),
                }
            } else {
                Next::Remove { result: Ok(bytes) }
            },
        }
    }
}

/// An image file that was read is removed before the shot ends, and a shot
/// succeeds only with a file that is not empty.
pub proof fn law_image_file_is_removed(read: Result<Seq<u8>, Seq<char>>)
    ensures
        read is Ok ==> after_read(read) is Remove,
        after_read(read) matches NextView::Remove { result: Ok(bytes) } ==> read == Ok::<
            Seq<u8>,
            Seq<char>,
        >(bytes) && bytes.len() > 0,
        !(after_read(read) matches NextView::Done { result: Ok(bytes) }),
{
}

} // verus!
