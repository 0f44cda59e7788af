//! An engine with a pool of workers that are kept running. A worker is a
//! `servoshell` process with a WebDriver session. Here is what workers and pool
//! decide; processes, HTTP and time are left to the caller, step by step.

use vstd::prelude::*;

use crate::crypto;
use crate::error;
use crate::error::ApiError;
use crate::error::ApiErrorView;
use crate::target;
use crate::target::Url;
use crate::text;

verus! {

// --- Starting a worker ------------------------------------------------------

/// What every worker of a pool is started with.
#[derive(Debug)]
pub struct WorkerConfig {
    /// The `servoshell` program.
    pub bin: String,
    /// The width of the window at the start.
    pub width: u32,
    /// The height of the window at the start.
    pub height: u32,
    /// How long a worker may take to get ready, in milliseconds.
    pub ready_timeout_millis: u64,
}

/// The argument that gives a window its size.
pub open spec fn size_arg(width: u32, height: u32) -> Seq<char> {
    "--window-size="@ + text::decimal_text(width as nat) + "x"@ + text::decimal_text(height as nat)
}

/// The arguments of a worker: without a display, with a WebDriver server on this
/// port, and an empty page.
pub open spec fn worker_args(width: u32, height: u32, port: u16) -> Seq<Seq<char>> {
    seq![
        "-z"@,
        "--webdriver="@ + text::decimal_text(port as nat),
        size_arg(width, height),
        "about:blank"@,
    ]
}

/// The argument that gives a window its size.
pub fn window_size(width: u32, height: u32) -> (r: String)
    ensures
        r@ == size_arg(width, height),
{
    let w = text::decimal(width as u64);
    let h = text::decimal(height as u64);
    text::cat4("--window-size=", &w, "x", &h)
}

/// The error of a program that could not be started.
pub open spec fn spawn_error(bin: Seq<char>, e: Seq<char>) -> ApiErrorView {
    ApiErrorView::Internal("spawn "@ + bin + ": "@ + e)
}

/// The error of a program that could not be started.
pub fn spawn_failed(bin: &str, e: &str) -> (r: ApiError)
    ensures
        r@ == spawn_error(bin@, e@),
{
    ApiError::Internal(text::cat4("spawn ", bin, ": ", e))
}

/// How long to wait between two questions whether a worker is ready.
pub const READY_PAUSE_MILLIS: u64 = 200;

/// What follows the question whether a worker is ready.
#[derive(Debug)]
pub enum Ready {
    /// It is ready.
    Ready,
    /// Ask again after [`READY_PAUSE_MILLIS`].
    Wait,
    /// It took too long.
    Failed(ApiError),
}

/// A worker: where its WebDriver server is, and how large its window is.
#[derive(Debug)]
pub struct Worker {
    /// The port of its WebDriver server.
    pub port: u16,
    /// The URL of its WebDriver server.
    pub base: String,
    /// The id of its session.
    pub session: String,
    /// The width of its window.
    pub cur_w: u32,
    /// The height of its window.
    pub cur_h: u32,
}

/// The URL of the WebDriver server on a port.
pub open spec fn base_url(port: u16) -> Seq<char> {
    "http://127.0.0.1:"@ + text::decimal_text(port as nat)
}

impl WorkerConfig {
    /// The arguments of a worker on a port.
    pub fn args(&self, port: u16) -> (r: Vec<String>)
        ensures
            text::texts(r@) == worker_args(self.width, self.height, port),
    {
        let mut args: Vec<String> = Vec::new();
        let p = text::decimal(port as u64);
        args.push(text::owned("-z"));
        args.push(text::cat2("--webdriver=", &p));
        args.push(window_size(self.width, self.height));
        args.push(text::owned("about:blank"));
        assert(text::texts(args@) =~= worker_args(self.width, self.height, port));
        args
    }
}

impl Worker {
    /// A worker that was just started on a port, without a session.
    pub fn spawn(config: &WorkerConfig, port: u16) -> (r: Worker)
        ensures
            r.port == port,
            r.base@ == base_url(port),
            r.session@ == ""@,
            r.cur_w == config.width,
            r.cur_h == config.height,
    {
        let p = text::decimal(port as u64);
        Worker {
            port,
            base: text::cat2("http://127.0.0.1:", &p),
            session: text::owned(""),
            cur_w: config.width,
            cur_h: config.height,
        }
    }

    /// What follows the question whether the worker is ready. `late` tells whether
    /// its time is over.
    pub fn wait_ready(&self, ready: bool, late: bool) -> (r: Ready)
        ensures
            match r {
                Ready::Ready => ready,
                Ready::Wait => !ready && !late,
                Ready::Failed(e) => !ready && late && e@ == ApiErrorView::Internal(
                    "webdriver on :"@ + text::decimal_text(self.port as nat)
                        + " not ready in time"@,
                ),
            },
    {
        if ready {
            Ready::Ready
        } else if late {
            let p = text::decimal(self.port as u64);
            Ready::Failed(
                ApiError::Internal(text::cat3("webdriver on :", &p, " not ready in time")),
            )
        } else {
            Ready::Wait
        }
    }

    /// Where to ask whether the worker is ready.
    pub fn status_url(&self) -> (r: String)
        ensures
            r@ == self.base@ + "/status"@,
    {
        text::cat2(&self.base, "/status")
    }

    /// Where a session is made.
    pub fn session_url(&self) -> (r: String)
        ensures
            r@ == self.base@ + "/session"@,
    {
        text::cat2(&self.base, "/session")
    }

    /// Note the session that was made, or that none could be.
    pub fn session_created(&mut self, session: Result<String, String>) -> (r: Result<(), ApiError>)
        ensures
            match session {
                Ok(id) => r is Ok && *final(self) == (Worker { session: id, ..*old(self) }),
                Err(e) => r is Err && r->Err_0@ == ApiErrorView::Internal(e@) && *final(self)
                    == *old(self),
            },
    {
        match session {
            Ok(id) => {
                self.session = id;
                Ok(())
            },
            Err(e) => Err(ApiError::Internal(e)),
        }
    }
}

// --- A shot -----------------------------------------------------------------

/// How often a screenshot is tried. While the page is being painted it fails.
pub const SCREENSHOT_ATTEMPTS: u32 = 6;

/// How long a new window size may take, in seconds.
pub const RESIZE_TIMEOUT_SECS: u64 = 5;

/// What a shot does next.
#[derive(Debug)]
pub enum Shot {
    /// Give the window another size.
    Resize,
    /// Go to the page.
    Navigate,
    /// Wait before the screenshot is tried again. The attempts count from zero.
    Wait { attempt: u32 },
    /// Try the screenshot.
    Capture { attempt: u32 },
    /// Nothing: this is the result.
    Done { result: Result<Vec<u8>, ApiError> },
}

/// A [`Shot`] over sequences.
pub enum ShotView {
    Resize,
    Navigate,
    Wait { attempt: u32 },
    Capture { attempt: u32 },
    Done { result: Result<Seq<u8>, ApiErrorView> },
}

impl View for Shot {
    type V = ShotView;

    open spec fn view(&self) -> ShotView {
        match self {
            Shot::Resize => ShotView::Resize,
            Shot::Navigate => ShotView::Navigate,
            Shot::Wait { attempt } => ShotView::Wait { attempt: *attempt },
            Shot::Capture { attempt } => ShotView::Capture { attempt: *attempt },
            Shot::Done { result } => ShotView::Done { result: error::bytes_view(*result) },
        }
    }
}

/// What came of a step.
#[derive(Debug)]
pub enum Reply {
    /// There was no answer, for this reason.
    Failed { timed_out: bool, message: String },
    /// The answer has this status, and is no success.
    Refused { status: String },
    /// The answer is a success. Of a screenshot, this is the image in base64, or
    /// why the answer could not be read.
    Accepted { image: Result<String, String> },
}

/// A [`Reply`] over sequences.
pub enum ReplyView {
    Failed { timed_out: bool, message: Seq<char> },
    Refused { status: Seq<char> },
    Accepted { image: Result<Seq<char>, Seq<char>> },
}

/// The view of a text or a message.
pub open spec fn text_view(r: Result<String, String>) -> Result<Seq<char>, Seq<char>> {
    match r {
        Ok(t) => Ok(t@),
        Err(e) => Err(e@),
    }
}

/// The view of a byte string or a message.
pub open spec fn decoded_view(r: Result<Vec<u8>, String>) -> Result<Seq<u8>, Seq<char>> {
    match r {
        Ok(b) => Ok(b@),
        Err(e) => Err(e@),
    }
}

impl View for Reply {
    type V = ReplyView;

    open spec fn view(&self) -> ReplyView {
        match self {
            Reply::Failed { timed_out, message } => ReplyView::Failed {
                timed_out: *timed_out,
                message: message@,
            },
            Reply::Refused { status } => ReplyView::Refused { status: status@ },
            Reply::Accepted { image } => ReplyView::Accepted { image: text_view(*image) },
        }
    }
}

/// The error of a request without an answer.
pub open spec fn request_error(timed_out: bool, message: Seq<char>) -> ApiErrorView {
    if timed_out {
        ApiErrorView::Timeout
    } else {
        ApiErrorView::Render(message)
    }
}

/// The error of a request without an answer.
pub fn map_reqwest_err(timed_out: bool, message: String) -> (r: ApiError)
    ensures
        r@ == request_error(timed_out, message@),
{
    if timed_out {
        ApiError::Timeout
    } else {
        ApiError::Render(message)
    }
}

/// What follows an attempt that failed: the next one, or this error if it was the
/// last.
pub open spec fn retried(attempt: u32, e: ApiErrorView) -> ShotView {
    if attempt + 1 < SCREENSHOT_ATTEMPTS {
        ShotView::Wait { attempt: (attempt + 1) as u32 }
    } else {
        ShotView::Done { result: Err(e) }
    }
}

/// What follows a screenshot whose base64 was decoded to `decoded`.
pub open spec fn captured(attempt: u32, decoded: Result<Seq<u8>, Seq<char>>) -> ShotView {
    match decoded {
        Err(e) => ShotView::Done {
            result: Err(ApiErrorView::Render("decode screenshot: "@ + e)),
        },
        Ok(bytes) => if bytes.len() == 0 {
            retried(attempt, ApiErrorView::Render("empty screenshot"@))
        } else {
            ShotView::Done { result: Ok(bytes) }
        },
    }
}

/// What follows a step. A window that keeps its size is no obstacle. An answer
/// that cannot be read or decoded ends the shot; any other failure of a
/// screenshot has it tried again.
pub open spec fn after(step: ShotView, reply: ReplyView) -> ShotView {
    match step {
        ShotView::Resize => ShotView::Navigate,
        ShotView::Navigate => match reply {
            ReplyView::Failed { timed_out, message } => ShotView::Done {
                result: Err(request_error(timed_out, message)),
            },
            ReplyView::Refused { status } => ShotView::Done {
                result: Err(ApiErrorView::Render("navigate failed: HTTP "@ + status)),
            },
            ReplyView::Accepted { .. } => ShotView::Capture { attempt: 0 },
        },
        ShotView::Wait { attempt } => ShotView::Capture { attempt },
        ShotView::Capture { attempt } => match reply {
            ReplyView::Failed { timed_out, message } => retried(
                attempt,
                request_error(timed_out, message),
            ),
            ReplyView::Refused { status } => retried(
                attempt,
                ApiErrorView::Render("screenshot failed: HTTP "@ + status),
            ),
            ReplyView::Accepted { image: Err(e) } => ShotView::Done {
                result: Err(ApiErrorView::Render(e)),
            },
            ReplyView::Accepted { image: Ok(image) } => captured(
                attempt,
                crypto::base64_decode(text::utf8(image)),
            ),
        },
        ShotView::Done { result } => ShotView::Done { result },
    }
}

fn retry(attempt: u32, e: ApiError) -> (r: Shot)
    requires
        attempt < SCREENSHOT_ATTEMPTS,
    ensures
        r@ == retried(attempt, e@),
{
    if attempt + 1 < SCREENSHOT_ATTEMPTS {
        Shot::Wait { attempt: attempt + 1 }
    } else {
        Shot::Done { result: Err(e) }
    }
}

/// What follows a screenshot whose base64 was decoded to `decoded`.
pub fn screenshot_decoded(attempt: u32, decoded: Result<Vec<u8>, String>) -> (r: Shot)
    requires
        attempt < SCREENSHOT_ATTEMPTS,
    ensures
        r@ == captured(attempt, decoded_view(decoded)),
{
    match decoded {
        Err(e) => Shot::Done {
            result: Err(ApiError::Render(text::cat2("decode screenshot: ", &e))),
        },
        Ok(bytes) => if bytes.len() == 0 {
            retry(attempt, ApiError::Render(text::owned("empty screenshot")))
        } else {
            Shot::Done { result: Ok(bytes) }
        },
    }
}

/// A request to a worker's WebDriver server.
#[derive(Debug)]
pub enum Request {
    /// Post the size of the window.
    Rect { url: String, width: u32, height: u32, timeout_secs: u64 },
    /// Post the page to go to.
    Page { url: String, page: String, timeout_secs: u64 },
    /// Get a screenshot.
    Screenshot { url: String, timeout_secs: u64 },
    /// None: wait for this many milliseconds.
    Pause { millis: u64 },
    /// None: the shot is over.
    Nothing,
}

/// A [`Request`] over sequences.
pub enum RequestView {
    Rect { url: Seq<char>, width: u32, height: u32, timeout_secs: u64 },
    Page { url: Seq<char>, page: Seq<char>, timeout_secs: u64 },
    Screenshot { url: Seq<char>, timeout_secs: u64 },
    Pause { millis: u64 },
    Nothing,
}

impl View for Request {
    type V = RequestView;

    open spec fn view(&self) -> RequestView {
        match self {
            Request::Rect { url, width, height, timeout_secs } => RequestView::Rect {
                url: url@,
                width: *width,
                height: *height,
                timeout_secs: *timeout_secs,
            },
            Request::Page { url, page, timeout_secs } => RequestView::Page {
                url: url@,
                page: page@,
                timeout_secs: *timeout_secs,
            },
            Request::Screenshot { url, timeout_secs } => RequestView::Screenshot {
                url: url@,
                timeout_secs: *timeout_secs,
            },
            Request::Pause { millis } => RequestView::Pause { millis: *millis },
            Request::Nothing => RequestView::Nothing,
        }
    }
}

/// The URL of a worker's session.
pub open spec fn session_base(w: Worker) -> Seq<char> {
    w.base@ + "/session/"@ + w.session@
}

/// What a step asks of a worker. The pause before an attempt grows with it.
pub open spec fn requested(
    w: Worker,
    step: ShotView,
    page: Seq<char>,
    width: u32,
    height: u32,
    timeout_secs: u64,
) -> RequestView {
    match step {
        ShotView::Resize => RequestView::Rect {
            url: session_base(w) + "/window/rect"@,
            width,
            height,
            timeout_secs: RESIZE_TIMEOUT_SECS,
        },
        ShotView::Navigate => RequestView::Page {
            url: session_base(w) + "/url"@,
            page,
            timeout_secs,
        },
        ShotView::Wait { attempt } => RequestView::Pause { millis: (500 * attempt) as u64 },
        ShotView::Capture { .. } => RequestView::Screenshot {
            url: session_base(w) + "/screenshot"@,
            timeout_secs,
        },
        ShotView::Done { .. } => RequestView::Nothing,
    }
}

/// Whether the attempt of a step is one that there is.
pub open spec fn counted(step: ShotView) -> bool {
    match step {
        ShotView::Wait { attempt } => 0 < attempt < SCREENSHOT_ATTEMPTS,
        ShotView::Capture { attempt } => attempt < SCREENSHOT_ATTEMPTS,
        _ => true,
    }
}

/// The first step of a shot with this size.
pub open spec fn first_step(w: Worker, width: u32, height: u32) -> ShotView {
    if width == w.cur_w && height == w.cur_h {
        ShotView::Navigate
    } else {
        ShotView::Resize
    }
}

/// The size of a worker's window after a step.
pub open spec fn sized(w: Worker, step: ShotView, reply: ReplyView, width: u32, height: u32) -> (
    u32,
    u32,
) {
    if step is Resize && reply is Accepted {
        (width, height)
    } else {
        (w.cur_w, w.cur_h)
    }
}

impl Worker {
    /// The first step of a shot with this size. A window that has the size already
    /// is left alone, as giving it a size makes a heavy page reflow.
    pub fn shot(&self, width: u32, height: u32) -> (r: Shot)
        ensures
            r@ == first_step(*self, width, height),
    {
        if width != self.cur_w || height != self.cur_h {
            Shot::Resize
        } else {
            Shot::Navigate
        }
    }

    /// What a step of a shot asks of the worker.
    pub fn request(
        &self,
        step: &Shot,
        page: &Url,
        width: u32,
        height: u32,
        timeout_secs: u64,
    ) -> (r: Request)
        requires
            counted(step@),
        ensures
            r@ == requested(*self, step@, page@.href, width, height, timeout_secs),
    {
        match step {
            Shot::Resize => Request::Rect {
                url: text::cat4(&self.base, "/session/", &self.session, "/window/rect"),
                width,
                height,
                timeout_secs: RESIZE_TIMEOUT_SECS,
            },
            Shot::Navigate => Request::Page {
                url: text::cat4(&self.base, "/session/", &self.session, "/url"),
                page: page.href.clone(),
                timeout_secs,
            },
            Shot::Wait { attempt } => Request::Pause { millis: 500 * (*attempt as u64) },
            Shot::Capture { .. } => Request::Screenshot {
                url: text::cat4(&self.base, "/session/", &self.session, "/screenshot"),
                timeout_secs,
            },
            Shot::Done { .. } => Request::Nothing,
        }
    }

    /// What follows a step of a shot. The worker notes a new size of its window.
    pub fn next(&mut self, step: Shot, reply: Reply, width: u32, height: u32) -> (r: Shot)
        requires
            counted(step@),
        ensures
            r@ == after(step@, reply@),
            counted(r@),
            ({
                let size = sized(*old(self), step@, reply@, width, height);
                *final(self) == (Worker { cur_w: size.0, cur_h: size.1, ..*old(self) })
            }),
    {
        match step {
            Shot::Resize => {
                if let Reply::Accepted { .. } = reply {
                    self.cur_w = width;
                    self.cur_h = height;
                }
                Shot::Navigate
            },
            Shot::Navigate => match reply {
                Reply::Failed { timed_out, message } => Shot::Done {
                    result: Err(map_reqwest_err(timed_out, message)),
                },
                Reply::Refused { status } => Shot::Done {
                    result: Err(
                        ApiError::Render(text::cat2("navigate failed: HTTP ", &status)),
                    ),
                },
                Reply::Accepted { .. } => Shot::Capture { attempt: 0 },
            },
            Shot::Wait { attempt } => Shot::Capture { attempt },
            Shot::Capture { attempt } => match reply {
                Reply::Failed { timed_out, message } => retry(
                    attempt,
                    map_reqwest_err(timed_out, message),
                ),
                Reply::Refused { status } => retry(
                    attempt,
                    ApiError::Render(text::cat2("screenshot failed: HTTP ", &status)),
                ),
                Reply::Accepted { image: Err(e) } => Shot::Done { result: Err(ApiError::Render(e)) },
                Reply::Accepted { image: Ok(image) } => {
                    let decoded = crypto::decode_base64(image.as_str().as_bytes());
                    screenshot_decoded(attempt, decoded)
                },
            },
            Shot::Done { result } => Shot::Done { result },
        }
    }
}

/// How many steps a shot can still take.
pub open spec fn steps_left(step: ShotView) -> int {
    match step {
        ShotView::Resize => 2 * SCREENSHOT_ATTEMPTS + 2,
        ShotView::Navigate => 2 * SCREENSHOT_ATTEMPTS + 1,
        ShotView::Capture { attempt } => 2 * (SCREENSHOT_ATTEMPTS - attempt) - 1,
        ShotView::Wait { attempt } => 2 * (SCREENSHOT_ATTEMPTS - attempt),
        ShotView::Done { .. } => 0,
    }
}

/// Every step brings a shot nearer to its end, whatever comes of it, so that a
/// screenshot is tried no more than [`SCREENSHOT_ATTEMPTS`] times.
pub proof fn law_shot_comes_to_an_end(step: ShotView, reply: ReplyView)
    requires
        counted(step),
        step !is Done,
    ensures
        counted(after(step, reply)),
        0 <= steps_left(after(step, reply)) < steps_left(step),
{
}

/// A shot never succeeds with an empty image, and its image is the one that the
/// worker sent.
pub proof fn law_shot_is_the_image(step: ShotView, reply: ReplyView)
    requires
        step !is Done,
        after(step, reply) matches ShotView::Done { result: Ok(bytes) },
    ensures
        ({
            let bytes = after(step, reply)->result->Ok_0;
            &&& bytes.len() > 0
            &&& step is Capture
            &&& reply matches ReplyView::Accepted { image: Ok(image) }
            &&& crypto::base64_decode(text::utf8(reply->image->Ok_0)) == Ok::<
                Seq<u8>,
                Seq<char>,
            >(bytes)
        }),
{
}

/// Once a worker's window has got a size, another shot of that size goes to its
/// page at once.
pub proof fn law_size_is_set_once(w: Worker, reply: ReplyView, width: u32, height: u32)
    requires
        reply is Accepted,
    ensures
        ({
            let size = sized(w, ShotView::Resize, reply, width, height);
            first_step(Worker { cur_w: size.0, cur_h: size.1, ..w }, width, height) is Navigate
        }),
{
}

// --- The pool ---------------------------------------------------------------

/// The ports of the workers of a pool: one after another from the first. The
/// pool has room for at least one worker.
pub fn ports(base_port: u16, size: usize) -> (r: Vec<u16>)
    requires
        0 < size,
        base_port + size <= 0x1_0000,
    ensures
        r@ == Seq::new(size as nat, |i: int| (base_port + i) as u16),
{
    let mut r: Vec<u16> = Vec::new();
    let mut i: usize = 0;
    while i < size
        invariant
            i <= size,
            base_port + size <= 0x1_0000,
            r@ == Seq::new(i as nat, |k: int| (base_port + k) as u16),
        decreases size - i,
    {
        r.push(base_port + i as u16);
        i = i + 1;
        assert(r@ =~= Seq::new(i as nat, |k: int| (base_port + k) as u16));
    }
    r
}

/// No two workers of a pool share a port.
pub proof fn law_ports_differ(base_port: u16, size: nat, i: int, j: int)
    requires
        base_port + size <= 0x1_0000,
        0 <= i < j < size,
    ensures
        ({
            let all = Seq::new(size, |k: int| (base_port + k) as u16);
            all[i] != all[j]
        }),
{
}

/// What is said of a page that is neither `http` nor `https`.
pub open spec fn web_only() -> Seq<char> {
    "only http(s) urls are allowed"@
}

/// The page to render, if it is one that may be rendered. This is known before a
/// worker is taken, so that a bad request costs none.
pub fn page(url: &str) -> (r: Result<Url, ApiError>)
    ensures
        target::page_view(r) == target::page_of(target::url_parse(url@), web_only()),
{
    target::page(Url::parse(url), "only http(s) urls are allowed")
}

/// What came of waiting for a worker.
#[derive(Debug)]
pub enum Checkout<W> {
    /// A worker is there.
    Got(W),
    /// The pool has been closed.
    Closed,
    /// None became free in time.
    TimedOut,
}

/// The worker that a shot is taken with, if there is one.
pub fn checked_out<W>(c: Checkout<W>) -> (r: Result<W, ApiError>)
    ensures
        match c {
            Checkout::Got(w) => r is Ok && r->Ok_0 == w,
            Checkout::Closed => r is Err && r->Err_0@ == ApiErrorView::Internal(
                "worker pool closed"@,
            ),
            Checkout::TimedOut => r is Err && r->Err_0@ == ApiErrorView::Internal(
                "no warm worker available (pool busy)"@,
            ),
        },
{
    match c {
        Checkout::Got(w) => Ok(w),
        Checkout::Closed => Err(ApiError::Internal(text::owned("worker pool closed"))),
        Checkout::TimedOut => Err(
            ApiError::Internal(text::owned("no warm worker available (pool busy)")),
        ),
    }
}

/// What is done with a worker that was taken out of the pool.
#[derive(Debug, Clone, Copy, PartialEq, Eq, Structural)]
pub enum Slot {
    /// Put it back.
    Return,
    /// Kill the process and reap it, which frees its port.
    Shutdown,
    /// Wait for [`RECYCLE_PAUSE_MILLIS`], for the port to be released, or before the
    /// next start.
    Pause,
    /// Start a worker on its port.
    Spawn,
    /// Put the new worker in its place.
    Replace,
    /// Nothing: the worker is back, or another one in its place.
    Filled,
}

/// How long the port of a worker is given to be released, in milliseconds.
pub const RECYCLE_PAUSE_MILLIS: u64 = 300;

/// How a shot ended.
#[derive(Debug, Clone, Copy, PartialEq, Eq, Structural)]
pub enum ShotEnd {
    /// It gave an image.
    Succeeded,
    /// It failed; the worker may be in any state.
    Failed,
    /// Nobody waits for it any more.
    Abandoned,
}

/// What is done with a worker after a shot. Only a worker whose shot succeeded is
/// used again.
pub open spec fn settled(end: ShotEnd) -> Slot {
    match end {
        ShotEnd::Succeeded => Slot::Return,
        ShotEnd::Failed => Slot::Shutdown,
        ShotEnd::Abandoned => Slot::Shutdown,
    }
}

/// What follows. `started` tells whether a worker could be started; where it could
/// not, that is tried again, so that the slot is not lost.
pub open spec fn slot_after(slot: Slot, started: bool) -> Slot {
    match slot {
        Slot::Return => Slot::Filled,
        Slot::Shutdown => Slot::Pause,
        Slot::Pause => Slot::Spawn,
        Slot::Spawn => if started {
            Slot::Replace
        } else {
            Slot::Pause
        },
        Slot::Replace => Slot::Filled,
        Slot::Filled => Slot::Filled,
    }
}

impl Slot {
    /// What is done with a worker after a shot.
    pub fn settle(end: ShotEnd) -> (r: Slot)
        ensures
            r == settled(end),
    {
        match end {
            ShotEnd::Succeeded => Slot::Return,
            ShotEnd::Failed => Slot::Shutdown,
            ShotEnd::Abandoned => Slot::Shutdown,
        }
    }

    /// What follows. `started` tells whether a worker could be started.
    pub fn next(self, started: bool) -> (r: Slot)
        ensures
            r == slot_after(self, started),
    {
        match self {
            Slot::Return => Slot::Filled,
            Slot::Shutdown => Slot::Pause,
            Slot::Pause => Slot::Spawn,
            Slot::Spawn => if started {
                Slot::Replace
            } else {
                Slot::Pause
            },
            Slot::Replace => Slot::Filled,
            Slot::Filled => Slot::Filled,
        }
    }
}

/// The slot after more steps, where `started` tells of each whether a worker could
/// be started then.
pub open spec fn slot_after_steps(slot: Slot, started: Seq<bool>) -> Slot
    decreases started.len(),
{
    if started.len() == 0 {
        slot
    } else {
        slot_after(slot_after_steps(slot, started.drop_last()), started.last())
    }
}

proof fn lemma_steps_in_two(slot: Slot, started: Seq<bool>, n: int)
    requires
        0 <= n <= started.len(),
    ensures
        slot_after_steps(slot, started) == slot_after_steps(
            slot_after_steps(slot, started.take(n)),
            started.skip(n),
        ),
    decreases started.len(),
{
    if n < started.len() {
        let before = started.drop_last();
        lemma_steps_in_two(slot, before, n);
        assert(before.take(n) =~= started.take(n));
        assert(before.skip(n) =~= started.skip(n).drop_last());
    } else {
        assert(started.take(n) =~= started);
        assert(started.skip(n) =~= seq![]);
    }
}

proof fn lemma_filled_stays(started: Seq<bool>)
    ensures
        slot_after_steps(Slot::Filled, started) == Slot::Filled,
    decreases started.len(),
{
    if started.len() > 0 {
        lemma_filled_stays(started.drop_last());
    }
}

/// The pool does not leak a slot: however a shot ended and however many starts
/// failed before, the slot is filled once a worker could be started.
pub proof fn law_slot_is_filled_once_started(end: ShotEnd, started: Seq<bool>, n: int)
    requires
        0 <= n,
        n + 2 <= started.len(),
        slot_after_steps(settled(end), started.take(n)) == Slot::Spawn,
        started[n],
    ensures
        slot_after_steps(settled(end), started) == Slot::Filled,
{
    let first = settled(end);
    lemma_steps_in_two(first, started, n + 2);
    let upto = started.take(n + 2);
    assert(upto.drop_last() =~= started.take(n + 1));
    assert(started.take(n + 1).drop_last() =~= started.take(n));
    assert(slot_after_steps(first, started.take(n + 1)) == Slot::Replace);
    assert(slot_after_steps(first, upto) == Slot::Filled);
    lemma_filled_stays(started.skip(n + 2));
}

/// A slot that is not filled yet comes to the start of a worker, or is filled, in
/// two more steps at most: a failed start is followed by another one.
pub proof fn law_slot_is_always_tried_again(slot: Slot, started: Seq<bool>)
    requires
        started.len() == 2,
    ensures
        ({
            let one = slot_after_steps(slot, started.take(1));
            let two = slot_after_steps(slot, started);
            ||| slot == Slot::Spawn && (one == Slot::Replace || two == Slot::Spawn)
            ||| one == Slot::Spawn || one == Slot::Filled
            ||| two == Slot::Spawn || two == Slot::Filled
        }),
{
    reveal_with_fuel(slot_after_steps, 3);
    assert(started.drop_last() =~= started.take(1));
    assert(started.take(1).drop_last() =~= seq![]);
}

/// A worker whose shot succeeded is back after one step.
pub proof fn law_healthy_worker_is_returned(started: bool)
    ensures
        settled(ShotEnd::Succeeded) == Slot::Return,
        slot_after(Slot::Return, started) == Slot::Filled,
{
}

/// A worker whose shot did not succeed is never put back itself.
pub proof fn law_failed_worker_is_not_reused(end: ShotEnd, started: Seq<bool>)
    requires
        end != ShotEnd::Succeeded,
    ensures
        slot_after_steps(settled(end), started) != Slot::Return,
    decreases started.len(),
{
    if started.len() > 0 {
        law_failed_worker_is_not_reused(end, started.drop_last());
    }
}

} // verus!
