//! Laws on the engines: what they are started with, what they ask for, and what a shot
//! comes to.

use vstd::prelude::*;

use crate::chrome;
use crate::chrome::OutcomeView;
use crate::chrome::RenderView;
use crate::crypto;
use crate::engine;
use crate::engine::ReplyView;
use crate::engine::RequestView;
use crate::engine::ShotEnd;
use crate::engine::ShotView;
use crate::engine::Slot;
use crate::engine::Worker;
use crate::error::ApiErrorView;
use crate::laws::text as reading;
use crate::renderer;
use crate::renderer::ArgView;
use crate::renderer::NextView;
use crate::renderer::Waited;
use crate::target;
use crate::target::UrlView;
use crate::text;

verus! {

// --- Pages ------------------------------------------------------------------

/// A page may be rendered exactly where it is a URL of the web, and is that URL then.
pub proof fn law_which_pages_are_rendered(url: UrlView, e: Seq<char>, refusal: Seq<char>)
    ensures
        target::page_of(Err(e), refusal) == Err::<UrlView, ApiErrorView>(
            ApiErrorView::BadRequest("invalid url: "@ + e),
        ),
        url.scheme == "http"@ || url.scheme == "https"@ ==> target::page_of(Ok(url), refusal)
            == Ok::<UrlView, ApiErrorView>(url),
        url.scheme != "http"@ && url.scheme != "https"@ ==> target::page_of(Ok(url), refusal)
            == Err::<UrlView, ApiErrorView>(ApiErrorView::BadRequest(refusal)),
{
}

/// Pairs can be appended to a URL unless it would outgrow 32 bits, each byte counted as an
/// escape of three, and each pair with the two signs that join it.
pub proof fn law_room_for_one_more_pair(
    url: UrlView,
    pairs: Seq<(Seq<char>, Seq<char>)>,
    name: Seq<char>,
    value: Seq<char>,
)
    ensures
        target::appendable(Ok(url), seq![]) <==> text::utf8(url.href).len() < 0xffff_ffff,
        target::escaped_size(pairs.push((name, value))) == target::escaped_size(pairs) + 3
            * text::utf8(name).len() + 3 * text::utf8(value).len() + 2,
        target::appendable(Ok(url), pairs) <==> text::utf8(url.href).len() + 1
            + target::escaped_size(pairs) <= 0xffff_ffff,
        forall|e: Seq<char>| #[trigger] target::appendable(Err(e), pairs),
{
    assert(pairs.push((name, value)).drop_last() =~= pairs);
}

// --- Windows and workers ----------------------------------------------------

/// The width is read back before the last cross of the argument that gives a window its
/// size, and the height behind it.
pub proof fn law_window_size_is_read_back(width: u32, height: u32)
    ensures
        ({
            let arg = engine::size_arg(width, height);
            let first = "--window-size="@;
            &&& first.is_prefix_of(arg)
            &&& reading::number_value(reading::behind_last(arg, 'x'), 10) == height
            &&& reading::number_value(
                reading::before_last(arg, 'x').skip(first.len() as int),
                10,
            ) == width
        }),
{
    let arg = engine::size_arg(width, height);
    let first = "--window-size="@;
    let w = text::decimal_text(width as nat);
    let h = text::decimal_text(height as nat);
    reveal_strlit("x");
    reading::law_decimal_is_read_back(width as nat);
    reading::law_decimal_is_read_back(height as nat);
    assert(reading::all_digits(h));
    reading::lemma_digits_hold_no('x', h);
    assert("x"@ =~= seq!['x']);
    assert(arg =~= (first + w) + seq!['x'] + h);
    reading::lemma_behind_last(first + w, 'x', h);
    assert((first + w).skip(first.len() as int) =~= w);
    assert(arg.take(first.len() as int) =~= first);
}

/// Windows of different sizes are asked for differently.
pub proof fn law_window_sizes_differ(w: u32, h: u32, v: u32, g: u32)
    requires
        engine::size_arg(w, h) == engine::size_arg(v, g),
    ensures
        w == v,
        h == g,
{
    law_window_size_is_read_back(w, h);
    law_window_size_is_read_back(v, g);
}

/// A worker is started without a display, on its port, with the size of its window, and
/// on an empty page.
pub proof fn law_arguments_of_a_worker(width: u32, height: u32, port: u16)
    ensures
        ({
            let args = engine::worker_args(width, height, port);
            &&& args.len() == 4
            &&& args[0] == "-z"@
            &&& "--webdriver="@.is_prefix_of(args[1])
            &&& reading::number_value(args[1].skip("--webdriver="@.len() as int), 10) == port
            &&& args[2] == engine::size_arg(width, height)
            &&& args[3] == "about:blank"@
        }),
{
    let first = "--webdriver="@;
    let p = text::decimal_text(port as nat);
    reading::law_decimal_is_read_back(port as nat);
    assert((first + p).take(first.len() as int) =~= first);
    assert((first + p).skip(first.len() as int) =~= p);
}

/// The server of a worker is on this machine, and its port is read back behind the last
/// colon of its URL.
pub proof fn law_port_of_a_worker_is_read_back(port: u16)
    ensures
        reading::number_value(reading::behind_last(engine::base_url(port), ':'), 10) == port,
        reading::before_last(engine::base_url(port), ':') == "http://127.0.0.1"@,
{
    let p = text::decimal_text(port as nat);
    reveal_strlit("http://127.0.0.1:");
    reveal_strlit("http://127.0.0.1");
    reading::law_decimal_is_read_back(port as nat);
    assert(reading::all_digits(p));
    reading::lemma_digits_hold_no(':', p);
    assert(engine::base_url(port) =~= "http://127.0.0.1"@ + seq![':'] + p);
    reading::lemma_behind_last("http://127.0.0.1"@, ':', p);
}

/// A program that could not be started is named with the reason, as an error on the
/// server's side.
pub proof fn law_failed_start_is_named(bin: Seq<char>, e: Seq<char>)
    ensures
        engine::spawn_error(bin, e) == ApiErrorView::Internal("spawn "@ + bin + ": "@ + e),
{
}

// --- Shots of a worker ------------------------------------------------------

/// A window gets another size exactly where the one that is asked for is another; it keeps
/// that size only where it was accepted.
pub proof fn law_when_a_window_is_resized(
    w: Worker,
    step: ShotView,
    reply: ReplyView,
    width: u32,
    height: u32,
)
    ensures
        w.cur_w == width && w.cur_h == height ==> engine::first_step(w, width, height) is Navigate,
        w.cur_w != width || w.cur_h != height ==> engine::first_step(w, width, height) is Resize,
        step is Resize && reply is Accepted ==> engine::sized(w, step, reply, width, height) == (
            width,
            height,
        ),
        step !is Resize || reply !is Accepted ==> engine::sized(w, step, reply, width, height) == (
            w.cur_w,
            w.cur_h,
        ),
{
}

/// Each step of a shot asks the session of its worker for one thing: for the size, the page
/// or the image that the shot is about, within its time. Before an attempt, half a second
/// more is waited than before the one before it.
pub proof fn law_what_a_step_asks_for(
    w: Worker,
    attempt: u32,
    result: Result<Seq<u8>, ApiErrorView>,
    page: Seq<char>,
    width: u32,
    height: u32,
    timeout_secs: u64,
)
    requires
        attempt < 6,
    ensures
        ({
            let at = w.base@ + "/session/"@ + w.session@;
            &&& engine::requested(w, ShotView::Resize, page, width, height, timeout_secs) == (
            RequestView::Rect { url: at + "/window/rect"@, width, height, timeout_secs: 5 })
            &&& engine::requested(w, ShotView::Navigate, page, width, height, timeout_secs) == (
            RequestView::Page { url: at + "/url"@, page, timeout_secs })
            &&& engine::requested(
                w,
                ShotView::Capture { attempt },
                page,
                width,
                height,
                timeout_secs,
            ) == (RequestView::Screenshot { url: at + "/screenshot"@, timeout_secs })
            &&& engine::requested(
                w,
                ShotView::Wait { attempt },
                page,
                width,
                height,
                timeout_secs,
            ) == (RequestView::Pause { millis: (500 * attempt) as u64 })
            &&& engine::requested(
                w,
                ShotView::Done { result },
                page,
                width,
                height,
                timeout_secs,
            ) is Nothing
        }),
{
}

/// After the size comes the page, whatever came of the size.
pub proof fn law_size_is_no_obstacle(reply: ReplyView)
    ensures
        engine::after(ShotView::Resize, reply) is Navigate,
{
}

/// A page that cannot be reached ends the shot: as out of time exactly where it was that,
/// else with the reason; one that can be is captured, from the first attempt on.
pub proof fn law_what_follows_a_page(
    timed_out: bool,
    message: Seq<char>,
    status: Seq<char>,
    image: Result<Seq<char>, Seq<char>>,
)
    ensures
        engine::after(ShotView::Navigate, ReplyView::Failed { timed_out, message }) == (
        ShotView::Done {
            result: Err(
                if timed_out {
                    ApiErrorView::Timeout
                } else {
                    ApiErrorView::Render(message)
                },
            ),
        }),
        engine::after(ShotView::Navigate, ReplyView::Refused { status }) == (ShotView::Done {
            result: Err(ApiErrorView::Render("navigate failed: HTTP "@ + status)),
        }),
        engine::after(ShotView::Navigate, ReplyView::Accepted { image }) == (ShotView::Capture {
            attempt: 0,
        }),
{
}

/// A screenshot that fails is tried again after a pause, six times in all, and then its
/// error is the result.
pub proof fn law_failed_screenshot_is_tried_again(
    attempt: u32,
    timed_out: bool,
    message: Seq<char>,
    status: Seq<char>,
    reply: ReplyView,
)
    requires
        attempt < 6,
        reply == (ReplyView::Failed { timed_out, message }) || reply == (ReplyView::Refused {
            status,
        }),
    ensures
        attempt < 5 ==> engine::after(ShotView::Capture { attempt }, reply) == (ShotView::Wait {
            attempt: (attempt + 1) as u32,
        }),
        engine::after(ShotView::Wait { attempt }, reply) == (ShotView::Capture { attempt }),
        attempt == 5 && reply == (ReplyView::Failed { timed_out, message }) ==> engine::after(
            ShotView::Capture { attempt },
            reply,
        ) == (ShotView::Done {
            result: Err(
                if timed_out {
                    ApiErrorView::Timeout
                } else {
                    ApiErrorView::Render(message)
                },
            ),
        }),
        attempt == 5 && reply == (ReplyView::Refused { status }) ==> engine::after(
            ShotView::Capture { attempt },
            reply,
        ) == (ShotView::Done {
            result: Err(ApiErrorView::Render("screenshot failed: HTTP "@ + status)),
        }),
{
}

/// An image that was sent is the result, byte by byte, at any attempt, unless it is empty:
/// then it is tried again like a failure. One that cannot be read ends the shot.
pub proof fn law_sent_image_is_the_result(attempt: u32, image: Seq<char>, e: Seq<char>)
    requires
        attempt < 6,
    ensures
        ({
            let r = engine::after(
                ShotView::Capture { attempt },
                ReplyView::Accepted { image: Ok(image) },
            );
            match crypto::base64_decode(text::utf8(image)) {
                Ok(bytes) => if bytes.len() > 0 {
                    r == (ShotView::Done { result: Ok(bytes) })
                } else if attempt < 5 {
                    r == (ShotView::Wait { attempt: (attempt + 1) as u32 })
                } else {
                    r == (ShotView::Done { result: Err(ApiErrorView::Render("empty screenshot"@)) })
                },
                Err(why) => r == (ShotView::Done {
                    result: Err(ApiErrorView::Render("decode screenshot: "@ + why)),
                }),
            }
        }),
        engine::after(ShotView::Capture { attempt }, ReplyView::Accepted { image: Err(e) }) == (
        ShotView::Done { result: Err(ApiErrorView::Render(e)) }),
{
}

/// The result of a shot does not change any more.
pub proof fn law_result_stays(result: Result<Seq<u8>, ApiErrorView>, reply: ReplyView)
    ensures
        engine::after(ShotView::Done { result }, reply) == (ShotView::Done { result }),
{
}

/// What becomes of a slot: a worker whose shot succeeded goes back; any other is shut down,
/// its port is given time, and another is started, until one could be.
pub proof fn law_what_becomes_of_a_slot(end: ShotEnd, slot: Slot, started: bool)
    ensures
        engine::settled(end) == Slot::Return <==> end == ShotEnd::Succeeded,
        engine::settled(end) == Slot::Shutdown <==> end != ShotEnd::Succeeded,
        engine::slot_after(slot, started) == Slot::Filled <==> slot == Slot::Return || slot
            == Slot::Replace || slot == Slot::Filled,
        engine::slot_after(slot, started) == Slot::Pause <==> slot == Slot::Shutdown || slot
            == Slot::Spawn && !started,
        engine::slot_after(slot, started) == Slot::Spawn <==> slot == Slot::Pause,
        engine::slot_after(slot, started) == Slot::Replace <==> slot == Slot::Spawn && started,
{
}

// --- Shots of a browser -----------------------------------------------------

/// What follows a step that was done.
pub open spec fn follows(step: RenderView) -> RenderView {
    match step {
        RenderView::NewPage => RenderView::Metrics,
        RenderView::Metrics => RenderView::SetViewport,
        RenderView::SetViewport => RenderView::Navigate,
        RenderView::Navigate => RenderView::Load,
        RenderView::Load => RenderView::Screenshot,
        _ => step,
    }
}

/// The steps of a shot follow one another: a page, its size, the URL, the load, and the
/// screenshot; and the screenshot is the result, unless it is empty.
pub proof fn law_steps_follow_one_another(step: RenderView, bytes: Seq<u8>)
    ensures
        step !is Screenshot && step !is Close && step !is Done ==> chrome::after(
            step,
            OutcomeView::Finished(bytes),
        ) == follows(step),
        step is Screenshot && bytes.len() > 0 ==> chrome::after(
            step,
            OutcomeView::Finished(bytes),
        ) == (RenderView::Close { result: Ok(bytes) }),
        step is Screenshot && bytes.len() == 0 ==> chrome::after(
            step,
            OutcomeView::Finished(bytes),
        ) == (RenderView::Close { result: Err(ApiErrorView::Render("empty screenshot"@)) }),
{
}

/// Whenever the time runs out before a shot is over, it comes to that, and a page that was
/// opened is closed.
pub proof fn law_out_of_time_is_told(step: RenderView)
    requires
        step !is Done,
    ensures
        step is NewPage ==> chrome::after(step, OutcomeView::TimedOut) == (RenderView::Done {
            result: Err(ApiErrorView::Timeout),
        }),
        step !is NewPage ==> chrome::after(step, OutcomeView::TimedOut) == (RenderView::Close {
            result: Err(ApiErrorView::Timeout),
        }),
{
}

/// A step that fails is told with the reason, as an error of rendering but for the size,
/// which is put together on the server's side; and a page that was opened is closed.
pub proof fn law_failed_step_is_told(e: Seq<char>)
    ensures
        chrome::after(RenderView::NewPage, OutcomeView::Failed(e)) == (RenderView::Done {
            result: Err(ApiErrorView::Render("new page: "@ + e)),
        }),
        chrome::after(RenderView::Metrics, OutcomeView::Failed(e)) == (RenderView::Close {
            result: Err(ApiErrorView::Internal("device metrics: "@ + e)),
        }),
        chrome::after(RenderView::SetViewport, OutcomeView::Failed(e)) == (RenderView::Close {
            result: Err(ApiErrorView::Render("set viewport: "@ + e)),
        }),
        chrome::after(RenderView::Navigate, OutcomeView::Failed(e)) == (RenderView::Close {
            result: Err(ApiErrorView::Render("navigate: "@ + e)),
        }),
        chrome::after(RenderView::Load, OutcomeView::Failed(e)) == (RenderView::Close {
            result: Err(ApiErrorView::Render("load: "@ + e)),
        }),
        chrome::after(RenderView::Screenshot, OutcomeView::Failed(e)) == (RenderView::Close {
            result: Err(ApiErrorView::Render("screenshot: "@ + e)),
        }),
{
}

/// That a page cannot be closed changes nothing of the result, and nothing does once it is
/// there.
pub proof fn law_closing_keeps_the_result(
    result: Result<Seq<u8>, ApiErrorView>,
    outcome: OutcomeView,
)
    ensures
        outcome !is TimedOut ==> chrome::after(RenderView::Close { result }, outcome) == (
        RenderView::Done { result }),
        chrome::after(RenderView::Done { result }, outcome) == (RenderView::Done { result }),
{
}

/// The browser runs without shared memory and graphics hardware, and its shots have no
/// scrollbars and standard colors.
pub proof fn law_arguments_of_the_browser()
    ensures
        chrome::browser_args() == seq![
            "disable-dev-shm-usage"@,
            "disable-gpu"@,
            "hide-scrollbars"@,
            "force-color-profile=srgb"@,
        ],
        chrome::web_only() == "only http(s) urls allowed"@,
        engine::web_only() == "only http(s) urls are allowed"@,
{
}

// --- Shots of a process -----------------------------------------------------

/// A process gets the size, the image file behind `-o` and, at the end, the page; and the
/// ratio exactly where one is given.
pub proof fn law_arguments_of_a_process(
    width: u32,
    height: u32,
    dpr: Option<Seq<char>>,
    page: Seq<char>,
)
    ensures
        ({
            let args = renderer::shot_args(width, height, dpr, page);
            let n = args.len() as int;
            &&& n == if dpr is Some {
                7int
            } else {
                6
            }
            &&& args[0] == ArgView::Text("-z"@)
            &&& args[1] == ArgView::Text("-x"@)
            &&& args[2] == ArgView::Text(engine::size_arg(width, height))
            &&& dpr matches Some(d) ==> args[3] == ArgView::Text("--device-pixel-ratio="@ + d)
            &&& args[n - 3] == ArgView::Text("-o"@)
            &&& args[n - 2] is Output
            &&& args[n - 1] == ArgView::Text(page)
        }),
{
}

/// The image is read exactly where the process succeeded; else the reason is the result,
/// and what is there of an image is removed, unless nothing is known of the process.
pub proof fn law_what_follows_a_process(waited: Waited)
    ensures
        renderer::after_wait(waited) is Read <==> waited is Succeeded,
        waited is TimedOut ==> renderer::after_wait(waited) == (NextView::Remove {
            result: Err(ApiErrorView::Timeout),
        }),
        waited matches Waited::Failed(e) ==> renderer::after_wait(waited) == (NextView::Done {
            result: Err(ApiErrorView::Internal(e@)),
        }),
        waited matches Waited::Exited { status, stderr } ==> renderer::after_wait(waited) == (
        NextView::Remove {
            result: Err(
                ApiErrorView::Render(
                    "servoshell exited "@ + status@ + ": "@ + text::trimmed(
                        text::last_line(crypto::utf8_lossy(stderr@)),
                    ),
                ),
            ),
        }),
{
}

/// The image that was read is the result, byte by byte, unless it is empty.
pub proof fn law_image_that_was_read_is_the_result(bytes: Seq<u8>, e: Seq<char>)
    ensures
        bytes.len() > 0 ==> renderer::after_read(Ok(bytes)) == (NextView::Remove {
            result: Ok(bytes),
        }),
        bytes.len() == 0 ==> renderer::after_read(Ok(bytes)) == (NextView::Remove {
            result: Err(ApiErrorView::Render("servoshell produced an empty image"@)),
        }),
        renderer::after_read(Err(e)) == (NextView::Done {
            result: Err(ApiErrorView::Render("read output image: "@ + e)),
        }),
{
}

} // verus!
