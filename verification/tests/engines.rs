use trickshot::engine::checked_out;
use trickshot::engine::page;
use trickshot::engine::ports;
use trickshot::engine::screenshot_decoded;
use trickshot::engine::spawn_failed;
use trickshot::engine::Checkout;
use trickshot::engine::Ready;
use trickshot::engine::Reply;
use trickshot::engine::Request;
use trickshot::engine::Shot;
use trickshot::engine::ShotEnd;
use trickshot::engine::Slot;
use trickshot::engine::Worker;
use trickshot::engine::WorkerConfig;
use trickshot::error::ApiError;
use trickshot::renderer::exited;
use trickshot::renderer::output_name;
use trickshot::renderer::Arg;
use trickshot::renderer::Next;
use trickshot::renderer::ServoRenderer;
use trickshot::renderer::Waited;
use trickshot::target::Url;

fn config() -> WorkerConfig {
    WorkerConfig {
        bin: "servoshell".to_string(),
        width: 1024,
        height: 768,
        ready_timeout_millis: 1000,
    }
}

fn worker() -> Worker {
    let mut w = Worker::spawn(&config(), 7000);
    w.session_created(Ok("s1".to_string())).unwrap();
    w
}

fn said(e: ApiError) -> String {
    match e {
        ApiError::BadRequest(m) => format!("bad request: {m}"),
        ApiError::Internal(m) => format!("internal: {m}"),
        ApiError::Render(m) => format!("render: {m}"),
        ApiError::Timeout => "timeout".to_string(),
        other => panic!("{other:?}"),
    }
}

fn image(text: &str) -> Reply {
    Reply::Accepted { image: Ok(text.to_string()) }
}

fn result(step: Shot) -> Result<Vec<u8>, String> {
    match step {
        Shot::Done { result } => result.map_err(said),
        other => panic!("{other:?}"),
    }
}

// --- Workers ----------------------------------------------------------------

#[test]
fn workers_are_started_without_a_display() {
    assert_eq!(
        config().args(7001),
        vec!["-z", "--webdriver=7001", "--window-size=1024x768", "about:blank"]
    );
    let w = Worker::spawn(&config(), 7001);
    assert_eq!(w.port, 7001);
    assert_eq!(w.base, "http://127.0.0.1:7001");
    assert_eq!(w.session, "");
    assert_eq!(w.status_url(), "http://127.0.0.1:7001/status");
    assert_eq!(w.session_url(), "http://127.0.0.1:7001/session");
    assert_eq!(said(spawn_failed("servoshell", "not found")), "internal: spawn servoshell: not found");
}

#[test]
fn workers_get_ready_or_not() {
    let mut w = worker();
    assert!(matches!(w.wait_ready(true, true), Ready::Ready));
    assert!(matches!(w.wait_ready(false, false), Ready::Wait));
    match w.wait_ready(false, true) {
        Ready::Failed(e) => assert_eq!(said(e), "internal: webdriver on :7000 not ready in time"),
        other => panic!("{other:?}"),
    }
    let e = w.session_created(Err("refused".to_string())).unwrap_err();
    assert_eq!(said(e), "internal: refused");
    assert_eq!(w.session, "s1");
}

#[test]
fn requests_of_a_shot() {
    let w = worker();
    let p = Url::parse("http://h/x").unwrap();
    match w.request(&Shot::Resize, &p, 10, 20, 60) {
        Request::Rect { url, width, height, timeout_secs } => {
            assert_eq!(url, "http://127.0.0.1:7000/session/s1/window/rect");
            assert_eq!((width, height, timeout_secs), (10, 20, 5));
        }
        other => panic!("{other:?}"),
    }
    match w.request(&Shot::Navigate, &p, 10, 20, 60) {
        Request::Page { url, page, timeout_secs } => {
            assert_eq!(url, "http://127.0.0.1:7000/session/s1/url");
            assert_eq!((page.as_str(), timeout_secs), ("http://h/x", 60));
        }
        other => panic!("{other:?}"),
    }
    match w.request(&Shot::Capture { attempt: 0 }, &p, 10, 20, 60) {
        Request::Screenshot { url, timeout_secs } => {
            assert_eq!(url, "http://127.0.0.1:7000/session/s1/screenshot");
            assert_eq!(timeout_secs, 60);
        }
        other => panic!("{other:?}"),
    }
    assert!(matches!(
        w.request(&Shot::Wait { attempt: 3 }, &p, 10, 20, 60),
        Request::Pause { millis: 1500 }
    ));
    assert!(matches!(
        w.request(&Shot::Done { result: Ok(vec![]) }, &p, 10, 20, 60),
        Request::Nothing
    ));
}

#[test]
fn window_is_resized_only_when_needed() {
    let mut w = worker();
    assert!(matches!(w.shot(1024, 768), Shot::Navigate));
    assert!(matches!(w.shot(800, 768), Shot::Resize));
    let refused = Reply::Refused { status: "500 Internal Server Error".to_string() };
    assert!(matches!(w.next(Shot::Resize, refused, 800, 600), Shot::Navigate));
    assert_eq!((w.cur_w, w.cur_h), (1024, 768));
    assert!(matches!(w.next(Shot::Resize, image(""), 800, 600), Shot::Navigate));
    assert_eq!((w.cur_w, w.cur_h), (800, 600));
    assert!(matches!(w.shot(800, 600), Shot::Navigate));
}

#[test]
fn shot_gives_the_decoded_image() {
    let mut w = worker();
    let step = w.next(Shot::Navigate, image(""), 1, 1);
    assert!(matches!(step, Shot::Capture { attempt: 0 }));
    let step = w.next(step, image("iVBORw=="), 1, 1);
    assert_eq!(result(step).unwrap(), vec![0x89, b'P', b'N', b'G']);
}

#[test]
fn shot_fails_to_navigate() {
    let mut w = worker();
    let late = Reply::Failed { timed_out: true, message: "slow".to_string() };
    assert_eq!(result(w.next(Shot::Navigate, late, 1, 1)).unwrap_err(), "timeout");
    let lost = Reply::Failed { timed_out: false, message: "lost".to_string() };
    assert_eq!(result(w.next(Shot::Navigate, lost, 1, 1)).unwrap_err(), "render: lost");
    let no = Reply::Refused { status: "404 Not Found".to_string() };
    assert_eq!(
        result(w.next(Shot::Navigate, no, 1, 1)).unwrap_err(),
        "render: navigate failed: HTTP 404 Not Found"
    );
}

#[test]
fn screenshots_are_tried_six_times() {
    let mut w = worker();
    let mut step = Shot::Capture { attempt: 0 };
    let mut captures = 0;
    let mut pauses = Vec::new();
    let p = Url::parse("http://h/").unwrap();
    loop {
        match w.request(&step, &p, 1, 1, 1) {
            Request::Pause { millis } => pauses.push(millis),
            Request::Screenshot { .. } => captures += 1,
            Request::Nothing => break,
            other => panic!("{other:?}"),
        }
        let no = Reply::Refused { status: "500 Internal Server Error".to_string() };
        step = w.next(step, no, 1, 1);
    }
    assert_eq!(captures, 6);
    assert_eq!(pauses, vec![500, 1000, 1500, 2000, 2500]);
    assert_eq!(
        result(step).unwrap_err(),
        "render: screenshot failed: HTTP 500 Internal Server Error"
    );
}

#[test]
fn screenshots_that_cannot_be_read_are_not_tried_again() {
    let mut w = worker();
    let unread = Reply::Accepted { image: Err("expected value".to_string()) };
    let step = w.next(Shot::Capture { attempt: 0 }, unread, 1, 1);
    assert_eq!(result(step).unwrap_err(), "render: expected value");
    let step = w.next(Shot::Capture { attempt: 0 }, image("%"), 1, 1);
    assert_eq!(
        result(step).unwrap_err(),
        "render: decode screenshot: Invalid symbol 37, offset 0."
    );
    let step = w.next(Shot::Capture { attempt: 2 }, image(""), 1, 1);
    assert!(matches!(step, Shot::Wait { attempt: 3 }));
    let step = screenshot_decoded(5, Ok(vec![]));
    assert_eq!(result(step).unwrap_err(), "render: empty screenshot");
    let step = screenshot_decoded(5, Err("bad".to_string()));
    assert_eq!(result(step).unwrap_err(), "render: decode screenshot: bad");
    assert_eq!(result(screenshot_decoded(0, Ok(vec![7]))).unwrap(), vec![7]);
}

// --- The pool ---------------------------------------------------------------

#[test]
fn ports_follow_one_another() {
    assert_eq!(ports(9000, 3), vec![9000, 9001, 9002]);
    assert_eq!(ports(65535, 1), vec![65535]);
}

#[test]
fn pool_renders_web_pages_only() {
    assert_eq!(page("http://h").unwrap().href, "http://h/");
    assert_eq!(
        said(page("ftp://h").unwrap_err()),
        "bad request: only http(s) urls are allowed"
    );
    assert_eq!(
        said(page("").unwrap_err()),
        "bad request: invalid url: relative URL without a base"
    );
}

#[test]
fn workers_are_checked_out() {
    assert_eq!(checked_out(Checkout::Got(5)).unwrap(), 5);
    let none: Checkout<u8> = Checkout::Closed;
    assert_eq!(said(checked_out(none).unwrap_err()), "internal: worker pool closed");
    let none: Checkout<u8> = Checkout::TimedOut;
    assert_eq!(
        said(checked_out(none).unwrap_err()),
        "internal: no warm worker available (pool busy)"
    );
}

#[test]
fn slots_are_filled_again() {
    assert_eq!(Slot::settle(ShotEnd::Succeeded), Slot::Return);
    assert_eq!(Slot::Return.next(true), Slot::Filled);
    for end in [ShotEnd::Failed, ShotEnd::Abandoned] {
        let step = Slot::settle(end);
        assert_eq!(step, Slot::Shutdown);
        let step = step.next(true);
        assert_eq!(step, Slot::Pause);
        let step = step.next(true);
        assert_eq!(step, Slot::Spawn);
        assert_eq!(step.next(false), Slot::Pause);
        assert_eq!(step.next(false).next(true), Slot::Spawn);
        assert_eq!(step.next(true), Slot::Replace);
        assert_eq!(Slot::Replace.next(true), Slot::Filled);
    }
}

// --- One process per shot ---------------------------------------------------

fn arguments(args: Vec<Arg>) -> Vec<String> {
    args.into_iter()
        .map(|a| match a {
            Arg::Text(t) => t,
            Arg::Output => "OUT".to_string(),
        })
        .collect()
}

fn ended(next: Next) -> Result<Vec<u8>, String> {
    match next {
        Next::Done { result } => result.map_err(said),
        Next::Remove { result } => result.map_err(|e| format!("removed, {}", said(e))),
        other => panic!("{other:?}"),
    }
}

#[test]
fn process_has_arguments() {
    let r = ServoRenderer::new("servo".to_string());
    let p = r.page("http://h/a").unwrap();
    assert_eq!(
        arguments(r.args(640, 480, None, &p)),
        vec!["-z", "-x", "--window-size=640x480", "-o", "OUT", "http://h/a"]
    );
    assert_eq!(
        arguments(r.args(640, 480, Some("2"), &p)),
        vec![
            "-z",
            "-x",
            "--window-size=640x480",
            "--device-pixel-ratio=2",
            "-o",
            "OUT",
            "http://h/a",
        ]
    );
}

#[test]
fn image_files_have_fresh_names() {
    let a = output_name();
    let b = output_name();
    assert_ne!(a, b);
    assert_eq!(a.len(), "trickshot-.png".len() + 36);
    assert!(a.starts_with("trickshot-") && a.ends_with(".png"));
    assert_eq!(a.as_bytes()[10 + 14], b'4');
}

#[test]
fn process_may_fail() {
    let r = ServoRenderer::new("servo".to_string());
    assert!(matches!(r.spawned(Ok(())), Next::Wait));
    assert_eq!(
        ended(r.spawned(Err("no".to_string()))).unwrap_err(),
        "internal: spawn servo: no"
    );
    assert_eq!(ended(r.waited(Waited::TimedOut)).unwrap_err(), "removed, timeout");
    assert_eq!(
        ended(r.waited(Waited::Failed("lost".to_string()))).unwrap_err(),
        "internal: lost"
    );
    let exit = Waited::Exited {
        status: "exit status: 1".to_string(),
        stderr: b"first\n  the \xff end \r\n".to_vec(),
    };
    assert_eq!(
        ended(r.waited(exit)).unwrap_err(),
        "removed, render: servoshell exited exit status: 1: the \u{fffd} end"
    );
    assert!(matches!(r.waited(Waited::Succeeded), Next::Read));
    assert_eq!(said(exited("signal: 9", "")), "render: servoshell exited signal: 9: ");
}

#[test]
fn image_is_read() {
    let r = ServoRenderer::new("servo".to_string());
    assert_eq!(
        ended(r.read(Err("gone".to_string()))).unwrap_err(),
        "render: read output image: gone"
    );
    assert_eq!(
        ended(r.read(Ok(vec![]))).unwrap_err(),
        "removed, render: servoshell produced an empty image"
    );
    match r.read(Ok(vec![9])) {
        Next::Remove { result: Ok(bytes) } => assert_eq!(bytes, vec![9]),
        other => panic!("{other:?}"),
    }
}
