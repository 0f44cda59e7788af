//! The engine behind a shot: one browser that is kept running, in which every
//! shot has a page of its own. Here is what the engine decides; driving the
//! browser is left to the caller, step by step.

use vstd::prelude::*;

use crate::error;
use crate::error::ApiError;
use crate::error::ApiErrorView;
use crate::target;
use crate::target::Url;
use crate::text;

verus! {

/// A shot to take, with nothing left open.
#[derive(Debug)]
pub struct ShotRequest {
    pub url: String,
    /// The width of the page in logical pixels.
    pub width: u32,
    /// The height of the page in logical pixels.
    pub height: u32,
    /// The bits of the device pixel ratio, a 64-bit IEEE 754 number.
    pub scale_bits: u64,
    /// How many seconds the shot may take.
    pub timeout_secs: u64,
    /// The proxy that the page goes through, if any.
    pub proxy_server: Option<String>,
}

/// A [`ShotRequest`] with its texts as character sequences.
pub struct ShotRequestView {
    pub url: Seq<char>,
    pub width: u32,
    pub height: u32,
    pub scale_bits: u64,
    pub timeout_secs: u64,
    pub proxy_server: Option<Seq<char>>,
}

impl View for ShotRequest {
    type V = ShotRequestView;

    open spec fn view(&self) -> ShotRequestView {
        ShotRequestView {
            url: self.url@,
            width: self.width,
            height: self.height,
            scale_bits: self.scale_bits,
            timeout_secs: self.timeout_secs,
            proxy_server: text::opt_text(self.proxy_server),
        }
    }
}

/// What the browser is started with.
#[derive(Debug)]
pub struct ChromeConfig {
    /// The browser. Without one it is looked for.
    pub bin: Option<String>,
    /// The width of its window; a shot has its own.
    pub width: u32,
    /// The height of its window; a shot has its own.
    pub height: u32,
    /// How many pages it renders at a time.
    pub max_concurrency: usize,
}

/// How the browser is launched.
#[derive(Debug)]
pub struct Launch {
    pub bin: Option<String>,
    pub width: u32,
    pub height: u32,
    /// Whether it runs in its sandbox.
    pub sandbox: bool,
    /// Its arguments, without leading dashes.
    pub args: Vec<String>,
    /// How many pages may be open at a time.
    pub permits: usize,
}

/// The arguments of the browser: it runs in a container, and shots must not show
/// scrollbars or the colors of a display.
pub open spec fn browser_args() -> Seq<Seq<char>> {
    seq![
        "disable-dev-shm-usage"@,
        "disable-gpu"@,
        "hide-scrollbars"@,
        "force-color-profile=srgb"@,
    ]
}

/// Where a launch can fail.
#[derive(Debug, Clone, Copy, PartialEq, Eq, Structural)]
pub enum LaunchStep {
    /// The browser's configuration, which needs a browser.
    Configure,
    /// The browser itself.
    Run,
}

impl ChromeConfig {
    /// How the browser is launched. It runs without its sandbox, as it could not
    /// start for the root user of a container otherwise.
    pub fn start(&self) -> (r: Launch)
        ensures
            r.bin == self.bin,
            r.width == self.width,
            r.height == self.height,
            !r.sandbox,
            text::texts(r.args@) == browser_args(),
            r.permits == self.max_concurrency,
    {
        let mut args: Vec<String> = Vec::new();
        args.push(text::owned("disable-dev-shm-usage"));
        args.push(text::owned("disable-gpu"));
        args.push(text::owned("hide-scrollbars"));
        args.push(text::owned("force-color-profile=srgb"));
        assert(text::texts(args@) =~= browser_args());
        Launch {
            bin: self.bin.clone(),
            width: self.width,
            height: self.height,
            sandbox: false,
            args,
            permits: self.max_concurrency,
        }
    }
}

impl LaunchStep {
    /// The error of a launch that failed at this step.
    pub fn failed(self, e: &str) -> (r: ApiError)
        ensures
            r@ == ApiErrorView::Internal(
                (match self {
                    LaunchStep::Configure => "chrome config: "@,
                    LaunchStep::Run => "chrome launch: "@,
                }) + e@,
            ),
    {
        match self {
            LaunchStep::Configure => ApiError::Internal(text::cat2("chrome config: ", e)),
            LaunchStep::Run => ApiError::Internal(text::cat2("chrome launch: ", e)),
        }
    }
}

/// What is said of a page that is neither `http` nor `https`.
pub open spec fn web_only() -> Seq<char> {
    "only http(s) urls allowed"@
}

impl ShotRequest {
    /// The page of the shot, if it is one that may be rendered.
    pub fn page(&self) -> (r: Result<Url, ApiError>)
        ensures
            target::page_view(r) == target::page_of(target::url_parse(self@.url), web_only()),
    {
        target::page(Url::parse(&self.url), "only http(s) urls allowed")
    }
}

// --- Rendering --------------------------------------------------------------

/// What a shot does next.
#[derive(Debug)]
pub enum Render {
    /// Open a page.
    NewPage,
    /// Put the size and the ratio of the page together.
    Metrics,
    /// Give the page its size and ratio.
    SetViewport,
    /// Go to the URL.
    Navigate,
    /// Wait until the page has loaded.
    Load,
    /// Take the screenshot.
    Screenshot,
    /// Close the page. That it cannot be closed changes nothing.
    Close { result: Result<Vec<u8>, ApiError> },
    /// Nothing: this is the result.
    Done { result: Result<Vec<u8>, ApiError> },
}

/// A [`Render`] over sequences.
pub enum RenderView {
    NewPage,
    Metrics,
    SetViewport,
    Navigate,
    Load,
    Screenshot,
    Close { result: Result<Seq<u8>, ApiErrorView> },
    Done { result: Result<Seq<u8>, ApiErrorView> },
}

impl View for Render {
    type V = RenderView;

    open spec fn view(&self) -> RenderView {
        match self {
            Render::NewPage => RenderView::NewPage,
            Render::Metrics => RenderView::Metrics,
            Render::SetViewport => RenderView::SetViewport,
            Render::Navigate => RenderView::Navigate,
            Render::Load => RenderView::Load,
            Render::Screenshot => RenderView::Screenshot,
            Render::Close { result } => RenderView::Close { result: error::bytes_view(*result) },
            Render::Done { result } => RenderView::Done { result: error::bytes_view(*result) },
        }
    }
}

/// What came of a step.
#[derive(Debug)]
pub enum Outcome {
    /// It was done. A screenshot has bytes.
    Finished(Vec<u8>),
    /// It failed, and this says why.
    Failed(String),
    /// The time for the shot ran out first. That happens once.
    TimedOut,
}

/// An [`Outcome`] over sequences.
pub enum OutcomeView {
    Finished(Seq<u8>),
    Failed(Seq<char>),
    TimedOut,
}

impl View for Outcome {
    type V = OutcomeView;

    open spec fn view(&self) -> OutcomeView {
        match self {
            Outcome::Finished(bytes) => OutcomeView::Finished(bytes@),
            Outcome::Failed(e) => OutcomeView::Failed(e@),
            Outcome::TimedOut => OutcomeView::TimedOut,
        }
    }
}

/// A page that is closed for an error.
pub open spec fn given_up(e: ApiErrorView) -> RenderView {
    RenderView::Close { result: Err(e) }
}

/// What follows a step. Once there is a page, it is closed whatever happens.
pub open spec fn after(step: RenderView, outcome: OutcomeView) -> RenderView {
    match step {
        RenderView::NewPage => match outcome {
            OutcomeView::Finished(_) => RenderView::Metrics,
            OutcomeView::Failed(e) => RenderView::Done {
                result: Err(ApiErrorView::Render("new page: "@ + e)),
            },
            OutcomeView::TimedOut => RenderView::Done { result: Err(ApiErrorView::Timeout) },
        },
        RenderView::Metrics => match outcome {
            OutcomeView::Finished(_) => RenderView::SetViewport,
            OutcomeView::Failed(e) => given_up(ApiErrorView::Internal("device metrics: "@ + e)),
            OutcomeView::TimedOut => given_up(ApiErrorView::Timeout),
        },
        RenderView::SetViewport => match outcome {
            OutcomeView::Finished(_) => RenderView::Navigate,
            OutcomeView::Failed(e) => given_up(ApiErrorView::Render("set viewport: "@ + e)),
            OutcomeView::TimedOut => given_up(ApiErrorView::Timeout),
        },
        RenderView::Navigate => match outcome {
            OutcomeView::Finished(_) => RenderView::Load,
            OutcomeView::Failed(e) => given_up(ApiErrorView::Render("navigate: "@ + e)),
            OutcomeView::TimedOut => given_up(ApiErrorView::Timeout),
        },
        RenderView::Load => match outcome {
            OutcomeView::Finished(_) => RenderView::Screenshot,
            OutcomeView::Failed(e) => given_up(ApiErrorView::Render("load: "@ + e)),
            OutcomeView::TimedOut => given_up(ApiErrorView::Timeout),
        },
        RenderView::Screenshot => match outcome {
            OutcomeView::Finished(png) => if png.len() == 0 {
                given_up(ApiErrorView::Render("empty screenshot"@))
            } else {
                RenderView::Close { result: Ok(png) }
            },
            OutcomeView::Failed(e) => given_up(ApiErrorView::Render("screenshot: "@ + e)),
            OutcomeView::TimedOut => given_up(ApiErrorView::Timeout),
        },
        RenderView::Close { result } => match outcome {
            OutcomeView::TimedOut => given_up(ApiErrorView::Timeout),
            _ => RenderView::Done { result },
        },
        RenderView::Done { result } => RenderView::Done { result },
    }
}

fn give_up(e: ApiError) -> (r: Render)
    ensures
        r@ == given_up(e@),
{
    Render::Close { result: Err(e) }
}

impl Render {
    /// The first step of a shot, once it is its turn, or the engine has been
    /// closed and there will be none.
    pub fn start(permitted: bool) -> (r: Render)
        ensures
            r@ == if permitted {
                RenderView::NewPage
            } else {
                RenderView::Done { result: Err(ApiErrorView::Internal("chrome engine closed"@)) }
            },
    {
        if permitted {
            Render::NewPage
        } else {
            Render::Done { result: Err(ApiError::Internal(text::owned("chrome engine closed"))) }
        }
    }

    /// What follows the step.
    pub fn next(self, outcome: Outcome) -> (r: Render)
        ensures
            r@ == after(self@, outcome@),
    {
        match self {
            Render::NewPage => match outcome {
                Outcome::Finished(_) => Render::Metrics,
                Outcome::Failed(e) => Render::Done {
                    result: Err(ApiError::Render(text::cat2("new page: ", &e))),
                },
                Outcome::TimedOut => Render::Done { result: Err(ApiError::Timeout) },
            },
            Render::Metrics => match outcome {
                Outcome::Finished(_) => Render::SetViewport,
                Outcome::Failed(e) => give_up(
                    ApiError::Internal(text::cat2("device metrics: ", &e)),
                ),
                Outcome::TimedOut => give_up(ApiError::Timeout),
            },
            Render::SetViewport => match outcome {
                Outcome::Finished(_) => Render::Navigate,
                Outcome::Failed(e) => give_up(ApiError::Render(text::cat2("set viewport: ", &e))),
                Outcome::TimedOut => give_up(ApiError::Timeout),
            },
            Render::Navigate => match outcome {
                Outcome::Finished(_) => Render::Load,
                Outcome::Failed(e) => give_up(ApiError::Render(text::cat2("navigate: ", &e))),
                Outcome::TimedOut => give_up(ApiError::Timeout),
            },
            Render::Load => match outcome {
                Outcome::Finished(_) => Render::Screenshot,
                Outcome::Failed(e) => give_up(ApiError::Render(text::cat2("load: ", &e))),
                Outcome::TimedOut => give_up(ApiError::Timeout),
            },
            Render::Screenshot => match outcome {
                Outcome::Finished(png) => if png.len() == 0 {
                    give_up(ApiError::Render(text::owned("empty screenshot")))
                } else {
                    Render::Close { result: Ok(png) }
                },
                Outcome::Failed(e) => give_up(ApiError::Render(text::cat2("screenshot: ", &e))),
                Outcome::TimedOut => give_up(ApiError::Timeout),
            },
            Render::Close { result } => match outcome {
                Outcome::TimedOut => give_up(ApiError::Timeout),
                Outcome::Finished(_) => Render::Done { result },
                Outcome::Failed(_) => Render::Done { result },
            },
            Render::Done { result } => Render::Done { result },
        }
    }
}

/// The step that a shot has come to after these outcomes.
pub open spec fn driven(step: RenderView, outcomes: Seq<OutcomeView>) -> RenderView
    decreases outcomes.len(),
{
    if outcomes.len() == 0 {
        step
    } else {
        after(driven(step, outcomes.drop_last()), outcomes.last())
    }
}

/// A shot whose page was opened never ends but by closing the page.
pub proof fn law_page_is_always_closed(outcomes: Seq<OutcomeView>)
    requires
        outcomes.len() > 0,
        outcomes[0] is Finished,
        driven(RenderView::NewPage, outcomes) is Done,
    ensures
        exists|n: int|
            0 < n < outcomes.len() && #[trigger] driven(
                RenderView::NewPage,
                outcomes.take(n),
            ) is Close,
    decreases outcomes.len(),
{
    let before = outcomes.drop_last();
    let n = outcomes.len() - 1;
    reveal_with_fuel(driven, 2);
    assert(outcomes.take(n) =~= before);
    if before.len() == 0 {
        assert(before =~= seq![]);
    } else if driven(RenderView::NewPage, before) is Close {
        assert(driven(RenderView::NewPage, outcomes.take(n)) is Close);
    } else {
        assert(before[0] == outcomes[0]);
        lemma_opened(before);
        law_page_is_always_closed(before);
        let m = choose|m: int|
            0 < m < before.len() && #[trigger] driven(
                RenderView::NewPage,
                before.take(m),
            ) is Close;
        assert(before.take(m) =~= outcomes.take(m));
    }
}

proof fn lemma_opened(outcomes: Seq<OutcomeView>)
    requires
        outcomes.len() > 0,
        outcomes[0] is Finished,
    ensures
        driven(RenderView::NewPage, outcomes) !is NewPage,
    decreases outcomes.len(),
{
    let before = outcomes.drop_last();
    if before.len() == 0 {
        assert(driven(RenderView::NewPage, before) is NewPage);
    } else {
        lemma_opened(before);
    }
}

/// A shot never succeeds with an empty image.
pub proof fn law_no_empty_image(outcomes: Seq<OutcomeView>)
    ensures
        match driven(RenderView::NewPage, outcomes) {
            RenderView::Close { result: Ok(png) } => png.len() > 0,
            RenderView::Done { result: Ok(png) } => png.len() > 0,
            _ => true,
        },
    decreases outcomes.len(),
{
    if outcomes.len() > 0 {
        law_no_empty_image(outcomes.drop_last());
    }
}

/// A shot that nothing goes wrong with gives the screenshot as it was taken.
pub proof fn law_shot_is_the_screenshot(ok: Seq<u8>, png: Seq<u8>)
    requires
        png.len() > 0,
    ensures
        driven(
            RenderView::NewPage,
            seq![
                OutcomeView::Finished(ok),
                OutcomeView::Finished(ok),
                OutcomeView::Finished(ok),
                OutcomeView::Finished(ok),
                OutcomeView::Finished(ok),
                OutcomeView::Finished(png),
                OutcomeView::Finished(ok),
            ],
        ) == (RenderView::Done { result: Ok(png) }),
{
    let o = OutcomeView::Finished(ok);
    let all = seq![o, o, o, o, o, OutcomeView::Finished(png), o];
    reveal_with_fuel(driven, 8);
    assert(all.drop_last() =~= seq![o, o, o, o, o, OutcomeView::Finished(png)]);
    assert(all.drop_last().drop_last() =~= seq![o, o, o, o, o]);
    assert(all.drop_last().drop_last().drop_last() =~= seq![o, o, o, o]);
    assert(seq![o, o, o, o].drop_last() =~= seq![o, o, o]);
    assert(seq![o, o, o].drop_last() =~= seq![o, o]);
    assert(seq![o, o].drop_last() =~= seq![o]);
    assert(seq![o].drop_last() =~= seq![]);
}

} // verus!
