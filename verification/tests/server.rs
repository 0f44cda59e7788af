use trickshot::chrome::ChromeConfig;
use trickshot::chrome::LaunchStep;
use trickshot::chrome::Outcome;
use trickshot::chrome::Render;
use trickshot::chrome::ShotRequest;
use trickshot::config::Cli;
use trickshot::config::Cmd;
use trickshot::config::Config;
use trickshot::config::Task;
use trickshot::error::ApiError;
use trickshot::handlers::bearer_token;
use trickshot::handlers::extract_key;
use trickshot::handlers::health;
use trickshot::handlers::presented_key;
use trickshot::handlers::require_admin;
use trickshot::handlers::require_api_key;
use trickshot::handlers::shot;
use trickshot::handlers::shot_resolved;
use trickshot::handlers::tunnel_owner;
use trickshot::handlers::AuthedKey;
use trickshot::handlers::ShotParams;
use trickshot::handlers::ShotPlan;
use trickshot::key_cli::KeysCmd;
use trickshot::keys::FileRead;
use trickshot::keys::KeyStore;
use trickshot::keys::Role;
use trickshot::net::IpAddr;
use trickshot::net::SocketAddr;
use trickshot::reload::is_relevant_key_event;
use trickshot::reload::watch_target;
use trickshot::reload::EventKind;
use trickshot::reload::Reload;
use trickshot::reload::Trigger;
use trickshot::tunnel::open;
use trickshot::tunnel::TunnelRegistry;

fn config() -> Config<String> {
    Config {
        bind: "0.0.0.0:8900".to_string(),
        default_width: 1024,
        default_height: 768,
        render_timeout_secs: 60,
        chrome_bin: Some("chromium".to_string()),
        chrome_max_concurrency: 4,
        keys_file: "/data/keys.json".to_string(),
        allow_private_targets: false,
        max_tunnels: 16,
        tunnel_idle_secs: 300,
        bootstrap_admin_key: None,
    }
}

fn params(url: &str) -> ShotParams {
    ShotParams {
        url: url.to_string(),
        width: None,
        height: None,
        scale_bits: None,
        timeout: None,
        tunnel: None,
    }
}

fn store() -> (KeyStore<String>, String) {
    let mut s = KeyStore::load("k".to_string(), FileRead::Missing).unwrap();
    let staged = s.create("ci", Role::Render);
    s.persist(staged.file, Ok(())).unwrap();
    (s, staged.value.1)
}

fn bad_request<T: std::fmt::Debug>(r: Result<T, ApiError>) -> String {
    match r {
        Err(ApiError::BadRequest(m)) => m,
        other => panic!("{other:?}"),
    }
}

// --- Configuration ----------------------------------------------------------

#[test]
fn config_hands_out_its_parts() {
    let c = config();
    let t = c.tunnel_config();
    assert_eq!((t.max_tunnels, t.idle_timeout_secs), (16, 300));
    let b = c.chrome_config();
    assert_eq!(b.bin.as_deref(), Some("chromium"));
    assert_eq!((b.width, b.height, b.max_concurrency), (1024, 768, 4));
}

#[test]
fn command_line_chooses_the_task() {
    let cli = Cli { cmd: None, serve: config() };
    assert!(matches!(cli.task(), Task::Serve(c) if c.bind == "0.0.0.0:8900"));
    let mut other = config();
    other.bind = "h:1".to_string();
    let cli = Cli { cmd: Some(Cmd::Serve(other)), serve: config() };
    assert!(matches!(cli.task(), Task::Serve(c) if c.bind == "h:1"));
    let cli = Cli { cmd: Some(Cmd::Keys { cmd: KeysCmd::List }), serve: config() };
    assert!(matches!(
        cli.task(),
        Task::Keys { cmd: KeysCmd::List, keys_file } if keys_file == "/data/keys.json"
    ));
}

// --- Authentication ---------------------------------------------------------

#[test]
fn health_is_ok() {
    assert_eq!(health(), "ok");
}

#[test]
fn keys_are_presented_in_this_order() {
    let q = Some("url=x&api_key=c%20d&api_key=e");
    let some = |s: &str| Some(s.to_string());
    assert_eq!(extract_key(Some("a"), Some("Bearer b"), q), some("a"));
    assert_eq!(extract_key(None, Some("Bearer  b "), q), some("b"));
    assert_eq!(extract_key(None, Some("bearer b"), q), some("b"));
    assert_eq!(extract_key(None, Some("Basic b"), q), some("c d"));
    assert_eq!(extract_key(None, None, q), some("c d"));
    assert_eq!(extract_key(None, None, Some("url=x")), None);
    assert_eq!(extract_key(None, None, None), None);
    assert_eq!(extract_key(Some(""), None, q), some(""));
    assert_eq!(bearer_token("BEARER x"), None);
    let pairs = vec![("api_key".to_string(), "z".to_string())];
    assert_eq!(presented_key(None, None, &pairs), some("z"));
}

#[test]
fn only_valid_keys_pass() {
    let (s, secret) = store();
    let a = require_api_key(&s, Some(&secret), None, None).unwrap();
    assert_eq!(a.label, "ci");
    assert_eq!(a.role, Role::Render);
    assert_eq!(a.key.0, s.list()[0].id);
    let query = format!("api_key={secret}");
    assert!(require_api_key(&s, None, None, Some(&query)).is_ok());
    match require_api_key(&s, Some("wrong"), None, None) {
        Err(ApiError::Unauthorized(m)) => assert_eq!(m, "invalid api key"),
        other => panic!("{other:?}"),
    }
    match require_api_key(&s, None, None, None) {
        Err(ApiError::Unauthorized(m)) => assert_eq!(m, "missing api key"),
        other => panic!("{other:?}"),
    }
}

#[test]
fn failures_are_answered_in_json() {
    let cases = [
        (ApiError::BadRequest("a".to_string()), 400, "a"),
        (ApiError::Unauthorized("b".to_string()), 401, "b"),
        (ApiError::Forbidden("c".to_string()), 403, "c"),
        (ApiError::Internal("d".to_string()), 500, "d"),
        (ApiError::Render("e".to_string()), 502, "e"),
        (ApiError::Timeout, 504, "render timed out"),
    ];
    for (e, status, said) in cases {
        assert_eq!(e.status(), status);
        assert_eq!(e.message(), said);
        assert_eq!(e.body().get_text("error").as_deref(), Some(said));
    }
}

#[test]
fn only_admins_manage_keys() {
    assert!(require_admin(Role::Admin).is_ok());
    assert!(matches!(require_admin(Role::Render), Err(ApiError::Forbidden(_))));
    assert_eq!(tunnel_owner(Some(&AuthedKey("k1".to_string()))), "k1");
    assert_eq!(tunnel_owner(None), "unknown");
}

// --- Shots ------------------------------------------------------------------

#[test]
fn shots_have_defaults() {
    let none = TunnelRegistry::new();
    match shot(&params("http://1.1.1.1/x"), &config(), &none).unwrap() {
        ShotPlan::Take(r) => {
            assert_eq!(r.url, "http://1.1.1.1/x");
            assert_eq!((r.width, r.height, r.timeout_secs), (1024, 768, 60));
            assert_eq!(f64::from_bits(r.scale_bits), 1.0);
            assert!(r.proxy_server.is_none());
        }
        other => panic!("{other:?}"),
    }
    let mut p = params("http://1.1.1.1/x");
    p.width = Some(1);
    p.height = Some(2);
    p.scale_bits = Some(2.5f64.to_bits());
    p.timeout = Some(3);
    match shot(&p, &config(), &none).unwrap() {
        ShotPlan::Take(r) => {
            assert_eq!((r.width, r.height, r.timeout_secs), (1, 2, 3));
            assert_eq!(f64::from_bits(r.scale_bits), 2.5);
        }
        other => panic!("{other:?}"),
    }
}

#[test]
fn shots_of_private_targets_are_refused() {
    let none = TunnelRegistry::new();
    assert_eq!(
        bad_request(shot(&params("http://10.1.2.3/"), &config(), &none)),
        "target ip 10.1.2.3 is in a blocked range"
    );
    let mut open_config = config();
    open_config.allow_private_targets = true;
    assert!(matches!(
        shot(&params("http://10.1.2.3/"), &open_config, &none),
        Ok(ShotPlan::Take(_))
    ));
    assert_eq!(
        bad_request(shot(&params("::"), &config(), &none)),
        "invalid url: relative URL without a base"
    );
}

#[test]
fn shots_of_names_wait_for_addresses() {
    let none = TunnelRegistry::new();
    let request = || match shot(&params("http://example.com/"), &config(), &none).unwrap() {
        ShotPlan::Resolve { name, request } => {
            assert_eq!(name, "example.com");
            request
        }
        other => panic!("{other:?}"),
    };
    let taken = shot_resolved(request(), Ok(vec![IpAddr::V4([8, 8, 8, 8])])).unwrap();
    assert_eq!(taken.url, "http://example.com/");
    assert_eq!(
        bad_request(shot_resolved(request(), Ok(vec![IpAddr::V4([127, 0, 0, 1])]))),
        "target ip 127.0.0.1 is in a blocked range"
    );
    assert_eq!(
        bad_request(shot_resolved(request(), Err("nx".to_string()))),
        "cannot resolve host: nx"
    );
}

#[test]
fn tunnels_reach_private_targets() {
    let mut tunnels = TunnelRegistry::new();
    let addr = SocketAddr { ip: IpAddr::V4([127, 0, 0, 1]), port: 4242 };
    let (id, _) = open(&mut tunnels, addr, "k".to_string());
    let mut p = params("http://10.1.2.3/");
    p.tunnel = Some(id);
    match shot(&p, &config(), &tunnels).unwrap() {
        ShotPlan::Take(r) => {
            assert_eq!(r.proxy_server.as_deref(), Some("socks5://127.0.0.1:4242"));
        }
        other => panic!("{other:?}"),
    }
    p.tunnel = Some("gone".to_string());
    assert_eq!(bad_request(shot(&p, &config(), &tunnels)), "unknown or closed tunnel");
}

// --- The browser ------------------------------------------------------------

fn request(url: &str) -> ShotRequest {
    ShotRequest {
        url: url.to_string(),
        width: 1,
        height: 1,
        scale_bits: 1.0f64.to_bits(),
        timeout_secs: 1,
        proxy_server: None,
    }
}

#[test]
fn browser_is_launched_for_a_container() {
    let c = ChromeConfig { bin: None, width: 800, height: 600, max_concurrency: 2 };
    let l = c.start();
    assert!(l.bin.is_none());
    assert_eq!((l.width, l.height, l.permits, l.sandbox), (800, 600, 2, false));
    assert_eq!(
        l.args,
        vec![
            "disable-dev-shm-usage",
            "disable-gpu",
            "hide-scrollbars",
            "force-color-profile=srgb",
        ]
    );
    match LaunchStep::Configure.failed("x") {
        ApiError::Internal(m) => assert_eq!(m, "chrome config: x"),
        other => panic!("{other:?}"),
    }
    match LaunchStep::Run.failed("x") {
        ApiError::Internal(m) => assert_eq!(m, "chrome launch: x"),
        other => panic!("{other:?}"),
    }
}

#[test]
fn browser_renders_web_pages_only() {
    assert_eq!(request("https://h/a").page().unwrap().href, "https://h/a");
    assert_eq!(bad_request(request("file:///etc/passwd").page()), "only http(s) urls allowed");
    assert_eq!(
        bad_request(request("x").page()),
        "invalid url: relative URL without a base"
    );
}

fn done(step: Render) -> Result<Vec<u8>, ApiError> {
    match step {
        Render::Done { result } => result,
        other => panic!("{other:?}"),
    }
}

fn ok() -> Outcome {
    Outcome::Finished(vec![])
}

#[test]
fn render_goes_through_all_steps() {
    let step = Render::start(true);
    let step = step.next(ok());
    assert!(matches!(step, Render::Metrics));
    let step = step.next(ok());
    assert!(matches!(step, Render::SetViewport));
    let step = step.next(ok());
    assert!(matches!(step, Render::Navigate));
    let step = step.next(ok());
    assert!(matches!(step, Render::Load));
    let step = step.next(ok());
    assert!(matches!(step, Render::Screenshot));
    let step = step.next(Outcome::Finished(vec![1, 2]));
    assert!(matches!(step, Render::Close { result: Ok(_) }));
    let step = step.next(Outcome::Failed("cannot close".to_string()));
    assert_eq!(done(step).unwrap(), vec![1, 2]);
}

#[test]
fn render_closes_its_page_on_errors() {
    let said = |step: Render, outcome: Outcome| match step.next(outcome) {
        Render::Close { result: Err(ApiError::Render(m)) } => m,
        Render::Close { result: Err(ApiError::Internal(m)) } => m,
        other => panic!("{other:?}"),
    };
    let no = || Outcome::Failed("no".to_string());
    assert_eq!(said(Render::Metrics, no()), "device metrics: no");
    assert_eq!(said(Render::SetViewport, no()), "set viewport: no");
    assert_eq!(said(Render::Navigate, no()), "navigate: no");
    assert_eq!(said(Render::Load, no()), "load: no");
    assert_eq!(said(Render::Screenshot, no()), "screenshot: no");
    assert_eq!(said(Render::Screenshot, ok()), "empty screenshot");
    for step in [Render::SetViewport, Render::Navigate, Render::Load, Render::Screenshot] {
        let step = step.next(Outcome::TimedOut);
        assert!(matches!(step, Render::Close { .. }));
        assert!(matches!(done(step.next(ok())), Err(ApiError::Timeout)));
    }
}

#[test]
fn render_without_a_page() {
    match done(Render::NewPage.next(Outcome::Failed("no".to_string()))) {
        Err(ApiError::Render(m)) => assert_eq!(m, "new page: no"),
        other => panic!("{other:?}"),
    }
    assert!(matches!(done(Render::NewPage.next(Outcome::TimedOut)), Err(ApiError::Timeout)));
    match done(Render::start(false)) {
        Err(ApiError::Internal(m)) => assert_eq!(m, "chrome engine closed"),
        other => panic!("{other:?}"),
    }
}

// --- Reloading --------------------------------------------------------------

#[test]
fn relevant_key_events() {
    for kind in [EventKind::Create, EventKind::Modify, EventKind::Remove] {
        assert!(is_relevant_key_event(kind, true));
        assert!(!is_relevant_key_event(kind, false));
    }
    for kind in [EventKind::Any, EventKind::Access, EventKind::Metadata, EventKind::Other] {
        assert!(!is_relevant_key_event(kind, true));
    }
}

#[test]
fn directory_is_watched() {
    assert_eq!(watch_target("/d/k", Some("/d"), false), "/d");
    assert_eq!(watch_target("k", Some(""), true), "k");
    assert_eq!(watch_target("/", None, true), "/");
}

#[test]
fn bursts_are_read_once() {
    let t = Trigger::Watch;
    let mut step = Reload::Wait.next(t, true);
    assert_eq!(step, Reload::Sleep);
    step = step.next(t, true);
    for _ in 0..5 {
        assert_eq!(step, Reload::Drain);
        step = step.next(t, true);
    }
    step = step.next(t, false);
    assert_eq!(step, Reload::Read);
    assert_eq!(step.next(t, true), Reload::Wait);
    assert_eq!(Reload::Wait.next(t, false), Reload::End);
    assert_eq!(Reload::Wait.next(Trigger::Hangup, true), Reload::Read);
}
