use net_stalker::service::{Response, Service, Step, FRESH_NANOS};
use net_stalker::sites::SiteKind;

fn respond(step: Step) -> Response {
    match step {
        Step::Respond(r) => r,
        Step::Fetch(_) => panic!("expected an answer"),
    }
}

fn fetch(step: Step) -> SiteKind {
    match step {
        Step::Fetch(s) => s,
        Step::Respond(_) => panic!("expected a fetch"),
    }
}

#[test]
fn unknown_name_is_not_found() {
    let mut s = Service::new();
    let r = respond(s.serve_start("nothing", 0));
    assert_eq!(r.status, 404);
    assert_eq!(r.body, "Not found");
    assert_eq!(r.content_type, None);
    let r = s.serve_finish("nothing", Ok("x".to_string()), 0);
    assert_eq!(r.status, 404);
}

#[test]
fn registered_sites_are_fetched_first() {
    let s = Service::new();
    assert!(fetch(s.serve_start("hmc", 0)) == SiteKind::HMC);
    assert!(fetch(s.serve_start("kouan", 0)) == SiteKind::Kouan);
    assert!(fetch(s.serve_start("jspp_hiroba", 0)) == SiteKind::JsppHiroba);
    assert!(fetch(s.serve_start("idwr", 0)) == SiteKind::Idwr);
    assert!(fetch(s.serve_start("aist_shisan", 0)) == SiteKind::AistShisan);
    assert!(fetch(s.serve_start("jamstec", 0)) == SiteKind::Jamstec);
    assert_eq!(respond(s.serve_start("jma", 0)).status, 404);
}

#[test]
fn fetched_feed_is_cached_for_an_hour() {
    let mut s = Service::new();
    let t = 1_000_000u64;
    let r = s.serve_finish("hmc", Ok("<rss/>".to_string()), t);
    assert_eq!(r.status, 200);
    assert_eq!(r.body, "<rss/>");
    assert_eq!(r.content_type.as_deref(), Some("application/rss+xml"));
    let r = respond(s.serve_start("hmc", t + FRESH_NANOS - 1));
    assert_eq!(r.status, 200);
    assert_eq!(r.body, "<rss/>");
    // A clock read before the fetch counts as no time passed.
    assert_eq!(respond(s.serve_start("hmc", t - 1)).body, "<rss/>");
    assert!(fetch(s.serve_start("hmc", t + FRESH_NANOS)) == SiteKind::HMC);
    // Other sites are untouched.
    assert!(fetch(s.serve_start("kouan", t)) == SiteKind::Kouan);
}

#[test]
fn failed_fetch_keeps_the_cache() {
    let mut s = Service::new();
    s.serve_finish("kouan", Ok("old".to_string()), 0);
    let r = s.serve_finish("kouan", Err("No items!".to_string()), 10);
    assert_eq!(r.status, 500);
    assert_eq!(r.body, "No items!");
    assert_eq!(respond(s.serve_start("kouan", 20)).body, "old");
    let r = s.serve_finish("kouan", Ok("new".to_string()), 30);
    assert_eq!(r.body, "new");
    assert_eq!(respond(s.serve_start("kouan", 40)).body, "new");
}

#[test]
fn build_resp_is_rss() {
    let r = net_stalker::service::build_resp("abc");
    assert_eq!(r.status, 200);
    assert_eq!(r.body, "abc");
    assert_eq!(r.content_type.as_deref(), Some("application/rss+xml"));
}

#[test]
fn cache_holds_last_successful_fetch() {
    let mut s = Service::new();
    s.serve_finish("hmc", Ok("first".to_string()), 1);
    s.serve_finish("kouan", Ok("other".to_string()), 2);
    s.serve_finish("hmc", Ok("second".to_string()), 3);
    s.serve_finish("hmc", Err("down".to_string()), 4);
    assert_eq!(respond(s.serve_start("hmc", 5)).body, "second");
    assert_eq!(respond(s.serve_start("kouan", 5)).body, "other");
    assert!(fetch(s.serve_start("jamstec", 5)) == SiteKind::Jamstec);
}
