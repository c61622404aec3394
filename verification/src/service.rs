//! The service: which site each name stands for, what is cached for it, and
//! what each request is answered.
//!
//! A request for a name goes in two steps. `serve_start` answers at once
//! when the name is unknown (404) or when the site's feed was fetched less
//! than an hour ago (200, the cached feed); otherwise it asks the caller to
//! fetch the site's feed. `serve_finish` takes the outcome of that fetch: a
//! feed is cached and answered (200), an error is answered (500) and changes
//! nothing.

use vstd::prelude::*;

use crate::feed::opt_text;
use crate::page::text_result;
use crate::sites::SiteKind;

verus! {

/// How long a fetched feed is served from the cache: one hour, in
/// nanoseconds.
pub const FRESH_NANOS: u64 = 3_600_000_000_000u64;

/// A cached feed: when it was fetched (nanoseconds on the service's
/// monotonic clock) and its XML.
pub struct CacheModel {
    pub instant: u64,
    pub content: Seq<char>,
}

/// A site of the service: its name, the site, and its cached feed if any.
pub struct EntryModel {
    pub name: Seq<char>,
    pub site: SiteKind,
    pub cache: Option<CacheModel>,
}

/// An HTTP answer: status, `content-type` header if any, and body.
pub struct ResponseModel {
    pub status: u16,
    pub content_type: Option<Seq<char>>,
    pub body: Seq<char>,
}

/// What the first step of a request decides: answer now, or fetch a site's
/// feed first.
pub enum StepModel {
    Respond(ResponseModel),
    Fetch(SiteKind),
}

/// An HTTP answer.
pub struct Response {
    pub status: u16,
    pub content_type: Option<String>,
    pub body: String,
}

impl View for Response {
    type V = ResponseModel;

    open spec fn view(&self) -> ResponseModel {
        ResponseModel { status: self.status, content_type: opt_text(self.content_type), body: self.body@ }
    }
}

/// What the first step of a request decides.
pub enum Step {
    /// Answer the request with this.
    Respond(Response),
    /// Fetch this site's feed, then hand the outcome to `serve_finish`.
    Fetch(SiteKind),
}

impl View for Step {
    type V = StepModel;

    open spec fn view(&self) -> StepModel {
        match self {
            Step::Respond(r) => StepModel::Respond(r@),
            Step::Fetch(s) => StepModel::Fetch(*s),
        }
    }
}

/// The answer to a name that no site has.
pub open spec fn not_found() -> ResponseModel {
    ResponseModel { status: 404, content_type: None, body: "Not found"@ }
}

/// The answer that carries a feed.
pub open spec fn feed_response(content: Seq<char>) -> ResponseModel {
    ResponseModel { status: 200, content_type: Some("application/rss+xml"@), body: content }
}

/// The answer to a failed fetch: its message.
pub open spec fn error_response(message: Seq<char>) -> ResponseModel {
    ResponseModel { status: 500, content_type: None, body: message }
}

/// The answer that carries a feed.
pub fn build_resp(content: &str) -> (r: Response)
    ensures
        r@ == feed_response(content@),
{
    Response {
        status: 200,
        content_type: Some(String::from_str("application/rss+xml")),
        body: String::from_str(content),
    }
}

/// The position of the first entry with the name.
pub open spec fn find(s: Seq<EntryModel>, name: Seq<char>) -> Option<int>
    decreases s.len(),
{
    if s.len() == 0 {
        None
    } else {
        match find(s.drop_last(), name) {
            Some(i) => Some(i),
            None => if s.last().name == name {
                Some(s.len() - 1)
            } else {
                None
            },
        }
    }
}

/// A feed fetched at `instant` is still served at `now`: less than an hour
/// has passed (a clock read before the fetch counts as no time passed).
pub open spec fn fresh(instant: u64, now: u64) -> bool {
    now - instant < FRESH_NANOS
}

/// The first step of a request for `name` at `now`.
pub open spec fn start_step(s: Seq<EntryModel>, name: Seq<char>, now: u64) -> StepModel {
    match find(s, name) {
        None => StepModel::Respond(not_found()),
        Some(i) => match s[i].cache {
            Some(c) => if fresh(c.instant, now) {
                StepModel::Respond(feed_response(c.content))
            } else {
                StepModel::Fetch(s[i].site)
            },
            None => StepModel::Fetch(s[i].site),
        },
    }
}

/// The entries after the fetch for `name` ended with `outcome` at `now`: a
/// feed replaces the site's cache, an error changes nothing.
pub open spec fn finish_entries(
    s: Seq<EntryModel>,
    name: Seq<char>,
    outcome: Result<Seq<char>, Seq<char>>,
    now: u64,
) -> Seq<EntryModel> {
    match find(s, name) {
        None => s,
        Some(i) => match outcome {
            Ok(content) => s.update(
                i,
                EntryModel { cache: Some(CacheModel { instant: now, content }), ..s[i] },
            ),
            Err(_) => s,
        },
    }
}

/// The answer once the fetch for `name` ended with `outcome`.
pub open spec fn finish_response(
    s: Seq<EntryModel>,
    name: Seq<char>,
    outcome: Result<Seq<char>, Seq<char>>,
) -> ResponseModel {
    match find(s, name) {
        None => not_found(),
        Some(_) => match outcome {
            Ok(content) => feed_response(content),
            Err(message) => error_response(message),
        },
    }
}

/// A feed and when it was fetched.
struct Cache {
    instant: u64,
    content: String,
}

/// A site of the service and its cached feed.
pub struct Entry {
    site: SiteKind,
    cache: Option<Cache>,
}

/// The model of a cache.
spec fn cache_model(c: Option<Cache>) -> Option<CacheModel> {
    match c {
        Some(c) => Some(CacheModel { instant: c.instant, content: c.content@ }),
        None => None,
    }
}

/// The sites of the service, by name, with their caches.
pub struct Service {
    names: Vec<String>,
    entries: Vec<Entry>,
}

impl View for Service {
    type V = Seq<EntryModel>;

    closed spec fn view(&self) -> Seq<EntryModel> {
        Seq::new(
            self.names@.len(),
            |i: int|
                EntryModel {
                    name: self.names@[i]@,
                    site: self.entries@[i].site,
                    cache: cache_model(self.entries@[i].cache),
                },
        )
    }
}

/// The sites that the service serves, by name, none of them fetched yet.
pub open spec fn registry() -> Seq<EntryModel> {
    seq![
        EntryModel { name: "kouan"@, site: SiteKind::Kouan, cache: None },
        EntryModel { name: "hmc"@, site: SiteKind::HMC, cache: None },
        EntryModel { name: "jspp_hiroba"@, site: SiteKind::JsppHiroba, cache: None },
        EntryModel { name: "idwr"@, site: SiteKind::Idwr, cache: None },
        EntryModel { name: "aist_shisan"@, site: SiteKind::AistShisan, cache: None },
        EntryModel { name: "jamstec"@, site: SiteKind::Jamstec, cache: None },
    ]
}

/// A longer sequence keeps the first match of a prefix.
pub proof fn lemma_find_prefix(s: Seq<EntryModel>, name: Seq<char>, k: int)
    requires
        0 <= k <= s.len(),
        find(s.take(k), name) is Some,
    ensures
        find(s, name) == find(s.take(k), name),
    decreases s.len(),
{
    if k == s.len() {
        assert(s.take(k) =~= s);
    } else {
        assert(s.drop_last().take(k) =~= s.take(k));
        lemma_find_prefix(s.drop_last(), name, k);
    }
}

/// Where `find` finds something, it is in range and has the name.
pub proof fn lemma_find_found(s: Seq<EntryModel>, name: Seq<char>)
    ensures
        find(s, name) matches Some(i) ==> 0 <= i < s.len() && s[i].name == name,
        find(s, name) is None ==> forall|j: int| 0 <= j < s.len() ==> s[j].name != name,
    decreases s.len(),
{
    if s.len() > 0 {
        lemma_find_found(s.drop_last(), name);
        assert forall|j: int| 0 <= j < s.len() - 1 implies s[j] == s.drop_last()[j] by {}
    }
}

/// Only the names decide what `find` finds.
pub proof fn lemma_find_names(s: Seq<EntryModel>, t: Seq<EntryModel>, name: Seq<char>)
    requires
        s.len() == t.len(),
        forall|j: int| 0 <= j < s.len() ==> s[j].name == t[j].name,
    ensures
        find(s, name) == find(t, name),
    decreases s.len(),
{
    if s.len() > 0 {
        lemma_find_names(s.drop_last(), t.drop_last(), name);
    }
}

impl Service {
    /// Well formed: a name for each entry, and no name twice.
    pub closed spec fn wf(&self) -> bool {
        &&& self.names@.len() == self.entries@.len()
        &&& names_distinct(self@)
    }

    /// The service with its sites, none fetched yet.
    pub fn new() -> (s: Service)
        ensures
            s.wf(),
            s@ == registry(),
    {
        let mut names: Vec<String> = Vec::new();
        let mut entries: Vec<Entry> = Vec::new();
        names.push(String::from_str("kouan"));
        entries.push(Entry { site: SiteKind::Kouan, cache: None });
        names.push(String::from_str("hmc"));
        entries.push(Entry { site: SiteKind::HMC, cache: None });
        names.push(String::from_str("jspp_hiroba"));
        entries.push(Entry { site: SiteKind::JsppHiroba, cache: None });
        names.push(String::from_str("idwr"));
        entries.push(Entry { site: SiteKind::Idwr, cache: None });
        names.push(String::from_str("aist_shisan"));
        entries.push(Entry { site: SiteKind::AistShisan, cache: None });
        names.push(String::from_str("jamstec"));
        entries.push(Entry { site: SiteKind::Jamstec, cache: None });
        let s = Service { names, entries };
        assert(s@ =~= registry());
        proof { law_registry_names_are_distinct(); }
        s
    }

    /// The position of the entry with the name.
    fn lookup(&self, name: &str) -> (r: Option<usize>)
        requires
            self.wf(),
        ensures
            match r {
                Some(i) => find(self@, name@) == Some(i as int),
                None => find(self@, name@) is None,
            },
            r matches Some(i) ==> i < self.entries@.len() && self@[i as int].name == name@,
    {
        let key = String::from_str(name);
        let ghost s = self@;
        let n = self.names.len();
        assert(s.take(0) =~= Seq::<EntryModel>::empty());
        for i in 0..n
            invariant
                n == self.names@.len(),
                s == self@,
                self.wf(),
                key@ == name@,
                find(s.take(i as int), name@) is None,
        {
            assert(s.take(i + 1).drop_last() =~= s.take(i as int));
            assert(s.take(i + 1).last() == s[i as int]);
            if self.names[i] == key {
                proof {
                    lemma_find_prefix(s, name@, i + 1);
                    lemma_find_found(s, name@);
                }
                return Some(i);
            }
        }
        assert(s.take(n as int) =~= s);
        None
    }

    /// The first step of a request for `name` at `now` (nanoseconds on the
    /// service's monotonic clock): an answer, or the site to fetch.
    pub fn serve_start(&self, name: &str, now: u64) -> (step: Step)
        requires
            self.wf(),
        ensures
            step@ == start_step(self@, name@, now),
    {
        match self.lookup(name) {
            None => {
                proof { reveal_strlit("Not found"); }
                Step::Respond(Response { status: 404, content_type: None, body: String::from_str("Not found") })
            },
            Some(i) => {
                let entry = &self.entries[i];
                assert(self@[i as int].cache == cache_model(entry.cache));
                match &entry.cache {
                    Some(c) => {
                        if now < c.instant || now - c.instant < FRESH_NANOS {
                            Step::Respond(build_resp(c.content.as_str()))
                        } else {
                            Step::Fetch(entry.site)
                        }
                    },
                    None => Step::Fetch(entry.site),
                }
            },
        }
    }

    /// The second step of a request for `name`: the fetch ended at `now`
    /// with `outcome`, the feed's XML or an error's message.
    pub fn serve_finish(&mut self, name: &str, outcome: Result<String, String>, now: u64) -> (r: Response)
        requires
            old(self).wf(),
        ensures
            final(self).wf(),
            final(self)@ == finish_entries(old(self)@, name@, text_result(outcome), now),
            r@ == finish_response(old(self)@, name@, text_result(outcome)),
    {
        match self.lookup(name) {
            None => {
                Response { status: 404, content_type: None, body: String::from_str("Not found") }
            },
            Some(i) => match outcome {
                Ok(content) => {
                    let r = build_resp(content.as_str());
                    let site = self.entries[i].site;
                    let ghost before = self@;
                    self.entries.set(i, Entry { site, cache: Some(Cache { instant: now, content }) });
                    assert(self@ =~= finish_entries(before, name@, text_result(outcome), now));
                    assert forall|a: int, b: int| 0 <= a < self@.len() && 0 <= b < self@.len() && a != b
                        implies self@[a].name != self@[b].name by {
                        assert(self@[a].name == before[a].name && self@[b].name == before[b].name);
                    }
                    r
                },
                Err(message) => Response { status: 500, content_type: None, body: message },
            },
        }
    }
}

/// A feed fetched for a name is answered from the cache, without fetching,
/// to every request for that name that comes less than an hour later.
pub proof fn law_fresh_feed_is_served_from_cache(
    s: Seq<EntryModel>,
    name: Seq<char>,
    content: Seq<char>,
    fetched_at: u64,
    now: u64,
)
    requires
        find(s, name) is Some,
        now - fetched_at < FRESH_NANOS,
    ensures
        start_step(finish_entries(s, name, Ok(content), fetched_at), name, now)
            == StepModel::Respond(feed_response(content)),
{
    let i = find(s, name)->0;
    lemma_find_found(s, name);
    let t = finish_entries(s, name, Ok(content), fetched_at);
    lemma_find_names(s, t, name);
}

/// Once an hour or more has passed since a name's feed was fetched, a
/// request for it fetches the feed again.
pub proof fn law_stale_feed_is_fetched_again(
    s: Seq<EntryModel>,
    name: Seq<char>,
    content: Seq<char>,
    fetched_at: u64,
    now: u64,
)
    requires
        find(s, name) is Some,
        now - fetched_at >= FRESH_NANOS,
    ensures
        start_step(finish_entries(s, name, Ok(content), fetched_at), name, now)
            == StepModel::Fetch(s[find(s, name)->0].site),
{
    lemma_find_found(s, name);
    let t = finish_entries(s, name, Ok(content), fetched_at);
    lemma_find_names(s, t, name);
}

/// A site that was never fetched is fetched on its first request.
pub proof fn law_first_request_fetches(s: Seq<EntryModel>, name: Seq<char>, now: u64)
    requires
        find(s, name) matches Some(i) && s[i].cache is None,
    ensures
        start_step(s, name, now) == StepModel::Fetch(s[find(s, name)->0].site),
{
}

/// A name that no site has is answered 404 `Not found`, at the first step
/// and at the second, and changes nothing.
pub proof fn law_unknown_name_is_not_found(
    s: Seq<EntryModel>,
    name: Seq<char>,
    outcome: Result<Seq<char>, Seq<char>>,
    now: u64,
)
    requires
        forall|j: int| 0 <= j < s.len() ==> s[j].name != name,
    ensures
        start_step(s, name, now) == StepModel::Respond(not_found()),
        finish_entries(s, name, outcome, now) == s,
        finish_response(s, name, outcome) == not_found(),
{
    lemma_find_found(s, name);
}

/// A failed fetch is answered 500 with its message and changes nothing: the
/// feed cached before, if any, stays.
pub proof fn law_failed_fetch_changes_nothing(
    s: Seq<EntryModel>,
    name: Seq<char>,
    message: Seq<char>,
    now: u64,
)
    requires
        find(s, name) is Some,
    ensures
        finish_entries(s, name, Err(message), now) == s,
        finish_response(s, name, Err(message)) == error_response(message),
{
}

/// A successful fetch is answered 200 with the feed, as RSS.
pub proof fn law_fetched_feed_is_answered(
    s: Seq<EntryModel>,
    name: Seq<char>,
    content: Seq<char>,
)
    requires
        find(s, name) is Some,
    ensures
        finish_response(s, name, Ok(content)) == feed_response(content),
{
}

/// A fetch for one name changes what no other name is answered.
pub proof fn law_fetch_touches_one_site(
    s: Seq<EntryModel>,
    name: Seq<char>,
    outcome: Result<Seq<char>, Seq<char>>,
    fetched_at: u64,
    other: Seq<char>,
    now: u64,
)
    requires
        other != name,
    ensures
        start_step(finish_entries(s, name, outcome, fetched_at), other, now) == start_step(s, other, now),
{
    let t = finish_entries(s, name, outcome, fetched_at);
    lemma_find_found(s, name);
    lemma_find_found(s, other);
    lemma_find_names(s, t, other);
}

/// Each name of the registry stands for one site.
pub proof fn law_registry_names_are_distinct()
    ensures
        forall|i: int, j: int|
            0 <= i < registry().len() && 0 <= j < registry().len() && i != j
                ==> registry()[i].name != registry()[j].name,
{
    reveal_strlit("kouan");
    reveal_strlit("hmc");
    reveal_strlit("jspp_hiroba");
    reveal_strlit("idwr");
    reveal_strlit("aist_shisan");
    reveal_strlit("jamstec");
    let r = registry();
    assert forall|i: int, j: int|
        0 <= i < r.len() && 0 <= j < r.len() && i != j implies r[i].name != r[j].name by {
        assert(r[i].name.len() != r[j].name.len() || r[i].name[0] != r[j].name[0]);
    }
}

/// The end of a fetch, as `serve_finish` is handed it: the name, the
/// outcome, and the time.
pub struct FinishEvent {
    pub name: Seq<char>,
    pub outcome: Result<Seq<char>, Seq<char>>,
    pub at: u64,
}

/// The entries after the fetches of a history have ended, in order.
/// (`serve_start` changes nothing, so these are all the changes.)
pub open spec fn run(s: Seq<EntryModel>, h: Seq<FinishEvent>) -> Seq<EntryModel>
    decreases h.len(),
{
    if h.len() == 0 {
        s
    } else {
        let e = h.last();
        finish_entries(run(s, h.drop_last()), e.name, e.outcome, e.at)
    }
}

/// No two entries have the same name.
pub open spec fn names_distinct(s: Seq<EntryModel>) -> bool {
    forall|i: int, j: int| 0 <= i < s.len() && 0 <= j < s.len() && i != j ==> s[i].name != s[j].name
}

/// No fetch of the history for `name` succeeded.
pub open spec fn no_feed_fetched(h: Seq<FinishEvent>, name: Seq<char>) -> bool {
    forall|k: int| 0 <= k < h.len() && (#[trigger] h[k]).name == name ==> h[k].outcome is Err
}

/// Event `k` of the history is the last fetch for `name` that succeeded, and
/// it brought the feed `c` at `c`'s time.
pub open spec fn last_feed_fetched(h: Seq<FinishEvent>, k: int, name: Seq<char>, c: CacheModel) -> bool {
    &&& 0 <= k < h.len()
    &&& h[k].name == name
    &&& h[k].outcome == Ok::<Seq<char>, Seq<char>>(c.content)
    &&& h[k].at == c.instant
    &&& forall|k2: int| k < k2 < h.len() && (#[trigger] h[k2]).name == name ==> h[k2].outcome is Err
}

/// Where the cache of entry `i` comes from after the history `h`: the last
/// successful fetch for its name, or, where none succeeded, what it held
/// before.
pub open spec fn cache_provenance(s: Seq<EntryModel>, h: Seq<FinishEvent>, i: int) -> bool {
    match run(s, h)[i].cache {
        Some(c) => (exists|k: int| last_feed_fetched(h, k, s[i].name, c)) || (s[i].cache == Some(c)
            && no_feed_fetched(h, s[i].name)),
        None => s[i].cache is None && no_feed_fetched(h, s[i].name),
    }
}

/// A history keeps the entries, their names and their sites.
pub proof fn lemma_run_keeps_sites(s: Seq<EntryModel>, h: Seq<FinishEvent>)
    ensures
        run(s, h).len() == s.len(),
        forall|i: int| 0 <= i < s.len() ==> (#[trigger] run(s, h)[i]).name == s[i].name && run(s, h)[i].site == s[i].site,
    decreases h.len(),
{
    if h.len() > 0 {
        lemma_run_keeps_sites(s, h.drop_last());
        let t = run(s, h.drop_last());
        let e = h.last();
        lemma_find_found(t, e.name);
    }
}

/// Every cache holds what the last successful fetch for its name brought.
pub proof fn lemma_run_provenance(s: Seq<EntryModel>, h: Seq<FinishEvent>, i: int)
    requires
        names_distinct(s),
        0 <= i < s.len(),
    ensures
        cache_provenance(s, h, i),
    decreases h.len(),
{
    if h.len() == 0 {
        if let Some(c) = s[i].cache {
            assert(no_feed_fetched(h, s[i].name));
        }
    } else {
        let g = h.drop_last();
        let e = h.last();
        let n = s[i].name;
        lemma_run_provenance(s, g, i);
        lemma_run_keeps_sites(s, g);
        let t = run(s, g);
        lemma_find_found(t, e.name);
        assert(run(s, h) == finish_entries(t, e.name, e.outcome, e.at));
        assert forall|k: int| 0 <= k < g.len() implies #[trigger] h[k] == g[k] by {}
        let updated = find(t, e.name) == Some(i) && e.outcome is Ok;
        if updated {
            let c = CacheModel { instant: e.at, content: e.outcome->Ok_0 };
            assert(run(s, h)[i].cache == Some(c));
            assert(last_feed_fetched(h, h.len() - 1, n, c));
        } else {
            assert(run(s, h)[i] == t[i]);
            // The last fetch is for another name, or it failed.
            assert(e.name == n ==> e.outcome is Err) by {
                if e.name == n && e.outcome is Ok {
                    if let Some(j) = find(t, e.name) {
                        assert(t[j].name == n && s[j].name == n);
                        assert(j == i);
                    }
                }
            }
            match t[i].cache {
                Some(c) => {
                    if exists|k: int| last_feed_fetched(g, k, n, c) {
                        let k = choose|k: int| last_feed_fetched(g, k, n, c);
                        assert(last_feed_fetched(h, k, n, c));
                    } else {
                        assert(no_feed_fetched(h, n));
                    }
                },
                None => {
                    assert(no_feed_fetched(h, n));
                },
            }
        }
    }
}

/// Starting from the registry, whatever fetches end in whatever order, each
/// cached feed is the feed that the last successful fetch for that same name
/// brought, fetched at the cached time; a failed fetch is never cached, and
/// a site none of whose fetches succeeded has nothing cached.
pub proof fn law_cache_holds_last_fetched_feed(h: Seq<FinishEvent>)
    ensures
        run(registry(), h).len() == registry().len(),
        forall|i: int| 0 <= i < registry().len() ==> {
            let e = #[trigger] run(registry(), h)[i];
            &&& e.name == registry()[i].name
            &&& e.site == registry()[i].site
            &&& match e.cache {
                Some(c) => exists|k: int| last_feed_fetched(h, k, e.name, c),
                None => no_feed_fetched(h, e.name),
            }
        },
{
    let s = registry();
    law_registry_names_are_distinct();
    lemma_run_keeps_sites(s, h);
    assert forall|i: int| 0 <= i < s.len() implies {
        let e = #[trigger] run(s, h)[i];
        &&& e.name == s[i].name
        &&& e.site == s[i].site
        &&& match e.cache {
            Some(c) => exists|k: int| last_feed_fetched(h, k, e.name, c),
            None => no_feed_fetched(h, e.name),
        }
    } by {
        lemma_run_provenance(s, h, i);
        assert(s[i].cache is None);
    }
}

} // verus!
