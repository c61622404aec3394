//! The sites that feeds are made from, and what they share.

use vstd::prelude::*;

use crate::feed::{item_models, opt_text, render, rss_xml, Channel, ChannelModel, Item, ItemModel};
use crate::page::{css_select, css_select_headed, css_select_nested, element_models, nested_models, text_result, Element, ElementModel, Nested, NestedModel};

pub mod aist_shisan;
pub mod akotsu;
pub mod hmc;
pub mod idwr;
pub mod jamstec;
pub mod jma;
pub mod jscpr;
pub mod jspp_hiroba;
pub mod kouan;
pub mod memo586;
pub mod tokushusagi;
pub mod windress;
pub mod yomoyomo;

pub use aist_shisan::AistShisan;
pub use akotsu::Akotsu;
pub use hmc::HMC;
pub use idwr::Idwr;
pub use jamstec::Jamstec;
pub use jma::Jma;
pub use jscpr::Jscpr;
pub use jspp_hiroba::JsppHiroba;
pub use kouan::Kouan;
pub use memo586::Memo586;
pub use tokushusagi::Tokushusagi;
pub use windress::Windress;
pub use yomoyomo::Yomoyomo;







verus! {

/// Why a page gave no feed, as a plain value.
pub enum BuildErrorModel {
    InvalidSelector,
    NewsNotFound,
    NoItems,
    MissingLink,
    MissingTitle,
    MissingCells,
    InvalidUrl(Seq<char>),
}

/// Why a page gave no feed.
pub enum BuildError {
    /// A selector of the site does not parse.
    InvalidSelector,
    /// The part of the page that holds the news is not there.
    NewsNotFound,
    /// The page lists no item.
    NoItems,
    /// A link that the site always gives has no `href`.
    MissingLink,
    /// An entry that the site always titles has no title.
    MissingTitle,
    /// A table row has cells, but fewer than the feed reads.
    MissingCells,
    /// A URL does not parse or join; the message is the url crate's.
    InvalidUrl(String),
}

impl View for BuildError {
    type V = BuildErrorModel;

    open spec fn view(&self) -> BuildErrorModel {
        match self {
            BuildError::InvalidSelector => BuildErrorModel::InvalidSelector,
            BuildError::NewsNotFound => BuildErrorModel::NewsNotFound,
            BuildError::NoItems => BuildErrorModel::NoItems,
            BuildError::MissingLink => BuildErrorModel::MissingLink,
            BuildError::MissingTitle => BuildErrorModel::MissingTitle,
            BuildError::MissingCells => BuildErrorModel::MissingCells,
            BuildError::InvalidUrl(m) => BuildErrorModel::InvalidUrl(m@),
        }
    }
}

/// The message that a failed fetch answers with.
pub open spec fn error_message(e: BuildErrorModel) -> Seq<char> {
    match e {
        BuildErrorModel::InvalidSelector => "[BUG] Invalid selector"@,
        BuildErrorModel::NewsNotFound => "News not found"@,
        BuildErrorModel::NoItems => "No items!"@,
        BuildErrorModel::MissingLink => "Failed to get link"@,
        BuildErrorModel::MissingTitle => "[BUG] No title"@,
        BuildErrorModel::MissingCells => "[BUG] Missing table cells"@,
        BuildErrorModel::InvalidUrl(m) => m,
    }
}

impl BuildError {
    /// The message that a failed fetch answers with.
    pub fn message(&self) -> (m: String)
        ensures
            m@ == error_message(self@),
    {
        match self {
            BuildError::InvalidSelector => String::from_str("[BUG] Invalid selector"),
            BuildError::NewsNotFound => String::from_str("News not found"),
            BuildError::NoItems => String::from_str("No items!"),
            BuildError::MissingLink => String::from_str("Failed to get link"),
            BuildError::MissingTitle => String::from_str("[BUG] No title"),
            BuildError::MissingCells => String::from_str("[BUG] Missing table cells"),
            BuildError::InvalidUrl(m) => m.clone(),
        }
    }
}

/// The plain-value view of a build's outcome.
pub open spec fn build_view(r: Result<Channel, BuildError>) -> Result<ChannelModel, BuildErrorModel> {
    match r {
        Ok(c) => Ok(c@),
        Err(e) => Err(e@),
    }
}

/// What a site's feed answers: the channel's XML, or the error's message.
pub open spec fn feed_outcome(b: Result<ChannelModel, BuildErrorModel>) -> Result<Seq<char>, Seq<char>> {
    match b {
        Ok(c) => Ok(rss_xml(c)),
        Err(e) => Err(error_message(e)),
    }
}

/// Turns a build's outcome into the feed's XML or the error's message.
pub fn finish_feed(built: Result<Channel, BuildError>) -> (r: Result<String, String>)
    ensures
        text_result(r) == feed_outcome(build_view(built)),
{
    match built {
        Ok(c) => Ok(render(&c)),
        Err(e) => Err(e.message()),
    }
}

/// The items that `f` makes of the elements of `s`, in order, skipping those
/// of which it makes none.
pub open spec fn filter_items<A>(s: Seq<A>, f: spec_fn(A) -> Option<ItemModel>) -> Seq<ItemModel>
    decreases s.len(),
{
    if s.len() == 0 {
        Seq::empty()
    } else {
        let rest = filter_items(s.drop_last(), f);
        match f(s.last()) {
            Some(item) => rest.push(item),
            None => rest,
        }
    }
}

/// One more element of `s` adds what `f` makes of it.
pub proof fn lemma_filter_items_step<A>(s: Seq<A>, i: int, f: spec_fn(A) -> Option<ItemModel>)
    requires
        0 <= i < s.len(),
    ensures
        filter_items(s.take(i + 1), f) == match f(s[i]) {
            Some(item) => filter_items(s.take(i), f).push(item),
            None => filter_items(s.take(i), f),
        },
{
    assert(s.take(i + 1).drop_last() =~= s.take(i));
}

/// A channel of a site: its fixed title, link, description and copyright,
/// the language `ja`, and the items.
pub open spec fn site_channel(
    title: Seq<char>,
    link: Seq<char>,
    description: Seq<char>,
    copyright: Seq<char>,
    items: Seq<ItemModel>,
) -> ChannelModel {
    ChannelModel { title, link, description, language: "ja"@, copyright, items }
}

/// Builds a channel in Japanese with the given fixed texts and items.
pub fn channel_of(
    title: &str,
    link: &str,
    description: &str,
    copyright: &str,
    items: Vec<Item>,
) -> (c: Channel)
    ensures
        c@ == site_channel(title@, link@, description@, copyright@, item_models(items@)),
{
    Channel {
        title: String::from_str(title),
        link: String::from_str(link),
        description: String::from_str(description),
        language: String::from_str("ja"),
        copyright: String::from_str(copyright),
        items,
    }
}

/// Every element picked by an outer selector has an `href`.
pub open spec fn nested_all_linked(m: Seq<NestedModel>) -> bool {
    forall|i: int| 0 <= i < m.len() ==> (#[trigger] m[i]).href is Some
}

/// Tells whether every outer element has an `href`.
pub fn nested_linked(entries: &Vec<Nested>) -> (r: bool)
    ensures
        r == nested_all_linked(nested_models(entries@)),
{
    let ghost m = nested_models(entries@);
    let n = entries.len();
    for i in 0..n
        invariant
            n == entries@.len(),
            m == nested_models(entries@),
            forall|j: int| 0 <= j < i ==> (#[trigger] m[j]).href is Some,
    {
        assert(m[i as int] == entries@[i as int]@);
        if entries[i].href.is_none() {
            return false;
        }
    }
    true
}

/// Every element has an `href`.
pub open spec fn elements_all_linked(m: Seq<ElementModel>) -> bool {
    forall|i: int| 0 <= i < m.len() ==> (#[trigger] m[i]).href is Some
}

/// Tells whether every element has an `href`.
pub fn elements_linked(elements: &Vec<Element>) -> (r: bool)
    ensures
        r == elements_all_linked(element_models(elements@)),
{
    let ghost m = element_models(elements@);
    let n = elements.len();
    for i in 0..n
        invariant
            n == elements@.len(),
            m == element_models(elements@),
            forall|j: int| 0 <= j < i ==> (#[trigger] m[j]).href is Some,
    {
        assert(m[i as int] == elements@[i as int]@);
        if elements[i].href.is_none() {
            return false;
        }
    }
    true
}

/// The text of an optional string that is there.
pub fn present_text(href: &Option<String>) -> (s: String)
    requires
        href is Some,
    ensures
        Some(s@) == crate::feed::opt_text(*href),
{
    match href {
        Some(h) => h.clone(),
        None => String::new(),
    }
}

/// A web site that a feed is made from.
pub trait Site {
    /// The address of the page that the feed is made from, at a time given
    /// in seconds since the Unix epoch; `None` where that time is outside
    /// the calendar's range.
    fn page_url(&self, unix_secs: i64) -> Option<String>;

    /// The `User-Agent` to send when downloading the page, where the site
    /// needs one.
    fn user_agent(&self) -> Option<String>;

    /// The pages the site's feed can be made from: those whose listed
    /// entries hold what every entry of the site must hold (a link, a title,
    /// enough table cells). A page without it is a broken page.
    spec fn admitted(&self, page_url: Seq<char>, page: Seq<char>) -> bool;

    /// Tells whether the feed can be made from the page.
    fn admits(&self, page_url: &str, page: &str) -> (r: bool)
        ensures
            r == self.admitted(page_url@, page@),
    ;

    /// The feed's RSS document made from the page downloaded from
    /// `page_url`, or the message of why none could be made.
    fn feed(&self, page_url: &str, page: &str) -> Result<String, String>
        requires
            self.admitted(page_url@, page@),
    ;
}

/// One of the sites, as a value that an entry of the service can hold.
#[derive(Clone, Copy, PartialEq, Eq, Structural)]
pub enum SiteKind {
    AistShisan,
    Akotsu,
    HMC,
    Idwr,
    Jamstec,
    Jma,
    Jscpr,
    JsppHiroba,
    Kouan,
    Memo586,
    Tokushusagi,
    Windress,
    Yomoyomo,
}

/// The feed that a site makes of the page downloaded from `url`.
pub open spec fn site_build(site: SiteKind, url: Seq<char>, page: Seq<char>) -> Result<ChannelModel, BuildErrorModel> {
    match site {
        SiteKind::AistShisan => aist_shisan::build(page),
        SiteKind::Akotsu => akotsu::build(page),
        SiteKind::HMC => hmc::build(page),
        SiteKind::Idwr => idwr::build(url, page),
        SiteKind::Jamstec => jamstec::build(page),
        SiteKind::Jma => jma::build(page),
        SiteKind::Jscpr => jscpr::build(page),
        SiteKind::JsppHiroba => jspp_hiroba::build(page),
        SiteKind::Kouan => kouan::build(page),
        SiteKind::Memo586 => memo586::build(page),
        SiteKind::Tokushusagi => tokushusagi::build(page),
        SiteKind::Windress => windress::build(page),
        SiteKind::Yomoyomo => yomoyomo::build(page),
    }
}

/// The page a site's feed is made from, at a time in seconds since the
/// Unix epoch.
pub open spec fn site_page(site: SiteKind, unix_secs: i64) -> Option<Seq<char>> {
    match site {
        SiteKind::AistShisan => Some(aist_shisan::page_address()),
        SiteKind::Akotsu => Some(akotsu::page_address()),
        SiteKind::HMC => Some(hmc::page_address()),
        SiteKind::Idwr => match idwr::tokyo_year(unix_secs) {
            Some(y) => Some(idwr::year_page(y)),
            None => None,
        },
        SiteKind::Jamstec => Some(jamstec::page_address()),
        SiteKind::Jma => Some(jma::page_address()),
        SiteKind::Jscpr => Some(jscpr::page_address()),
        SiteKind::JsppHiroba => Some(jspp_hiroba::page_address()),
        SiteKind::Kouan => Some(kouan::page_address()),
        SiteKind::Memo586 => Some(memo586::page_address()),
        SiteKind::Tokushusagi => Some(tokushusagi::page_address()),
        SiteKind::Windress => Some(windress::page_address()),
        SiteKind::Yomoyomo => Some(yomoyomo::page_address()),
    }
}

/// The pages a site's feed can be made from.
pub open spec fn site_admitted(site: SiteKind, page: Seq<char>) -> bool {
    match site {
        SiteKind::AistShisan => aist_shisan::admitted(page),
        SiteKind::HMC => hmc::admitted(page),
        SiteKind::Jamstec => jamstec::admitted(page),
        SiteKind::Jma => jma::admitted(page),
        SiteKind::Tokushusagi => tokushusagi::admitted(page),
        _ => true,
    }
}

impl Site for SiteKind {
    open spec fn admitted(&self, page_url: Seq<char>, page: Seq<char>) -> bool {
        site_admitted(*self, page)
    }

    fn admits(&self, page_url: &str, page: &str) -> (r: bool) {
        match self {
            SiteKind::AistShisan => AistShisan.admits(page_url, page),
            SiteKind::HMC => HMC {}.admits(page_url, page),
            SiteKind::Jamstec => Jamstec.admits(page_url, page),
            SiteKind::Jma => Jma {}.admits(page_url, page),
            SiteKind::Tokushusagi => Tokushusagi.admits(page_url, page),
            _ => true,
        }
    }

    fn page_url(&self, unix_secs: i64) -> (r: Option<String>)
        ensures
            opt_text(r) == site_page(*self, unix_secs),
    {
        match self {
            SiteKind::AistShisan => AistShisan.page_url(unix_secs),
            SiteKind::Akotsu => Akotsu.page_url(unix_secs),
            SiteKind::HMC => HMC {}.page_url(unix_secs),
            SiteKind::Idwr => Idwr.page_url(unix_secs),
            SiteKind::Jamstec => Jamstec.page_url(unix_secs),
            SiteKind::Jma => Jma {}.page_url(unix_secs),
            SiteKind::Jscpr => Jscpr.page_url(unix_secs),
            SiteKind::JsppHiroba => JsppHiroba {}.page_url(unix_secs),
            SiteKind::Kouan => Kouan {}.page_url(unix_secs),
            SiteKind::Memo586 => Memo586.page_url(unix_secs),
            SiteKind::Tokushusagi => Tokushusagi.page_url(unix_secs),
            SiteKind::Windress => Windress.page_url(unix_secs),
            SiteKind::Yomoyomo => Yomoyomo.page_url(unix_secs),
        }
    }

    fn user_agent(&self) -> (r: Option<String>)
        ensures
            opt_text(r) == (if *self == SiteKind::Windress { Some(windress::agent()) } else { None }),
    {
        match self {
            SiteKind::Windress => Windress.user_agent(),
            _ => None,
        }
    }

    fn feed(&self, page_url: &str, page: &str) -> (r: Result<String, String>)
        ensures
            text_result(r) == feed_outcome(site_build(*self, page_url@, page@)),
    {
        match self {
            SiteKind::AistShisan => AistShisan.feed(page_url, page),
            SiteKind::Akotsu => Akotsu.feed(page_url, page),
            SiteKind::HMC => HMC {}.feed(page_url, page),
            SiteKind::Idwr => Idwr.feed(page_url, page),
            SiteKind::Jamstec => Jamstec.feed(page_url, page),
            SiteKind::Jma => Jma {}.feed(page_url, page),
            SiteKind::Jscpr => Jscpr.feed(page_url, page),
            SiteKind::JsppHiroba => JsppHiroba {}.feed(page_url, page),
            SiteKind::Kouan => Kouan {}.feed(page_url, page),
            SiteKind::Memo586 => Memo586.feed(page_url, page),
            SiteKind::Tokushusagi => Tokushusagi.feed(page_url, page),
            SiteKind::Windress => Windress.feed(page_url, page),
            SiteKind::Yomoyomo => Yomoyomo.feed(page_url, page),
        }
    }
}

/// The item's link is its GUID, and the GUID is marked as a permalink.
pub open spec fn is_permalink(item: ItemModel) -> bool {
    item.link == Some(item.guid.value) && item.guid.permalink
}

/// Where `f` makes only permalink items, so does `filter_items`.
pub proof fn lemma_filter_items_permalinks<A>(s: Seq<A>, f: spec_fn(A) -> Option<ItemModel>)
    requires
        forall|a: A| (#[trigger] f(a)) matches Some(item) ==> is_permalink(item),
    ensures
        forall|i: int| 0 <= i < filter_items(s, f).len() ==> is_permalink(#[trigger] filter_items(s, f)[i]),
    decreases s.len(),
{
    if s.len() > 0 {
        lemma_filter_items_permalinks(s.drop_last(), f);
        let rest = filter_items(s.drop_last(), f);
        let all = filter_items(s, f);
        assert forall|i: int| 0 <= i < all.len() implies is_permalink(#[trigger] all[i]) by {
            if i < rest.len() {
                assert(all[i] == rest[i]);
            } else {
                assert(f(s.last()) matches Some(item) && all[i] == item);
            }
        }
    }
}

/// Where the items of the IDWR reports can be made, each is a permalink.
pub proof fn lemma_report_items_permalinks(base: Seq<char>, s: Seq<crate::page::HeadedLinkModel>)
    ensures
        idwr::report_items(base, s) matches Ok(items) ==> forall|i: int|
            0 <= i < items.len() ==> is_permalink(#[trigger] items[i]),
    decreases s.len(),
{
    if s.len() > 0 {
        lemma_report_items_permalinks(base, s.drop_last());
    }
}

/// Every feed is in Japanese; and every item of the sites that link their
/// items to pages of their own (all but `kouan`, `windress` and
/// `aist_shisan`) has its link as its GUID, marked as a permalink.
pub proof fn law_feed_items_are_permalinks(site: SiteKind, url: Seq<char>, page: Seq<char>)
    ensures
        site_build(site, url, page) matches Ok(c) ==> c.language == "ja"@,
        site != SiteKind::Kouan && site != SiteKind::Windress && site != SiteKind::AistShisan
            ==> (site_build(site, url, page) matches Ok(c) ==> forall|i: int|
            0 <= i < c.items.len() ==> is_permalink(#[trigger] c.items[i])),
{
    match site {
        SiteKind::Akotsu => {
            if let Some(m) = css_select_nested(page, akotsu::contents_selector(), akotsu::post_selector()) {
                if m.len() > 0 {
                    lemma_filter_items_permalinks(m[0].inner, akotsu::post_item_fn());
                }
            }
        },
        SiteKind::HMC => {
            if let Some(m) = css_select_nested(page, hmc::entry_selector(), hmc::title_selector()) {
                lemma_filter_items_permalinks(m, hmc::entry_item_fn());
            }
        },
        SiteKind::Idwr => {
            if let Some(m) = css_select_headed(page, idwr::link_selector()) {
                lemma_report_items_permalinks(url, m);
            }
        },
        SiteKind::Jamstec => {
            if let Some(m) = css_select_nested(page, jamstec::entry_selector(), jamstec::title_selector()) {
                lemma_filter_items_permalinks(m, jamstec::entry_item_fn());
            }
        },
        SiteKind::Jma => {
            if let Some(m) = css_select(page, jma::entry_selector()) {
                lemma_filter_items_permalinks(m, jma::entry_item_fn());
            }
        },
        SiteKind::Jscpr => {
            if let Some(m) = css_select_nested(page, jscpr::entry_selector(), jscpr::title_selector()) {
                lemma_filter_items_permalinks(m, jscpr::entry_item_fn());
            }
        },
        SiteKind::JsppHiroba => {
            if let Some(m) = css_select_nested(page, jspp_hiroba::table_selector(), jspp_hiroba::link_selector()) {
                if m.len() > 0 {
                    lemma_filter_items_permalinks(m[0].inner, jspp_hiroba::question_item_fn());
                }
            }
        },
        SiteKind::Memo586 => {
            if let Some(m) = css_select(page, memo586::entry_selector()) {
                lemma_filter_items_permalinks(m, memo586::entry_item_fn());
            }
        },
        SiteKind::Tokushusagi => {
            if let Some(m) = css_select_nested(page, tokushusagi::entry_selector(), tokushusagi::title_selector()) {
                lemma_filter_items_permalinks(m, tokushusagi::entry_item_fn());
            }
        },
        SiteKind::Yomoyomo => {
            if let Some(m) = css_select_nested(page, yomoyomo::entry_selector(), yomoyomo::title_selector()) {
                lemma_filter_items_permalinks(m, yomoyomo::entry_item_fn());
            }
        },
        _ => {},
    }
}

/// The sites that answer "No items!" for a page without items never give
/// an empty feed: all but `hmc`, `jma`, `kouan` and `jspp_hiroba`.
pub proof fn law_feed_is_never_empty(site: SiteKind, url: Seq<char>, page: Seq<char>)
    requires
        site != SiteKind::HMC && site != SiteKind::Jma && site != SiteKind::Kouan
            && site != SiteKind::JsppHiroba,
    ensures
        site_build(site, url, page) matches Ok(c) ==> c.items.len() > 0,
{
    if site == SiteKind::Windress {
        if let Some(m) = css_select(page, windress::entry_selector()) {
            if m.len() > 0 {
                assert(filter_items(m.take(1), windress::entry_item_fn()).len() == 1) by {
                    lemma_filter_items_step(m, 0, windress::entry_item_fn());
                    assert(m.take(0) =~= Seq::<ElementModel>::empty());
                }
                lemma_filter_items_grows(m, 1, windress::entry_item_fn());
            }
        }
    }
}

/// A longer sequence has no fewer items than its prefixes.
pub proof fn lemma_filter_items_grows<A>(s: Seq<A>, k: int, f: spec_fn(A) -> Option<ItemModel>)
    requires
        0 <= k <= s.len(),
    ensures
        filter_items(s.take(k), f).len() <= filter_items(s, f).len(),
    decreases s.len(),
{
    if k == s.len() {
        assert(s.take(k) =~= s);
    } else {
        assert(s.drop_last().take(k) =~= s.take(k));
        lemma_filter_items_grows(s.drop_last(), k, f);
    }
}

/// `idx` is a list of positions below `n` in increasing order.
pub open spec fn increasing_positions(idx: Seq<int>, n: int) -> bool {
    &&& forall|k: int| 0 <= k < idx.len() ==> 0 <= #[trigger] idx[k] < n
    &&& forall|k1: int, k2: int| 0 <= k1 < k2 < idx.len() ==> idx[k1] < idx[k2]
}

/// The positions that `filter_items` makes items of: the items are, in
/// order, what `f` makes of exactly the elements it makes one of.
pub open spec fn item_positions<A>(s: Seq<A>, f: spec_fn(A) -> Option<ItemModel>, idx: Seq<int>) -> bool {
    &&& idx.len() == filter_items(s, f).len()
    &&& increasing_positions(idx, s.len() as int)
    &&& forall|k: int| 0 <= k < idx.len() ==> f(s[#[trigger] idx[k]]) == Some(filter_items(s, f)[k])
    &&& forall|j: int| 0 <= j < s.len() && (#[trigger] f(s[j])) is Some ==> exists|k: int| 0 <= k < idx.len() && idx[k] == j
}

/// `filter_items` keeps every element `f` makes an item of, and only those,
/// in order.
pub proof fn lemma_filter_items_positions<A>(s: Seq<A>, f: spec_fn(A) -> Option<ItemModel>)
    ensures
        exists|idx: Seq<int>| item_positions(s, f, idx),
    decreases s.len(),
{
    if s.len() == 0 {
        assert(item_positions(s, f, Seq::<int>::empty()));
    } else {
        let t = s.drop_last();
        lemma_filter_items_positions(t, f);
        let idx0 = choose|idx: Seq<int>| item_positions(t, f, idx);
        let last = s.len() - 1;
        assert forall|j: int| 0 <= j < t.len() implies t[j] == s[j] by {}
        let idx = if f(s.last()) is Some { idx0.push(last) } else { idx0 };
        assert forall|j: int| 0 <= j < s.len() && (#[trigger] f(s[j])) is Some
            implies exists|k: int| 0 <= k < idx.len() && idx[k] == j by {
            if j < last {
                assert(f(t[j]) is Some);
                let k = choose|k: int| 0 <= k < idx0.len() && idx0[k] == j;
                assert(idx[k] == j);
            } else {
                assert(idx[idx.len() - 1] == j);
            }
        }
        assert forall|k: int| 0 <= k < idx.len() implies f(s[#[trigger] idx[k]]) == Some(filter_items(s, f)[k]) by {
            if k < idx0.len() {
                assert(idx0[k] == idx[k]);
                assert(f(t[idx0[k]]) == Some(filter_items(t, f)[k]));
            }
        }
        assert forall|k: int| 0 <= k < idx.len() implies 0 <= #[trigger] idx[k] < s.len() by {
            if k < idx0.len() {
                assert(idx0[k] == idx[k]);
            }
        }
        assert(increasing_positions(idx, s.len() as int));
        assert(item_positions(s, f, idx));
    }
}

/// Where `f` makes an item of every element, `filter_items` makes one per
/// element, at the same position.
pub proof fn lemma_filter_items_every<A>(s: Seq<A>, f: spec_fn(A) -> Option<ItemModel>)
    requires
        forall|j: int| 0 <= j < s.len() ==> (#[trigger] f(s[j])) is Some,
    ensures
        filter_items(s, f).len() == s.len(),
        forall|k: int| 0 <= k < s.len() ==> f(s[k]) == Some(#[trigger] filter_items(s, f)[k]),
    decreases s.len(),
{
    if s.len() > 0 {
        let t = s.drop_last();
        assert forall|j: int| 0 <= j < t.len() implies (#[trigger] f(t[j])) is Some by {
            assert(t[j] == s[j]);
        }
        lemma_filter_items_every(t, f);
        assert(f(s[s.len() - 1]) is Some);
        assert forall|k: int| 0 <= k < s.len() implies f(s[k]) == Some(#[trigger] filter_items(s, f)[k]) by {
            if k < t.len() {
                assert(t[k] == s[k]);
            }
        }
    }
}

/// `filter_items` makes some item exactly when `f` makes one of some
/// element.
pub proof fn lemma_filter_items_some<A>(s: Seq<A>, f: spec_fn(A) -> Option<ItemModel>)
    ensures
        filter_items(s, f).len() > 0 <==> exists|j: int| 0 <= j < s.len() && (#[trigger] f(s[j])) is Some,
{
    lemma_filter_items_positions(s, f);
    let idx = choose|idx: Seq<int>| item_positions(s, f, idx);
    if filter_items(s, f).len() > 0 {
        assert(f(s[idx[0]]) is Some);
    }
    if exists|j: int| 0 <= j < s.len() && (#[trigger] f(s[j])) is Some {
        let j = choose|j: int| 0 <= j < s.len() && (#[trigger] f(s[j])) is Some;
        let k = choose|k: int| 0 <= k < idx.len() && idx[k] == j;
        assert(idx.len() > 0);
    }
}

} // verus!
