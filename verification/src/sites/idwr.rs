//! The Infectious Diseases Weekly Report (IDWR) of Japan.

use chrono::Datelike;
use vstd::prelude::*;

use crate::feed::{item_models, permalink_item, permalink_item_of, Channel, ChannelModel, Item, ItemModel};
use crate::page::{
    check_url, css_select_headed, headed_models, join_url, select_headed, text_result, url_join,
    url_parse_error, HeadedLink, HeadedLinkModel,
};
use crate::sites::{
    filter_items, increasing_positions, item_positions, lemma_filter_items_positions,
    lemma_filter_items_some, build_view, channel_of, feed_outcome, finish_feed, site_channel, BuildError, BuildErrorModel,
    Site,
};
use crate::text::{decimal, decimal_of};

verus! {

/// The Infectious Diseases Weekly Report of Japan.
pub struct Idwr;

/// The calendar year, in Japan's time zone (`Asia/Tokyo`), of a time given in
/// seconds since the Unix epoch; `None` where chrono cannot represent that
/// time.
pub uninterp spec fn tokyo_year(unix_secs: i64) -> Option<int>;

/// `chrono::DateTime::from_timestamp(unix_secs, 0)`, moved to
/// `chrono_tz::Asia::Tokyo` with `with_timezone`, then `year()`. The contract
/// names the result; it states no calendar arithmetic.
#[verifier::external_body]
fn year_in_tokyo(unix_secs: i64) -> (y: Option<i32>)
    ensures
        tokyo_year(unix_secs) == match y {
            Some(v) => Some(v as int),
            None => None::<int>,
        },
{
    chrono::DateTime::from_timestamp(unix_secs, 0).map(|t| t.with_timezone(&chrono_tz::Asia::Tokyo).year())
}

/// The index page of the reports of a year.
pub open spec fn year_page(year: int) -> Seq<char> {
    "https://id-info.jihs.go.jp/surveillance/idwr/jp/idwr/"@ + decimal(year) + "/index.html"@
}

/// The links to the reports.
pub open spec fn link_selector() -> Seq<char> {
    "a.sizeview"@
}

/// The item of a report link: none without heading or `href`; else the
/// heading, and the `href` resolved against the page's address, or the
/// error of resolving it.
pub open spec fn report_item(base: Seq<char>, h: HeadedLinkModel) -> Result<Option<ItemModel>, Seq<char>> {
    match h.heading {
        None => Ok(None),
        Some(title) => match h.href {
            None => Ok(None),
            Some(href) => match url_join(base, href) {
                Ok(link) => Ok(Some(permalink_item(title, link))),
                Err(e) => Err(e),
            },
        },
    }
}

/// The items of the report links in page order, or the first error.
pub open spec fn report_items(base: Seq<char>, s: Seq<HeadedLinkModel>) -> Result<Seq<ItemModel>, Seq<char>>
    decreases s.len(),
{
    if s.len() == 0 {
        Ok(Seq::empty())
    } else {
        match report_items(base, s.drop_last()) {
            Err(e) => Err(e),
            Ok(rest) => match report_item(base, s.last()) {
                Err(e) => Err(e),
                Ok(None) => Ok(rest),
                Ok(Some(item)) => Ok(rest.push(item)),
            },
        }
    }
}

/// The first error of a prefix of the report links is the error of all of
/// them.
pub proof fn lemma_report_items_first_error(base: Seq<char>, s: Seq<HeadedLinkModel>, k: int)
    requires
        0 <= k <= s.len(),
        report_items(base, s.take(k)) is Err,
    ensures
        report_items(base, s) == report_items(base, s.take(k)),
    decreases s.len(),
{
    if k == s.len() {
        assert(s.take(k) =~= s);
    } else {
        assert(s.drop_last().take(k) =~= s.take(k));
        lemma_report_items_first_error(base, s.drop_last(), k);
    }
}

/// The channel of the reports.
pub open spec fn channel(items: Seq<ItemModel>) -> ChannelModel {
    site_channel(
        "感染症発生動向調査週報"@,
        "https://www.niid.go.jp/niid/ja/idwr.html"@,
        "平成11年4月1日から施行された感染症の予防及び感染症の患者に対する医療に関する法律（以下「感染症法」という。）に基づき、感染症法に規定された疾患の患者が、全国でどのくらい発生したのかを調査集計しています。"@,
        "Copyright 1998 National Institute of Infectious Diseases, Japan "@,
        items,
    )
}

/// The feed of the page downloaded from `url`: an address that does not
/// parse is an error; else one item per report link with heading and
/// `href`, in page order, where the first link that does not resolve is an
/// error and no item at all is one too.
pub open spec fn build(url: Seq<char>, page: Seq<char>) -> Result<ChannelModel, BuildErrorModel> {
    match url_parse_error(url) {
        Some(e) => Err(BuildErrorModel::InvalidUrl(e)),
        None => match css_select_headed(page, link_selector()) {
            None => Err(BuildErrorModel::InvalidSelector),
            Some(m) => match report_items(url, m) {
                Err(e) => Err(BuildErrorModel::InvalidUrl(e)),
                Ok(items) => if items.len() == 0 {
                    Err(BuildErrorModel::NoItems)
                } else {
                    Ok(channel(items))
                },
            },
        },
    }
}

impl Idwr {
    /// The index page of the reports of a year.
    pub fn year_page_of(year: i32) -> (u: String)
        ensures
            u@ == year_page(year as int),
    {
        String::from_str("https://id-info.jihs.go.jp/surveillance/idwr/jp/idwr/")
            .concat(decimal_of(year).as_str())
            .concat("/index.html")
    }

    /// The items of the report links, resolved against `base`, or the first
    /// error of resolving one.
    pub fn items(base: &str, links: &Vec<HeadedLink>) -> (r: Result<Vec<Item>, String>)
        ensures
            match r {
                Ok(items) => report_items(base@, headed_models(links@)) == Ok::<Seq<ItemModel>, Seq<char>>(item_models(items@)),
                Err(e) => report_items(base@, headed_models(links@)) == Err::<Seq<ItemModel>, Seq<char>>(e@),
            },
    {
        let ghost m = headed_models(links@);
        let mut items: Vec<Item> = Vec::new();
        let n = links.len();
        assert(m.take(0) =~= Seq::<HeadedLinkModel>::empty());
        assert(item_models(items@) =~= Seq::<ItemModel>::empty());
        for i in 0..n
            invariant
                n == links@.len(),
                m == headed_models(links@),
                report_items(base@, m.take(i as int)) == Ok::<Seq<ItemModel>, Seq<char>>(item_models(items@)),
        {
            let link = &links[i];
            assert(m[i as int] == link@);
            assert(m.take(i + 1).drop_last() =~= m.take(i as int));
            assert(m.take(i + 1).last() == m[i as int]);
            if link.heading.is_some() && link.href.is_some() {
                let title = crate::sites::present_text(&link.heading);
                let href = crate::sites::present_text(&link.href);
                match join_url(base, href.as_str()) {
                    Ok(resolved) => {
                        let ghost before = items@;
                        let item = permalink_item_of(title, resolved);
                        items.push(item);
                        assert(item_models(items@) =~= item_models(before).push(item@));
                    },
                    Err(e) => {
                        proof { lemma_report_items_first_error(base@, m, i + 1); }
                        return Err(e);
                    },
                }
            }
        }
        assert(m.take(n as int) =~= m);
        Ok(items)
    }

    /// The feed of the page downloaded from `url`.
    pub fn build_rss(url: &str, page: &str) -> (r: Result<Channel, BuildError>)
        ensures
            build_view(r) == build(url@, page@),
    {
        match check_url(url) {
            Some(e) => return Err(BuildError::InvalidUrl(e)),
            None => {},
        }
        let links = match select_headed(page, "a.sizeview") {
            Some(l) => l,
            None => return Err(BuildError::InvalidSelector),
        };
        let items = match Idwr::items(url, &links) {
            Ok(items) => items,
            Err(e) => return Err(BuildError::InvalidUrl(e)),
        };
        if items.len() == 0 {
            return Err(BuildError::NoItems);
        }
        Ok(channel_of(
            "感染症発生動向調査週報",
            "https://www.niid.go.jp/niid/ja/idwr.html",
            "平成11年4月1日から施行された感染症の予防及び感染症の患者に対する医療に関する法律（以下「感染症法」という。）に基づき、感染症法に規定された疾患の患者が、全国でどのくらい発生したのかを調査集計しています。",
            "Copyright 1998 National Institute of Infectious Diseases, Japan ",
            items,
        ))
    }
}

impl Site for Idwr {
    /// Every page: the feed's entries need nothing the page may lack.
    open spec fn admitted(&self, page_url: Seq<char>, page: Seq<char>) -> bool {
        true
    }

    fn admits(&self, page_url: &str, page: &str) -> (r: bool) {
        true
    }

    /// The index page of the current year in Japan.
    fn page_url(&self, unix_secs: i64) -> (r: Option<String>)
        ensures
            match tokyo_year(unix_secs) {
                Some(y) => r matches Some(u) && u@ == year_page(y),
                None => r is None,
            },
    {
        match year_in_tokyo(unix_secs) {
            Some(y) => Some(Idwr::year_page_of(y)),
            None => None,
        }
    }

    fn user_agent(&self) -> (r: Option<String>)
        ensures
            r is None,
    {
        None
    }

    fn feed(&self, page_url: &str, page: &str) -> (r: Result<String, String>)
        ensures
            text_result(r) == feed_outcome(build(page_url@, page@)),
    {
        finish_feed(Idwr::build_rss(page_url, page))
    }
}

/// A report link with heading and `href`.
pub open spec fn headed(h: HeadedLinkModel) -> bool {
    h.heading is Some && h.href is Some
}

/// Every report link with heading and `href` resolves against `base`.
pub open spec fn all_resolve(base: Seq<char>, s: Seq<HeadedLinkModel>) -> bool {
    forall|j: int| #![trigger s[j]] 0 <= j < s.len() && headed(s[j]) ==> url_join(base, s[j].href.unwrap()) is Ok
}

/// The item of a report link whose `href` resolves.
pub open spec fn resolved_item(base: Seq<char>, h: HeadedLinkModel) -> Option<ItemModel> {
    if headed(h) {
        Some(permalink_item(h.heading.unwrap(), url_join(base, h.href.unwrap())->Ok_0))
    } else {
        None
    }
}

/// `resolved_item` as a value.
pub open spec fn resolved_item_fn(base: Seq<char>) -> spec_fn(HeadedLinkModel) -> Option<ItemModel> {
    |h: HeadedLinkModel| resolved_item(base, h)
}

/// Where every report link resolves, the report items are those of
/// `resolved_item`.
pub proof fn lemma_report_items_resolved(base: Seq<char>, s: Seq<HeadedLinkModel>)
    requires
        all_resolve(base, s),
    ensures
        report_items(base, s) == Ok::<Seq<ItemModel>, Seq<char>>(filter_items(s, resolved_item_fn(base))),
    decreases s.len(),
{
    if s.len() > 0 {
        let t = s.drop_last();
        assert forall|j: int| #![trigger t[j]] 0 <= j < t.len() && headed(t[j]) implies url_join(base, t[j].href.unwrap()) is Ok by {
            assert(t[j] == s[j]);
        }
        lemma_report_items_resolved(base, t);
        assert(s.last() == s[s.len() - 1]);
    }
}

/// Where some report link with heading does not resolve, the reports have
/// no items but an error.
pub proof fn lemma_report_items_unresolved(base: Seq<char>, s: Seq<HeadedLinkModel>, j: int)
    requires
        0 <= j < s.len(),
        headed(s[j]),
        url_join(base, s[j].href.unwrap()) is Err,
    ensures
        report_items(base, s) is Err,
    decreases s.len(),
{
    if j < s.len() - 1 {
        assert(s.drop_last()[j] == s[j]);
        lemma_report_items_unresolved(base, s.drop_last(), j);
    } else {
        assert(s.last() == s[j]);
    }
}

/// The feed of the page downloaded from `url`: an address that does not
/// parse is an error, and so is a report link with heading and `href` that
/// does not resolve. Otherwise the feed lists, in page order, exactly the
/// report links with a heading and an `href`, each as its heading and its
/// `href` resolved against `url`; a page with no such link has no feed.
pub proof fn law_one_item_per_headed_report(url: Seq<char>, page: Seq<char>)
    ensures
        url_parse_error(url) matches Some(e) ==> build(url, page) == Err::<ChannelModel, BuildErrorModel>(BuildErrorModel::InvalidUrl(e)),
        url_parse_error(url) is None ==> match css_select_headed(page, link_selector()) {
            None => build(url, page) == Err::<ChannelModel, BuildErrorModel>(BuildErrorModel::InvalidSelector),
            Some(m) => {
                &&& !all_resolve(url, m) ==> (build(url, page) is Err && build(url, page)->Err_0 is InvalidUrl)
                &&& all_resolve(url, m) ==> {
                    &&& (build(url, page) is Ok <==> exists|j: int| #![trigger m[j]] 0 <= j < m.len() && headed(m[j]))
                    &&& build(url, page) matches Ok(c) ==> {
                        &&& c.title == "感染症発生動向調査週報"@
                        &&& exists|idx: Seq<int>| {
                            &&& idx.len() == c.items.len()
                            &&& increasing_positions(idx, m.len() as int)
                            &&& forall|j: int| #![trigger m[j]] 0 <= j < m.len() && headed(m[j])
                                ==> exists|k: int| 0 <= k < idx.len() && idx[k] == j
                            &&& forall|k: int| 0 <= k < idx.len() ==> {
                                let x = m[#[trigger] idx[k]];
                                &&& headed(x)
                                &&& url_join(url, x.href.unwrap()) is Ok
                                &&& c.items[k] == permalink_item(x.heading.unwrap(), url_join(url, x.href.unwrap())->Ok_0)
                            }
                        }
                    }
                }
            },
        },
{
    if url_parse_error(url) is None {
        if let Some(m) = css_select_headed(page, link_selector()) {
            if !all_resolve(url, m) {
                let j = choose|j: int| #![trigger m[j]] 0 <= j < m.len() && headed(m[j]) && !(url_join(url, m[j].href.unwrap()) is Ok);
                lemma_report_items_unresolved(url, m, j);
            } else {
                let s = m;
                let f = resolved_item_fn(url);
                lemma_report_items_resolved(url, s);
                lemma_filter_items_positions(s, f);
                lemma_filter_items_some(s, f);
                if build(url, page) is Ok {
                    let items = filter_items(s, f);
                    let idx = choose|idx: Seq<int>| item_positions(s, f, idx);
                    assert forall|k: int| 0 <= k < idx.len() implies {
                        let x = s[#[trigger] idx[k]];
                        &&& headed(x)
                        &&& url_join(url, x.href.unwrap()) is Ok
                        &&& items[k] == permalink_item(x.heading.unwrap(), url_join(url, x.href.unwrap())->Ok_0)
                    } by {
                        assert(f(s[idx[k]]) == Some(items[k]));
                    }
                    assert forall|j: int| #![trigger s[j]] 0 <= j < s.len() && headed(s[j])
                        implies exists|k: int| 0 <= k < idx.len() && idx[k] == j by {
                        assert(f(s[j]) is Some);
                    }
                    assert(build(url, page)->Ok_0.items == items);
                    assert(increasing_positions(idx, s.len() as int));
                }
                assert((exists|j: int| 0 <= j < s.len() && (#[trigger] f(s[j])) is Some) <==> (exists|j: int| #![trigger s[j]] 0 <= j < s.len() && headed(s[j]))) by {
                    if exists|j: int| #![trigger s[j]] 0 <= j < s.len() && headed(s[j]) {
                        let j = choose|j: int| #![trigger s[j]] 0 <= j < s.len() && headed(s[j]);
                        assert(f(s[j]) is Some);
                    }
                    if exists|j: int| 0 <= j < s.len() && (#[trigger] f(s[j])) is Some {
                        let j = choose|j: int| 0 <= j < s.len() && (#[trigger] f(s[j])) is Some;
                        assert(headed(s[j]));
                    }
                }
            }
        }
    }
}

} // verus!
