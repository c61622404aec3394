//! The press releases of JAMSTEC, the Japan Agency for Marine-Earth Science
//! and Technology.

use vstd::prelude::*;

use crate::feed::{item_models, permalink_item, permalink_item_of, Channel, ChannelModel, Item, ItemModel};
use crate::page::{css_select_nested, nested_models, select_nested, text_result, Nested, NestedModel};
use crate::sites::{
    build_view, channel_of, increasing_positions, item_positions, lemma_filter_items_positions,
    lemma_filter_items_some, feed_outcome, filter_items, finish_feed, present_text,
    lemma_filter_items_step, nested_all_linked, nested_linked, site_channel, BuildError,
    BuildErrorModel, Site,
};

verus! {

/// The press releases of JAMSTEC.
pub struct Jamstec;

/// The page that lists the press releases.
pub open spec fn page_address() -> Seq<char> {
    "https://www.jamstec.go.jp/j/about/press_release/"@
}

/// The links to the press releases.
pub open spec fn entry_selector() -> Seq<char> {
    "div.ly_contentCard_inner ul.page_newsroom_newsLinkWrapper a"@
}

/// The title inside a press release's link.
pub open spec fn title_selector() -> Seq<char> {
    "div.nr_newsLink_body div.nr_newsLink_text"@
}

/// The item of a press release: none without a title, else the first title,
/// and the site's address before the link's path.
pub open spec fn entry_item(n: NestedModel) -> Option<ItemModel> {
    if n.inner.len() == 0 {
        None
    } else {
        Some(permalink_item(n.inner[0].inner_html, "https://www.jamstec.go.jp"@ + n.href.unwrap()))
    }
}

/// `entry_item` as a value.
pub open spec fn entry_item_fn() -> spec_fn(NestedModel) -> Option<ItemModel> {
    |n: NestedModel| entry_item(n)
}

/// The channel of the press releases.
pub open spec fn channel(items: Seq<ItemModel>) -> ChannelModel {
    site_channel(
        "JAMSTEC | 海洋研究開発機構"@,
        "https://www.jamstec.go.jp/j/about/press_release/"@,
        "海洋研究開発機構（JAMSTEC ジャムステック）は、平和と福祉の理念に基づき、海洋に関する基盤的研究開発、海洋に関する学術研究に関する協力等の業務を総合的に行うことにより海洋科学技術の水準の向上を図るとともに、学術研究の発展に資することを目的とした組織です。"@,
        "© JAMSTEC, www.jamstec.go.jp"@,
        items,
    )
}

/// The feed of a page: one item per press-release link that holds a title,
/// in page order; none at all is an error. Every link must have an `href`.
pub open spec fn build(page: Seq<char>) -> Result<ChannelModel, BuildErrorModel> {
    match css_select_nested(page, entry_selector(), title_selector()) {
        None => Err(BuildErrorModel::InvalidSelector),
        Some(m) => if !nested_all_linked(m) {
            Err(BuildErrorModel::MissingLink)
        } else if filter_items(m, entry_item_fn()).len() == 0 {
            Err(BuildErrorModel::NoItems)
        } else {
            Ok(channel(filter_items(m, entry_item_fn())))
        },
    }
}

/// Every press-release link of the page has an `href`. A page with a press-release link without `href` is broken: `build_rss`
/// and `feed` take no such page, and `try_build_rss` answers it with an
/// error.
pub open spec fn admitted(page: Seq<char>) -> bool {
    css_select_nested(page, entry_selector(), title_selector()) matches Some(m) ==> nested_all_linked(m)
}

impl Jamstec {
    /// The items of the press-release links, one per link that holds a title.
    pub fn items(entries: &Vec<Nested>) -> (items: Vec<Item>)
        requires
            nested_all_linked(nested_models(entries@)),
        ensures
            item_models(items@) == filter_items(nested_models(entries@), entry_item_fn()),
    {
        let ghost m = nested_models(entries@);
        let mut items: Vec<Item> = Vec::new();
        let n = entries.len();
        for i in 0..n
            invariant
                n == entries@.len(),
                m == nested_models(entries@),
                nested_all_linked(m),
                item_models(items@) == filter_items(m.take(i as int), entry_item_fn()),
        {
            proof { lemma_filter_items_step(m, i as int, entry_item_fn()); }
            let entry = &entries[i];
            assert(m[i as int] == entry@);
            assert(m[i as int].href is Some);
            if entry.inner.len() > 0 {
                let link = String::from_str("https://www.jamstec.go.jp").concat(present_text(&entry.href).as_str());
                let item = permalink_item_of(entry.inner[0].inner_html.clone(), link);
                assert(entry@.inner[0] == entry.inner@[0]@);
                items.push(item);
                assert(item_models(items@) =~= filter_items(m.take(i as int), entry_item_fn()).push(item@));
            }
        }
        assert(m.take(n as int) =~= m);
        items
    }

    /// The feed of an admitted page.
    pub fn build_rss(page: &str) -> (r: Result<Channel, BuildError>)
        requires
            admitted(page@),
        ensures
            build_view(r) == build(page@),
    {
        let entries = match select_nested(
            page,
            "div.ly_contentCard_inner ul.page_newsroom_newsLinkWrapper a",
            "div.nr_newsLink_body div.nr_newsLink_text",
        ) {
            Some(e) => e,
            None => return Err(BuildError::InvalidSelector),
        };
        let items = Jamstec::items(&entries);
        if items.len() == 0 {
            return Err(BuildError::NoItems);
        }
        Ok(channel_of(
            "JAMSTEC | 海洋研究開発機構",
            "https://www.jamstec.go.jp/j/about/press_release/",
            "海洋研究開発機構（JAMSTEC ジャムステック）は、平和と福祉の理念に基づき、海洋に関する基盤的研究開発、海洋に関する学術研究に関する協力等の業務を総合的に行うことにより海洋科学技術の水準の向上を図るとともに、学術研究の発展に資することを目的とした組織です。",
            "© JAMSTEC, www.jamstec.go.jp",
            items,
        ))
    }

    /// Tells whether the page is one `build_rss` admits.
    pub fn admits(page: &str) -> (r: bool)
        ensures
            r == admitted(page@),
    {
        match select_nested(
            page,
            "div.ly_contentCard_inner ul.page_newsroom_newsLinkWrapper a",
            "div.nr_newsLink_body div.nr_newsLink_text",
        ) {
            Some(e) => nested_linked(&e),
            None => true,
        }
    }

    /// The feed of any page: `Err(MissingLink)` where the page is not admitted.
    pub fn try_build_rss(page: &str) -> (r: Result<Channel, BuildError>)
        ensures
            build_view(r) == build(page@),
    {
        if !Jamstec::admits(page) {
            return Err(BuildError::MissingLink);
        }
        Jamstec::build_rss(page)
    }
}

impl Site for Jamstec {
    open spec fn admitted(&self, page_url: Seq<char>, page: Seq<char>) -> bool {
        admitted(page)
    }

    fn admits(&self, page_url: &str, page: &str) -> (r: bool) {
        Jamstec::admits(page)
    }

    fn page_url(&self, unix_secs: i64) -> (r: Option<String>)
        ensures
            r matches Some(u) && u@ == page_address(),
    {
        Some(String::from_str("https://www.jamstec.go.jp/j/about/press_release/"))
    }

    fn user_agent(&self) -> (r: Option<String>)
        ensures
            r is None,
    {
        None
    }

    fn feed(&self, page_url: &str, page: &str) -> (r: Result<String, String>)
        ensures
            text_result(r) == feed_outcome(build(page@)),
    {
        finish_feed(Jamstec::build_rss(page))
    }
}

/// On a page without broken links, the feed lists, in page order, exactly
/// the press-release links that hold a title, each as its first title with
/// the agency's address before its `href`; a page with no such link has no
/// feed.
pub proof fn law_one_item_per_titled_release(page: Seq<char>)
    ensures
        match css_select_nested(page, entry_selector(), title_selector()) {
            None => build(page) == Err::<ChannelModel, BuildErrorModel>(BuildErrorModel::InvalidSelector),
            Some(m) => admitted(page) ==> {
                &&& (build(page) is Ok <==> exists|j: int| 0 <= j < m.len() && (#[trigger] m[j]).inner.len() > 0)
                &&& build(page) matches Ok(c) ==> {
                    &&& c.title == "JAMSTEC | 海洋研究開発機構"@
                    &&& exists|idx: Seq<int>| {
                        &&& idx.len() == c.items.len()
                        &&& increasing_positions(idx, m.len() as int)
                        &&& forall|j: int| 0 <= j < m.len() && (#[trigger] m[j]).inner.len() > 0
                            ==> exists|k: int| 0 <= k < idx.len() && idx[k] == j
                        &&& forall|k: int| 0 <= k < idx.len() ==> {
                            let x = m[#[trigger] idx[k]];
                            &&& x.inner.len() > 0
                            &&& c.items[k] == permalink_item(x.inner[0].inner_html, "https://www.jamstec.go.jp"@ + x.href.unwrap())
                        }
                    }
                }
            },
        },
{
    if let Some(m) = css_select_nested(page, entry_selector(), title_selector()) {
        let f = entry_item_fn();
        lemma_filter_items_positions(m, f);
        lemma_filter_items_some(m, f);
        assert forall|j: int| 0 <= j < m.len() implies (#[trigger] f(m[j]) is Some) == (m[j].inner.len() > 0) by {}
        if admitted(page) {
            if build(page) is Ok {
                let items = filter_items(m, f);
                let idx = choose|idx: Seq<int>| item_positions(m, f, idx);
                assert forall|k: int| 0 <= k < idx.len() implies {
                    let x = m[#[trigger] idx[k]];
                    &&& x.inner.len() > 0
                    &&& items[k] == permalink_item(x.inner[0].inner_html, "https://www.jamstec.go.jp"@ + x.href.unwrap())
                } by {
                    assert(f(m[idx[k]]) == Some(items[k]));
                }
                assert forall|j: int| 0 <= j < m.len() && (#[trigger] m[j]).inner.len() > 0
                    implies exists|k: int| 0 <= k < idx.len() && idx[k] == j by {
                    assert(f(m[j]) is Some);
                }
                assert(build(page)->Ok_0.items == items);
                assert(increasing_positions(idx, m.len() as int));
            }
            assert((build(page) is Ok) <==> filter_items(m, f).len() > 0);
            assert((exists|j: int| 0 <= j < m.len() && (#[trigger] f(m[j])) is Some) <==> (exists|j: int| 0 <= j < m.len() && (#[trigger] m[j]).inner.len() > 0)) by {
                if exists|j: int| 0 <= j < m.len() && (#[trigger] m[j]).inner.len() > 0 {
                    let j = choose|j: int| 0 <= j < m.len() && (#[trigger] m[j]).inner.len() > 0;
                    assert(f(m[j]) is Some);
                }
            }
        }
    }
}

} // verus!
