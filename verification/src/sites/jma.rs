//! The news of the Japan Meteorological Agency.

use vstd::prelude::*;

use crate::feed::{item_models, permalink_item, permalink_item_of, Channel, ChannelModel, Item, ItemModel};
use crate::page::{css_select, element_models, select, text_result, Element, ElementModel};
use crate::sites::{
    lemma_filter_items_every,
    build_view, channel_of, elements_all_linked, elements_linked, feed_outcome, filter_items,
    finish_feed, present_text, lemma_filter_items_step, site_channel, BuildError, BuildErrorModel, Site,
};

verus! {

/// The news of the Japan Meteorological Agency.
pub struct Jma {}

/// The page that holds the news.
pub open spec fn page_address() -> Seq<char> {
    "https://www.jma.go.jp/jma/index.html"@
}

/// The links of the news.
pub open spec fn entry_selector() -> Seq<char> {
    "#news a"@
}

/// The item of a news link: its content as the title, and its link.
pub open spec fn entry_item(e: ElementModel) -> Option<ItemModel> {
    Some(permalink_item(e.inner_html, e.href.unwrap()))
}

/// `entry_item` as a value.
pub open spec fn entry_item_fn() -> spec_fn(ElementModel) -> Option<ItemModel> {
    |e: ElementModel| entry_item(e)
}

/// The channel of the news.
pub open spec fn channel(items: Seq<ItemModel>) -> ChannelModel {
    site_channel("気象庁"@, "https://www.jma.go.jp/jma/"@, "国土交通省の下部団体です"@, ""@, items)
}

/// The feed of a page: one item per news link, in page order, possibly none.
/// Every news link must have an `href`.
pub open spec fn build(page: Seq<char>) -> Result<ChannelModel, BuildErrorModel> {
    match css_select(page, entry_selector()) {
        None => Err(BuildErrorModel::InvalidSelector),
        Some(m) => if elements_all_linked(m) {
            Ok(channel(filter_items(m, entry_item_fn())))
        } else {
            Err(BuildErrorModel::MissingLink)
        },
    }
}

/// Every news link of the page has an `href`. A page with a news link without `href` is broken: `build_rss`
/// and `feed` take no such page, and `try_build_rss` answers it with an
/// error.
pub open spec fn admitted(page: Seq<char>) -> bool {
    css_select(page, entry_selector()) matches Some(m) ==> elements_all_linked(m)
}

impl Jma {
    /// The items of the news links.
    pub fn items(entries: &Vec<Element>) -> (items: Vec<Item>)
        requires
            elements_all_linked(element_models(entries@)),
        ensures
            item_models(items@) == filter_items(element_models(entries@), entry_item_fn()),
    {
        let ghost m = element_models(entries@);
        let mut items: Vec<Item> = Vec::new();
        let n = entries.len();
        for i in 0..n
            invariant
                n == entries@.len(),
                m == element_models(entries@),
                elements_all_linked(m),
                item_models(items@) == filter_items(m.take(i as int), entry_item_fn()),
        {
            proof { lemma_filter_items_step(m, i as int, entry_item_fn()); }
            let entry = &entries[i];
            assert(m[i as int] == entry@);
            assert(m[i as int].href is Some);
            let item = permalink_item_of(entry.inner_html.clone(), present_text(&entry.href));
            items.push(item);
            assert(item_models(items@) =~= filter_items(m.take(i as int), entry_item_fn()).push(item@));
        }
        assert(m.take(n as int) =~= m);
        items
    }

    /// The feed of an admitted page.
    pub fn build_rss(page: &str) -> (r: Result<Channel, BuildError>)
        requires
            admitted(page@),
        ensures
            build_view(r) == build(page@),
    {
        let entries = match select(page, "#news a") {
            Some(e) => e,
            None => return Err(BuildError::InvalidSelector),
        };
        let items = Jma::items(&entries);
        Ok(channel_of("気象庁", "https://www.jma.go.jp/jma/", "国土交通省の下部団体です", "", items))
    }

    /// Tells whether the page is one `build_rss` admits.
    pub fn admits(page: &str) -> (r: bool)
        ensures
            r == admitted(page@),
    {
        match select(page, "#news a") {
            Some(e) => elements_linked(&e),
            None => true,
        }
    }

    /// The feed of any page: `Err(MissingLink)` where the page is not admitted.
    pub fn try_build_rss(page: &str) -> (r: Result<Channel, BuildError>)
        ensures
            build_view(r) == build(page@),
    {
        if !Jma::admits(page) {
            return Err(BuildError::MissingLink);
        }
        Jma::build_rss(page)
    }
}

impl Site for Jma {
    open spec fn admitted(&self, page_url: Seq<char>, page: Seq<char>) -> bool {
        admitted(page)
    }

    fn admits(&self, page_url: &str, page: &str) -> (r: bool) {
        Jma::admits(page)
    }

    fn page_url(&self, unix_secs: i64) -> (r: Option<String>)
        ensures
            r matches Some(u) && u@ == page_address(),
    {
        Some(String::from_str("https://www.jma.go.jp/jma/index.html"))
    }

    fn user_agent(&self) -> (r: Option<String>)
        ensures
            r is None,
    {
        None
    }

    fn feed(&self, page_url: &str, page: &str) -> (r: Result<String, String>)
        ensures
            text_result(r) == feed_outcome(build(page@)),
    {
        finish_feed(Jma::build_rss(page))
    }
}

/// On a page without broken links, the feed has one item per news link, in
/// page order: its content and its `href`.
pub proof fn law_one_item_per_news_link(page: Seq<char>)
    ensures
        match css_select(page, entry_selector()) {
            None => build(page) == Err::<ChannelModel, BuildErrorModel>(BuildErrorModel::InvalidSelector),
            Some(m) => admitted(page) ==> {
                &&& (build(page) is Ok <==> true)
                &&& build(page) matches Ok(c) ==> {
                    &&& c.title == "気象庁"@
                    &&& c.items.len() == m.len()
                    &&& forall|k: int| 0 <= k < m.len() ==> #[trigger] c.items[k] == permalink_item((m[k]).inner_html, (m[k]).href.unwrap())
                }
            },
        },
{
    if let Some(m) = css_select(page, entry_selector()) {
        if true {
            let s = m;
            let f = entry_item_fn();
            assert forall|j: int| 0 <= j < s.len() implies (#[trigger] f(s[j])) is Some by {}
            lemma_filter_items_every(s, f);
            if admitted(page) && build(page) is Ok {
                let items = filter_items(s, f);
                assert(build(page)->Ok_0.items == items);
                assert forall|k: int| 0 <= k < s.len() implies #[trigger] items[k] == permalink_item((s[k]).inner_html, (s[k]).href.unwrap()) by {
                    assert(f(s[k]) == Some(items[k]));
                }
            }
        }
    }
}

} // verus!
