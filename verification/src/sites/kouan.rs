//! The news of the Public Security Intelligence Agency.

use vstd::prelude::*;

use crate::digest::{sha384_hex, sha384_of_text};
use crate::feed::{item_models, Channel, ChannelModel, Guid, GuidModel, Item, ItemModel};
use crate::page::{
    css_select_nested, element_models, nested_models, select_nested, text_result, Element,
    ElementModel,
};
use crate::sites::{
    lemma_filter_items_every,
    build_view, channel_of, feed_outcome, filter_items, finish_feed, lemma_filter_items_step,
    site_channel, BuildError, BuildErrorModel, Site,
};
use crate::text::lower_hex;

verus! {

/// The news of the Public Security Intelligence Agency.
pub struct Kouan {}

/// The agency's top page, which lists the news.
pub open spec fn page_address() -> Seq<char> {
    "https://www.moj.go.jp/psia/index.html"@
}

/// The list of news.
pub open spec fn list_selector() -> Seq<char> {
    ".newsList"@
}

/// The links of a list.
pub open spec fn link_selector() -> Seq<char> {
    "a"@
}

/// The item of a news link: its content as the title; its path after the
/// ministry's address as the link, when it has one; and the SHA-384 of the
/// link's HTML in hexadecimal as a GUID that is no permalink.
pub open spec fn entry_item(e: ElementModel) -> Option<ItemModel> {
    Some(ItemModel {
        title: e.inner_html,
        link: match e.href {
            Some(h) => Some("https://www.moj.go.jp"@ + h),
            None => None,
        },
        guid: GuidModel { value: lower_hex(sha384_of_text(e.html)), permalink: false },
    })
}

/// `entry_item` as a value.
pub open spec fn entry_item_fn() -> spec_fn(ElementModel) -> Option<ItemModel> {
    |e: ElementModel| entry_item(e)
}

/// The channel of the news.
pub open spec fn channel(items: Seq<ItemModel>) -> ChannelModel {
    site_channel(
        "公安調査庁"@,
        "https://www.moj.go.jp/psia/index.html"@,
        "すべては国民の安全のために"@,
        "Copyright (C) Public Security Intelligence Agency All Rights Reserved."@,
        items,
    )
}

/// The feed of a page: no list of news is an error; else one item per link
/// of the first list, in page order, possibly none.
pub open spec fn build(page: Seq<char>) -> Result<ChannelModel, BuildErrorModel> {
    match css_select_nested(page, list_selector(), link_selector()) {
        None => Err(BuildErrorModel::InvalidSelector),
        Some(m) => if m.len() == 0 {
            Err(BuildErrorModel::NewsNotFound)
        } else {
            Ok(channel(filter_items(m[0].inner, entry_item_fn())))
        },
    }
}

impl Kouan {
    /// The items of the links of a list, one per link.
    pub fn items(links: &Vec<Element>) -> (items: Vec<Item>)
        ensures
            item_models(items@) == filter_items(element_models(links@), entry_item_fn()),
            forall|k: int| 0 <= k < items@.len() ==> (#[trigger] items@[k]).guid.value@.len() == 96,
    {
        let ghost m = element_models(links@);
        let mut items: Vec<Item> = Vec::new();
        let n = links.len();
        for i in 0..n
            invariant
                n == links@.len(),
                m == element_models(links@),
                item_models(items@) == filter_items(m.take(i as int), entry_item_fn()),
                forall|k: int| 0 <= k < items@.len() ==> (#[trigger] items@[k]).guid.value@.len() == 96,
        {
            proof { lemma_filter_items_step(m, i as int, entry_item_fn()); }
            let e = &links[i];
            assert(m[i as int] == e@);
            let link = match &e.href {
                Some(h) => Some(String::from_str("https://www.moj.go.jp").concat(h.as_str())),
                None => None,
            };
            let item = Item {
                title: e.inner_html.clone(),
                link,
                guid: Guid { value: sha384_hex(e.html.as_str()), permalink: false },
            };
            items.push(item);
            assert(item_models(items@) =~= filter_items(m.take(i as int), entry_item_fn()).push(item@));
        }
        assert(m.take(n as int) =~= m);
        items
    }

    /// The feed of a page.
    pub fn build_rss(page: &str) -> (r: Result<Channel, BuildError>)
        ensures
            build_view(r) == build(page@),
    {
        let lists = match select_nested(page, ".newsList", "a") {
            Some(e) => e,
            None => return Err(BuildError::InvalidSelector),
        };
        if lists.len() == 0 {
            return Err(BuildError::NewsNotFound);
        }
        assert(nested_models(lists@)[0].inner == element_models(lists@[0].inner@));
        let items = Kouan::items(&lists[0].inner);
        Ok(channel_of(
            "公安調査庁",
            "https://www.moj.go.jp/psia/index.html",
            "すべては国民の安全のために",
            "Copyright (C) Public Security Intelligence Agency All Rights Reserved.",
            items,
        ))
    }
}

impl Site for Kouan {
    /// Every page: the feed's entries need nothing the page may lack.
    open spec fn admitted(&self, page_url: Seq<char>, page: Seq<char>) -> bool {
        true
    }

    fn admits(&self, page_url: &str, page: &str) -> (r: bool) {
        true
    }

    fn page_url(&self, unix_secs: i64) -> (r: Option<String>)
        ensures
            r matches Some(u) && u@ == page_address(),
    {
        Some(String::from_str("https://www.moj.go.jp/psia/index.html"))
    }

    fn user_agent(&self) -> (r: Option<String>)
        ensures
            r is None,
    {
        None
    }

    fn feed(&self, page_url: &str, page: &str) -> (r: Result<String, String>)
        ensures
            text_result(r) == feed_outcome(build(page@)),
    {
        finish_feed(Kouan::build_rss(page))
    }
}

/// The feed has one item per link of the first news list, in page order: its
/// content, its path after the ministry's address where it has one, and the
/// SHA-384 of its HTML in hexadecimal as a GUID that is no permalink; a page
/// without a news list has no feed.
pub proof fn law_one_item_per_listed_link(page: Seq<char>)
    ensures
        match css_select_nested(page, list_selector(), link_selector()) {
            None => build(page) == Err::<ChannelModel, BuildErrorModel>(BuildErrorModel::InvalidSelector),
            Some(m) => true ==> {
                &&& (build(page) is Ok <==> m.len() > 0)
                &&& build(page) matches Ok(c) ==> {
                    &&& c.title == "公安調査庁"@
                    &&& m.len() > 0
                    &&& c.items.len() == m[0].inner.len()
                    &&& forall|k: int| 0 <= k < m[0].inner.len() ==> #[trigger] c.items[k] == ItemModel { title: (m[0].inner[k]).inner_html, link: match (m[0].inner[k]).href { Some(h) => Some("https://www.moj.go.jp"@ + h), None => None }, guid: GuidModel { value: lower_hex(sha384_of_text((m[0].inner[k]).html)), permalink: false } }
                }
            },
        },
{
    if let Some(m) = css_select_nested(page, list_selector(), link_selector()) {
        if m.len() > 0 {
            let s = m[0].inner;
            let f = entry_item_fn();
            assert forall|j: int| 0 <= j < s.len() implies (#[trigger] f(s[j])) is Some by {}
            lemma_filter_items_every(s, f);
            if true && build(page) is Ok {
                let items = filter_items(s, f);
                assert(build(page)->Ok_0.items == items);
                assert forall|k: int| 0 <= k < s.len() implies #[trigger] items[k] == ItemModel { title: (s[k]).inner_html, link: match (s[k]).href { Some(h) => Some("https://www.moj.go.jp"@ + h), None => None }, guid: GuidModel { value: lower_hex(sha384_of_text((s[k]).html)), permalink: false } } by {
                    assert(f(s[k]) == Some(items[k]));
                }
            }
        }
    }
}

} // verus!
