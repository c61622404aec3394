//! The notepad of y586.

use vstd::prelude::*;

use crate::feed::{item_models, permalink_item, permalink_item_of, Channel, ChannelModel, Item, ItemModel};
use crate::page::{css_select, element_models, select, text_result, Element, ElementModel};
use crate::sites::{
    increasing_positions, item_positions, lemma_filter_items_positions, lemma_filter_items_some,
    build_view, channel_of, feed_outcome, filter_items, finish_feed, present_text,
    lemma_filter_items_step, site_channel, BuildError, BuildErrorModel, Site,
};

verus! {

/// The notepad of y586.
pub struct Memo586;

/// The notepad's address, which is also its page of links.
pub open spec fn page_address() -> Seq<char> {
    "https://fesix.sakura.ne.jp/notepad/"@
}

/// The links of the notepad's menu.
pub open spec fn entry_selector() -> Seq<char> {
    "ul.menu > li.linkitem > a"@
}

/// The item of a menu link: none without `href`, else its text and link.
pub open spec fn entry_item(e: ElementModel) -> Option<ItemModel> {
    match e.href {
        None => None,
        Some(h) => Some(permalink_item(e.text, h)),
    }
}

/// `entry_item` as a value.
pub open spec fn entry_item_fn() -> spec_fn(ElementModel) -> Option<ItemModel> {
    |e: ElementModel| entry_item(e)
}

/// The channel of the notepad.
pub open spec fn channel(items: Seq<ItemModel>) -> ChannelModel {
    site_channel(
        "y586さんのメモ帳"@,
        "https://fesix.sakura.ne.jp/notepad/"@,
        "日記や雑多なメモ、調べたことなどをまとめています。 "@,
        "586"@,
        items,
    )
}

/// The feed of a page: one item per menu link with an `href`, in page order;
/// none at all is an error.
pub open spec fn build(page: Seq<char>) -> Result<ChannelModel, BuildErrorModel> {
    match css_select(page, entry_selector()) {
        None => Err(BuildErrorModel::InvalidSelector),
        Some(m) => if filter_items(m, entry_item_fn()).len() == 0 {
            Err(BuildErrorModel::NoItems)
        } else {
            Ok(channel(filter_items(m, entry_item_fn())))
        },
    }
}

impl Memo586 {
    /// The items of the menu links.
    pub fn items(entries: &Vec<Element>) -> (items: Vec<Item>)
        ensures
            item_models(items@) == filter_items(element_models(entries@), entry_item_fn()),
    {
        let ghost m = element_models(entries@);
        let mut items: Vec<Item> = Vec::new();
        let n = entries.len();
        for i in 0..n
            invariant
                n == entries@.len(),
                m == element_models(entries@),
                item_models(items@) == filter_items(m.take(i as int), entry_item_fn()),
        {
            proof { lemma_filter_items_step(m, i as int, entry_item_fn()); }
            let entry = &entries[i];
            assert(m[i as int] == entry@);
            if entry.href.is_some() {
                let item = permalink_item_of(entry.text.clone(), present_text(&entry.href));
                items.push(item);
                assert(item_models(items@) =~= filter_items(m.take(i as int), entry_item_fn()).push(item@));
            }
        }
        assert(m.take(n as int) =~= m);
        items
    }

    /// The feed of a page.
    pub fn build_rss(page: &str) -> (r: Result<Channel, BuildError>)
        ensures
            build_view(r) == build(page@),
    {
        let entries = match select(page, "ul.menu > li.linkitem > a") {
            Some(e) => e,
            None => return Err(BuildError::InvalidSelector),
        };
        let items = Memo586::items(&entries);
        if items.len() == 0 {
            return Err(BuildError::NoItems);
        }
        Ok(channel_of(
            "y586さんのメモ帳",
            "https://fesix.sakura.ne.jp/notepad/",
            "日記や雑多なメモ、調べたことなどをまとめています。 ",
            "586",
            items,
        ))
    }
}

impl Site for Memo586 {
    /// Every page: the feed's entries need nothing the page may lack.
    open spec fn admitted(&self, page_url: Seq<char>, page: Seq<char>) -> bool {
        true
    }

    fn admits(&self, page_url: &str, page: &str) -> (r: bool) {
        true
    }

    fn page_url(&self, unix_secs: i64) -> (r: Option<String>)
        ensures
            r matches Some(u) && u@ == page_address(),
    {
        Some(String::from_str("https://fesix.sakura.ne.jp/notepad/"))
    }

    fn user_agent(&self) -> (r: Option<String>)
        ensures
            r is None,
    {
        None
    }

    fn feed(&self, page_url: &str, page: &str) -> (r: Result<String, String>)
        ensures
            text_result(r) == feed_outcome(build(page@)),
    {
        finish_feed(Memo586::build_rss(page))
    }
}

/// The feed lists, in page order, exactly the menu links with an `href`, each
/// as its text and its `href`; a page with no such link has no feed.
pub proof fn law_one_item_per_linked_entry(page: Seq<char>)
    ensures
        match css_select(page, entry_selector()) {
            None => build(page) == Err::<ChannelModel, BuildErrorModel>(BuildErrorModel::InvalidSelector),
            Some(m) => true ==> {
                &&& (build(page) is Ok <==> (exists|j: int| #![trigger m[j]] 0 <= j < m.len() && (m[j]).href is Some))
                &&& build(page) matches Ok(c) ==> {
                    &&& c.title == "y586さんのメモ帳"@
                    &&& exists|idx: Seq<int>| {
                        &&& idx.len() == c.items.len()
                        &&& increasing_positions(idx, m.len() as int)
                        &&& forall|j: int| #![trigger m[j]] 0 <= j < m.len() && (m[j]).href is Some
                            ==> exists|k: int| 0 <= k < idx.len() && idx[k] == j
                        &&& forall|k: int| 0 <= k < idx.len() ==> {
                            let x = m[#[trigger] idx[k]];
                            &&& x.href is Some
                            &&& c.items[k] == permalink_item(x.text, x.href.unwrap())
                        }
                    }
                }
            },
        },
{
    if let Some(m) = css_select(page, entry_selector()) {
        if true {
            let s = m;
            let f = entry_item_fn();
            lemma_filter_items_positions(s, f);
            lemma_filter_items_some(s, f);
            if true && build(page) is Ok {
                let items = filter_items(s, f);
                let idx = choose|idx: Seq<int>| item_positions(s, f, idx);
                assert forall|k: int| 0 <= k < idx.len() implies {
                    let x = s[#[trigger] idx[k]];
                    &&& x.href is Some
                    &&& items[k] == permalink_item(x.text, x.href.unwrap())
                } by {
                    assert(f(s[idx[k]]) == Some(items[k]));
                }
                assert forall|j: int| #![trigger s[j]] 0 <= j < s.len() && (s[j]).href is Some
                    implies exists|k: int| 0 <= k < idx.len() && idx[k] == j by {
                    assert(f(s[j]) is Some);
                }
                assert(build(page)->Ok_0.items == items);
                assert(increasing_positions(idx, s.len() as int));
            }
            assert((exists|j: int| 0 <= j < s.len() && (#[trigger] f(s[j])) is Some) <==> (exists|j: int| #![trigger s[j]] 0 <= j < s.len() && (s[j]).href is Some)) by {
                if exists|j: int| #![trigger s[j]] 0 <= j < s.len() && (s[j]).href is Some {
                    let j = choose|j: int| #![trigger s[j]] 0 <= j < s.len() && (s[j]).href is Some;
                    assert(f(s[j]) is Some);
                }
                if exists|j: int| 0 <= j < s.len() && (#[trigger] f(s[j])) is Some {
                    let j = choose|j: int| 0 <= j < s.len() && (#[trigger] f(s[j])) is Some;
                    assert((s[j]).href is Some);
                }
            }
        }
    }
}

} // verus!
