//! The updates of Mahou Koubou, a circle that makes voice dramas.

use vstd::prelude::*;

use crate::digest::{sha256_hex, sha256_of_text};
use crate::feed::{item_models, Channel, ChannelModel, Guid, GuidModel, Item, ItemModel};
use crate::page::{css_select, element_models, select, text_result, Element, ElementModel};
use crate::sites::{
    lemma_filter_items_every,
    build_view, channel_of, feed_outcome, filter_items, finish_feed, lemma_filter_items_step,
    site_channel, BuildError, BuildErrorModel, Site,
};
use crate::text::lower_hex;

verus! {

/// The updates of Mahou Koubou.
pub struct Windress;

/// The site's address, which is also the page the feed is made from.
pub open spec fn page_address() -> Seq<char> {
    "https://mahoukoubou.jimdofree.com/"@
}

/// The `User-Agent` that the site is downloaded with.
pub open spec fn agent() -> Seq<char> {
    "Mozilla/5.0 (Windows NT 10.0; Win64; x64; rv:199.0)"@
}

/// The content of the page.
pub open spec fn entry_selector() -> Seq<char> {
    "#content"@
}

/// The item of a content block: a fixed title and link, and as GUID the
/// SHA-256 of the block's content in hexadecimal, so the GUID changes when
/// the content does.
pub open spec fn entry_item(e: ElementModel) -> Option<ItemModel> {
    Some(ItemModel {
        title: "まほー工房 更新"@,
        link: Some("https://mahoukoubou.jimdofree.com/"@),
        guid: GuidModel { value: lower_hex(sha256_of_text(e.inner_html)), permalink: true },
    })
}

/// `entry_item` as a value.
pub open spec fn entry_item_fn() -> spec_fn(ElementModel) -> Option<ItemModel> {
    |e: ElementModel| entry_item(e)
}

/// The channel of the updates.
pub open spec fn channel(items: Seq<ItemModel>) -> ChannelModel {
    site_channel(
        "まほー工房"@,
        "https://mahoukoubou.jimdofree.com/"@,
        "まほー工房は社会生活や日常生活に役立つ魔法やメンタルメソッド、心法などの技法をボイスドラマ形式の音声作品で提供しているサークルです。"@,
        "まほー工房"@,
        items,
    )
}

/// The feed of a page: one item per content block, in page order; none at
/// all is an error.
pub open spec fn build(page: Seq<char>) -> Result<ChannelModel, BuildErrorModel> {
    match css_select(page, entry_selector()) {
        None => Err(BuildErrorModel::InvalidSelector),
        Some(m) => if m.len() == 0 {
            Err(BuildErrorModel::NoItems)
        } else {
            Ok(channel(filter_items(m, entry_item_fn())))
        },
    }
}

impl Windress {
    /// The items of the content blocks, one per block.
    pub fn items(entries: &Vec<Element>) -> (items: Vec<Item>)
        ensures
            item_models(items@) == filter_items(element_models(entries@), entry_item_fn()),
            items@.len() == entries@.len(),
            forall|k: int| 0 <= k < items@.len() ==> (#[trigger] items@[k]).guid.value@.len() == 64,
    {
        let ghost m = element_models(entries@);
        let mut items: Vec<Item> = Vec::new();
        let n = entries.len();
        for i in 0..n
            invariant
                n == entries@.len(),
                m == element_models(entries@),
                items@.len() == i,
                item_models(items@) == filter_items(m.take(i as int), entry_item_fn()),
                forall|k: int| 0 <= k < items@.len() ==> (#[trigger] items@[k]).guid.value@.len() == 64,
        {
            proof { lemma_filter_items_step(m, i as int, entry_item_fn()); }
            let entry = &entries[i];
            assert(m[i as int] == entry@);
            let guid = Guid { value: sha256_hex(entry.inner_html.as_str()), permalink: true };
            let item = Item {
                title: String::from_str("まほー工房 更新"),
                link: Some(String::from_str("https://mahoukoubou.jimdofree.com/")),
                guid,
            };
            items.push(item);
            assert(item_models(items@) =~= filter_items(m.take(i as int), entry_item_fn()).push(item@));
        }
        assert(m.take(n as int) =~= m);
        items
    }

    /// The feed of a page.
    pub fn build_rss(page: &str) -> (r: Result<Channel, BuildError>)
        ensures
            build_view(r) == build(page@),
    {
        let entries = match select(page, "#content") {
            Some(e) => e,
            None => return Err(BuildError::InvalidSelector),
        };
        let items = Windress::items(&entries);
        if items.len() == 0 {
            return Err(BuildError::NoItems);
        }
        Ok(channel_of(
            "まほー工房",
            "https://mahoukoubou.jimdofree.com/",
            "まほー工房は社会生活や日常生活に役立つ魔法やメンタルメソッド、心法などの技法をボイスドラマ形式の音声作品で提供しているサークルです。",
            "まほー工房",
            items,
        ))
    }
}

impl Site for Windress {
    /// Every page: the feed's entries need nothing the page may lack.
    open spec fn admitted(&self, page_url: Seq<char>, page: Seq<char>) -> bool {
        true
    }

    fn admits(&self, page_url: &str, page: &str) -> (r: bool) {
        true
    }

    fn page_url(&self, unix_secs: i64) -> (r: Option<String>)
        ensures
            r matches Some(u) && u@ == page_address(),
    {
        Some(String::from_str("https://mahoukoubou.jimdofree.com/"))
    }

    fn user_agent(&self) -> (r: Option<String>)
        ensures
            r matches Some(a) && a@ == agent(),
    {
        Some(String::from_str("Mozilla/5.0 (Windows NT 10.0; Win64; x64; rv:199.0)"))
    }

    fn feed(&self, page_url: &str, page: &str) -> (r: Result<String, String>)
        ensures
            text_result(r) == feed_outcome(build(page@)),
    {
        finish_feed(Windress::build_rss(page))
    }
}

/// The content (inner HTML) of each element, in order.
pub open spec fn contents(m: Seq<ElementModel>) -> Seq<Seq<char>> {
    m.map_values(|e: ElementModel| e.inner_html)
}

/// Elements with the same contents, position by position, give the same
/// items.
pub proof fn lemma_same_contents_same_items(m1: Seq<ElementModel>, m2: Seq<ElementModel>)
    requires
        contents(m1) == contents(m2),
    ensures
        filter_items(m1, entry_item_fn()) == filter_items(m2, entry_item_fn()),
    decreases m1.len(),
{
    assert(contents(m1).len() == m1.len() && contents(m2).len() == m2.len());
    if m1.len() > 0 {
        assert(contents(m1.drop_last()) =~= contents(m1).drop_last());
        assert(contents(m2.drop_last()) =~= contents(m2).drop_last());
        lemma_same_contents_same_items(m1.drop_last(), m2.drop_last());
        assert(contents(m1)[m1.len() - 1] == m1.last().inner_html);
        assert(contents(m2)[m2.len() - 1] == m2.last().inner_html);
    }
}

/// The feed changes only with the page's content: two pages whose `#content`
/// elements have, in order, the same inner HTML give the same feed.
pub proof fn law_same_content_same_feed(page1: Seq<char>, page2: Seq<char>)
    requires
        match (css_select(page1, entry_selector()), css_select(page2, entry_selector())) {
            (Some(m1), Some(m2)) => contents(m1) == contents(m2),
            (None, None) => true,
            _ => false,
        },
    ensures
        build(page1) == build(page2),
{
    if let (Some(m1), Some(m2)) = (css_select(page1, entry_selector()), css_select(page2, entry_selector())) {
        lemma_same_contents_same_items(m1, m2);
        assert(contents(m1).len() == m1.len() && contents(m2).len() == m2.len());
    }
}

/// The feed has one item per content block, in page order: the fixed title
/// and link, and the block's SHA-256 in hexadecimal as GUID; a page without
/// content has no feed.
pub proof fn law_one_item_per_content_block(page: Seq<char>)
    ensures
        match css_select(page, entry_selector()) {
            None => build(page) == Err::<ChannelModel, BuildErrorModel>(BuildErrorModel::InvalidSelector),
            Some(m) => true ==> {
                &&& (build(page) is Ok <==> m.len() > 0)
                &&& build(page) matches Ok(c) ==> {
                    &&& c.title == "まほー工房"@
                    &&& c.items.len() == m.len()
                    &&& forall|k: int| 0 <= k < m.len() ==> #[trigger] c.items[k] == ItemModel { title: "まほー工房 更新"@, link: Some("https://mahoukoubou.jimdofree.com/"@), guid: GuidModel { value: lower_hex(sha256_of_text((m[k]).inner_html)), permalink: true } }
                }
            },
        },
{
    if let Some(m) = css_select(page, entry_selector()) {
        if true {
            let s = m;
            let f = entry_item_fn();
            assert forall|j: int| 0 <= j < s.len() implies (#[trigger] f(s[j])) is Some by {}
            lemma_filter_items_every(s, f);
            if true && build(page) is Ok {
                let items = filter_items(s, f);
                assert(build(page)->Ok_0.items == items);
                assert forall|k: int| 0 <= k < s.len() implies #[trigger] items[k] == ItemModel { title: "まほー工房 更新"@, link: Some("https://mahoukoubou.jimdofree.com/"@), guid: GuidModel { value: lower_hex(sha256_of_text((s[k]).inner_html)), permalink: true } } by {
                    assert(f(s[k]) == Some(items[k]));
                }
            }
        }
    }
}

} // verus!
