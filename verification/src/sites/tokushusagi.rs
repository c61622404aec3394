//! The columns of Tokyo's special site against becoming a fraud's accomplice.

use vstd::prelude::*;

use crate::feed::{item_models, permalink_item, permalink_item_of, Channel, ChannelModel, Item, ItemModel};
use crate::page::{css_select_nested, nested_models, select_nested, text_result, Nested, NestedModel};
use crate::sites::{
    increasing_positions, item_positions, lemma_filter_items_positions, lemma_filter_items_some,
    build_view, channel_of, feed_outcome, filter_items, finish_feed, present_text,
    lemma_filter_items_step, site_channel, BuildError, BuildErrorModel, Site,
};

verus! {

/// The columns of Tokyo's special site against becoming a fraud's accomplice.
pub struct Tokushusagi;

/// The page that lists the columns.
pub open spec fn page_address() -> Seq<char> {
    "https://www.kagaiboushi.metro.tokyo.lg.jp/column/"@
}

/// The links to the columns.
pub open spec fn entry_selector() -> Seq<char> {
    ".column-item > a"@
}

/// The title inside a column's link.
pub open spec fn title_selector() -> Seq<char> {
    ".column-content > .column-title"@
}

/// The item of a column link: none without `href`, else its first title and
/// its link.
pub open spec fn entry_item(n: NestedModel) -> Option<ItemModel> {
    match n.href {
        None => None,
        Some(h) => Some(permalink_item(n.inner[0].inner_html, h)),
    }
}

/// `entry_item` as a value.
pub open spec fn entry_item_fn() -> spec_fn(NestedModel) -> Option<ItemModel> {
    |n: NestedModel| entry_item(n)
}

/// Every column link with an `href` holds a title.
pub open spec fn all_titled(m: Seq<NestedModel>) -> bool {
    forall|i: int| 0 <= i < m.len() && (#[trigger] m[i]).href is Some ==> m[i].inner.len() > 0
}

/// The channel of the columns.
pub open spec fn channel(items: Seq<ItemModel>) -> ChannelModel {
    site_channel(
        "東京都 特殊詐欺加害防止 特設サイト"@,
        "https://www.kagaiboushi.metro.tokyo.lg.jp/"@,
        "そのバイト、犯罪です。"@,
        "東京都"@,
        items,
    )
}

/// The feed of a page: one item per column link with an `href`, in page
/// order; none at all is an error. Every such link must hold a title.
pub open spec fn build(page: Seq<char>) -> Result<ChannelModel, BuildErrorModel> {
    match css_select_nested(page, entry_selector(), title_selector()) {
        None => Err(BuildErrorModel::InvalidSelector),
        Some(m) => if !all_titled(m) {
            Err(BuildErrorModel::MissingTitle)
        } else if filter_items(m, entry_item_fn()).len() == 0 {
            Err(BuildErrorModel::NoItems)
        } else {
            Ok(channel(filter_items(m, entry_item_fn())))
        },
    }
}

/// Every column link of the page that has an `href` holds a title. A page with a column link with an `href` but no title is broken: `build_rss`
/// and `feed` take no such page, and `try_build_rss` answers it with an
/// error.
pub open spec fn admitted(page: Seq<char>) -> bool {
    css_select_nested(page, entry_selector(), title_selector()) matches Some(m) ==> all_titled(m)
}

impl Tokushusagi {
    /// Tells whether every column link with an `href` holds a title.
    pub fn titled(entries: &Vec<Nested>) -> (r: bool)
        ensures
            r == all_titled(nested_models(entries@)),
    {
        let ghost m = nested_models(entries@);
        let n = entries.len();
        for i in 0..n
            invariant
                n == entries@.len(),
                m == nested_models(entries@),
                forall|j: int| 0 <= j < i && (#[trigger] m[j]).href is Some ==> m[j].inner.len() > 0,
        {
            assert(m[i as int] == entries@[i as int]@);
            if entries[i].href.is_some() && entries[i].inner.len() == 0 {
                return false;
            }
        }
        true
    }

    /// The items of the column links, one per link with an `href`.
    pub fn items(entries: &Vec<Nested>) -> (items: Vec<Item>)
        requires
            all_titled(nested_models(entries@)),
        ensures
            item_models(items@) == filter_items(nested_models(entries@), entry_item_fn()),
    {
        let ghost m = nested_models(entries@);
        let mut items: Vec<Item> = Vec::new();
        let n = entries.len();
        for i in 0..n
            invariant
                n == entries@.len(),
                m == nested_models(entries@),
                all_titled(m),
                item_models(items@) == filter_items(m.take(i as int), entry_item_fn()),
        {
            proof { lemma_filter_items_step(m, i as int, entry_item_fn()); }
            let entry = &entries[i];
            assert(m[i as int] == entry@);
            if entry.href.is_some() {
                assert(m[i as int].inner.len() > 0);
                let item = permalink_item_of(entry.inner[0].inner_html.clone(), present_text(&entry.href));
                assert(entry@.inner[0] == entry.inner@[0]@);
                items.push(item);
                assert(item_models(items@) =~= filter_items(m.take(i as int), entry_item_fn()).push(item@));
            }
        }
        assert(m.take(n as int) =~= m);
        items
    }

    /// The feed of an admitted page.
    pub fn build_rss(page: &str) -> (r: Result<Channel, BuildError>)
        requires
            admitted(page@),
        ensures
            build_view(r) == build(page@),
    {
        let entries = match select_nested(page, ".column-item > a", ".column-content > .column-title") {
            Some(e) => e,
            None => return Err(BuildError::InvalidSelector),
        };
        let items = Tokushusagi::items(&entries);
        if items.len() == 0 {
            return Err(BuildError::NoItems);
        }
        Ok(channel_of(
            "東京都 特殊詐欺加害防止 特設サイト",
            "https://www.kagaiboushi.metro.tokyo.lg.jp/",
            "そのバイト、犯罪です。",
            "東京都",
            items,
        ))
    }

    /// Tells whether the page is one `build_rss` admits.
    pub fn admits(page: &str) -> (r: bool)
        ensures
            r == admitted(page@),
    {
        match select_nested(page, ".column-item > a", ".column-content > .column-title") {
            Some(e) => Tokushusagi::titled(&e),
            None => true,
        }
    }

    /// The feed of any page: `Err(MissingTitle)` where the page is not admitted.
    pub fn try_build_rss(page: &str) -> (r: Result<Channel, BuildError>)
        ensures
            build_view(r) == build(page@),
    {
        if !Tokushusagi::admits(page) {
            return Err(BuildError::MissingTitle);
        }
        Tokushusagi::build_rss(page)
    }
}

impl Site for Tokushusagi {
    open spec fn admitted(&self, page_url: Seq<char>, page: Seq<char>) -> bool {
        admitted(page)
    }

    fn admits(&self, page_url: &str, page: &str) -> (r: bool) {
        Tokushusagi::admits(page)
    }

    fn page_url(&self, unix_secs: i64) -> (r: Option<String>)
        ensures
            r matches Some(u) && u@ == page_address(),
    {
        Some(String::from_str("https://www.kagaiboushi.metro.tokyo.lg.jp/column/"))
    }

    fn user_agent(&self) -> (r: Option<String>)
        ensures
            r is None,
    {
        None
    }

    fn feed(&self, page_url: &str, page: &str) -> (r: Result<String, String>)
        ensures
            text_result(r) == feed_outcome(build(page@)),
    {
        finish_feed(Tokushusagi::build_rss(page))
    }
}

/// On a page without broken columns, the feed lists, in page order, exactly
/// the column links with an `href`, each as its first title and its `href`;
/// a page with no such link has no feed.
pub proof fn law_one_item_per_linked_column(page: Seq<char>)
    ensures
        match css_select_nested(page, entry_selector(), title_selector()) {
            None => build(page) == Err::<ChannelModel, BuildErrorModel>(BuildErrorModel::InvalidSelector),
            Some(m) => admitted(page) ==> {
                &&& (build(page) is Ok <==> (exists|j: int| #![trigger m[j]] 0 <= j < m.len() && (m[j]).href is Some))
                &&& build(page) matches Ok(c) ==> {
                    &&& c.title == "東京都 特殊詐欺加害防止 特設サイト"@
                    &&& exists|idx: Seq<int>| {
                        &&& idx.len() == c.items.len()
                        &&& increasing_positions(idx, m.len() as int)
                        &&& forall|j: int| #![trigger m[j]] 0 <= j < m.len() && (m[j]).href is Some
                            ==> exists|k: int| 0 <= k < idx.len() && idx[k] == j
                        &&& forall|k: int| 0 <= k < idx.len() ==> {
                            let x = m[#[trigger] idx[k]];
                            &&& x.href is Some
                            &&& c.items[k] == permalink_item(x.inner[0].inner_html, x.href.unwrap())
                        }
                    }
                }
            },
        },
{
    if let Some(m) = css_select_nested(page, entry_selector(), title_selector()) {
        if true {
            let s = m;
            let f = entry_item_fn();
            lemma_filter_items_positions(s, f);
            lemma_filter_items_some(s, f);
            if admitted(page) && build(page) is Ok {
                let items = filter_items(s, f);
                let idx = choose|idx: Seq<int>| item_positions(s, f, idx);
                assert forall|k: int| 0 <= k < idx.len() implies {
                    let x = s[#[trigger] idx[k]];
                    &&& x.href is Some
                    &&& items[k] == permalink_item(x.inner[0].inner_html, x.href.unwrap())
                } by {
                    assert(f(s[idx[k]]) == Some(items[k]));
                }
                assert forall|j: int| #![trigger s[j]] 0 <= j < s.len() && (s[j]).href is Some
                    implies exists|k: int| 0 <= k < idx.len() && idx[k] == j by {
                    assert(f(s[j]) is Some);
                }
                assert(build(page)->Ok_0.items == items);
                assert(increasing_positions(idx, s.len() as int));
            }
            assert((exists|j: int| 0 <= j < s.len() && (#[trigger] f(s[j])) is Some) <==> (exists|j: int| #![trigger s[j]] 0 <= j < s.len() && (s[j]).href is Some)) by {
                if exists|j: int| #![trigger s[j]] 0 <= j < s.len() && (s[j]).href is Some {
                    let j = choose|j: int| #![trigger s[j]] 0 <= j < s.len() && (s[j]).href is Some;
                    assert(f(s[j]) is Some);
                }
                if exists|j: int| 0 <= j < s.len() && (#[trigger] f(s[j])) is Some {
                    let j = choose|j: int| 0 <= j < s.len() && (#[trigger] f(s[j])) is Some;
                    assert((s[j]).href is Some);
                }
            }
        }
    }
}

} // verus!
