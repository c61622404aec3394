//! The open seminars of the Humanities Center of the University of Tokyo.

use vstd::prelude::*;

use crate::feed::{item_models, permalink_item, permalink_item_of, Channel, ChannelModel, Item, ItemModel};
use crate::page::{css_select_nested, nested_models, select_nested, text_result, Nested, NestedModel};
use crate::sites::{
    increasing_positions, item_positions, lemma_filter_items_positions, lemma_filter_items_some,
    build_view, channel_of, feed_outcome, filter_items, finish_feed, lemma_filter_items_step,
    nested_all_linked, nested_linked, present_text, site_channel, BuildError, BuildErrorModel, Site,
};

verus! {

/// The open seminars of the Humanities Center of the University of Tokyo.
pub struct HMC {}

/// The page that lists the seminars.
pub open spec fn page_address() -> Seq<char> {
    "https://hmc.u-tokyo.ac.jp/ja/open-seminar/"@
}

/// The links to the seminars.
pub open spec fn entry_selector() -> Seq<char> {
    "div.list article.item a"@
}

/// The title inside a seminar's link.
pub open spec fn title_selector() -> Seq<char> {
    "div.title > strong"@
}

/// The item of a seminar: none without a title, else the first title and the
/// link.
pub open spec fn entry_item(n: NestedModel) -> Option<ItemModel> {
    if n.inner.len() == 0 {
        None
    } else {
        Some(permalink_item(n.inner[0].inner_html, n.href.unwrap()))
    }
}

/// `entry_item` as a value.
pub open spec fn entry_item_fn() -> spec_fn(NestedModel) -> Option<ItemModel> {
    |n: NestedModel| entry_item(n)
}

/// The channel of the seminars.
pub open spec fn channel(items: Seq<ItemModel>) -> ChannelModel {
    site_channel(
        "東京大学 ヒューマニティーズセンター オープンセミナー"@,
        "https://hmc.u-tokyo.ac.jp/ja/open-seminar/"@,
        "「公募研究」の採択者を中心にして「オープンセミナー」を一般公開形式で開催することになりました。参加料は無料です。奮ってご参加ください。"@,
        " © 2017 The University of Tokyo Humanities Center "@,
        items,
    )
}

/// The feed of a page: one item per seminar link that holds a title, in page
/// order. Every seminar link must have an `href`.
pub open spec fn build(page: Seq<char>) -> Result<ChannelModel, BuildErrorModel> {
    match css_select_nested(page, entry_selector(), title_selector()) {
        None => Err(BuildErrorModel::InvalidSelector),
        Some(m) => if nested_all_linked(m) {
            Ok(channel(filter_items(m, entry_item_fn())))
        } else {
            Err(BuildErrorModel::MissingLink)
        },
    }
}

/// Every seminar link of the page has an `href`. A page with a seminar link without `href` is broken: `build_rss`
/// and `feed` take no such page, and `try_build_rss` answers it with an
/// error.
pub open spec fn admitted(page: Seq<char>) -> bool {
    css_select_nested(page, entry_selector(), title_selector()) matches Some(m) ==> nested_all_linked(m)
}

impl HMC {
    /// The items of the seminar links, one per link that holds a title.
    pub fn items(entries: &Vec<Nested>) -> (items: Vec<Item>)
        requires
            nested_all_linked(nested_models(entries@)),
        ensures
            item_models(items@) == filter_items(nested_models(entries@), entry_item_fn()),
    {
        let ghost m = nested_models(entries@);
        let mut items: Vec<Item> = Vec::new();
        let n = entries.len();
        for i in 0..n
            invariant
                n == entries@.len(),
                m == nested_models(entries@),
                nested_all_linked(m),
                item_models(items@) == filter_items(m.take(i as int), entry_item_fn()),
        {
            proof { lemma_filter_items_step(m, i as int, entry_item_fn()); }
            let entry = &entries[i];
            assert(m[i as int] == entry@);
            assert(m[i as int].href is Some);
            if entry.inner.len() > 0 {
                let link = present_text(&entry.href);
                let item = permalink_item_of(entry.inner[0].inner_html.clone(), link);
                assert(entry@.inner[0] == entry.inner@[0]@);
                items.push(item);
                assert(item_models(items@) =~= filter_items(m.take(i as int), entry_item_fn()).push(item@));
            }
        }
        assert(m.take(n as int) =~= m);
        items
    }

    /// The feed of an admitted page.
    pub fn build_rss(page: &str) -> (r: Result<Channel, BuildError>)
        requires
            admitted(page@),
        ensures
            build_view(r) == build(page@),
    {
        let entries = match select_nested(page, "div.list article.item a", "div.title > strong") {
            Some(e) => e,
            None => return Err(BuildError::InvalidSelector),
        };
        let items = HMC::items(&entries);
        Ok(channel_of(
            "東京大学 ヒューマニティーズセンター オープンセミナー",
            "https://hmc.u-tokyo.ac.jp/ja/open-seminar/",
            "「公募研究」の採択者を中心にして「オープンセミナー」を一般公開形式で開催することになりました。参加料は無料です。奮ってご参加ください。",
            " © 2017 The University of Tokyo Humanities Center ",
            items,
        ))
    }

    /// Tells whether the page is one `build_rss` admits.
    pub fn admits(page: &str) -> (r: bool)
        ensures
            r == admitted(page@),
    {
        match select_nested(page, "div.list article.item a", "div.title > strong") {
            Some(e) => nested_linked(&e),
            None => true,
        }
    }

    /// The feed of any page: `Err(MissingLink)` where the page is not admitted.
    pub fn try_build_rss(page: &str) -> (r: Result<Channel, BuildError>)
        ensures
            build_view(r) == build(page@),
    {
        if !HMC::admits(page) {
            return Err(BuildError::MissingLink);
        }
        HMC::build_rss(page)
    }
}

impl Site for HMC {
    open spec fn admitted(&self, page_url: Seq<char>, page: Seq<char>) -> bool {
        admitted(page)
    }

    fn admits(&self, page_url: &str, page: &str) -> (r: bool) {
        HMC::admits(page)
    }

    fn page_url(&self, unix_secs: i64) -> (r: Option<String>)
        ensures
            r matches Some(u) && u@ == page_address(),
    {
        Some(String::from_str("https://hmc.u-tokyo.ac.jp/ja/open-seminar/"))
    }

    fn user_agent(&self) -> (r: Option<String>)
        ensures
            r is None,
    {
        None
    }

    fn feed(&self, page_url: &str, page: &str) -> (r: Result<String, String>)
        ensures
            text_result(r) == feed_outcome(build(page@)),
    {
        finish_feed(HMC::build_rss(page))
    }
}

/// On a page without broken links, the feed lists, in page order, exactly
/// the seminar links that hold a title, each as its first title and its
/// `href`.
pub proof fn law_one_item_per_titled_seminar(page: Seq<char>)
    ensures
        match css_select_nested(page, entry_selector(), title_selector()) {
            None => build(page) == Err::<ChannelModel, BuildErrorModel>(BuildErrorModel::InvalidSelector),
            Some(m) => admitted(page) ==> {
                &&& (build(page) is Ok <==> true)
                &&& build(page) matches Ok(c) ==> {
                    &&& c.title == "東京大学 ヒューマニティーズセンター オープンセミナー"@
                    &&& exists|idx: Seq<int>| {
                        &&& idx.len() == c.items.len()
                        &&& increasing_positions(idx, m.len() as int)
                        &&& forall|j: int| #![trigger m[j]] 0 <= j < m.len() && (m[j]).inner.len() > 0
                            ==> exists|k: int| 0 <= k < idx.len() && idx[k] == j
                        &&& forall|k: int| 0 <= k < idx.len() ==> {
                            let x = m[#[trigger] idx[k]];
                            &&& x.inner.len() > 0
                            &&& c.items[k] == permalink_item(x.inner[0].inner_html, x.href.unwrap())
                        }
                    }
                }
            },
        },
{
    if let Some(m) = css_select_nested(page, entry_selector(), title_selector()) {
        if true {
            let s = m;
            let f = entry_item_fn();
            lemma_filter_items_positions(s, f);
            lemma_filter_items_some(s, f);
            if admitted(page) && build(page) is Ok {
                let items = filter_items(s, f);
                let idx = choose|idx: Seq<int>| item_positions(s, f, idx);
                assert forall|k: int| 0 <= k < idx.len() implies {
                    let x = s[#[trigger] idx[k]];
                    &&& x.inner.len() > 0
                    &&& items[k] == permalink_item(x.inner[0].inner_html, x.href.unwrap())
                } by {
                    assert(f(s[idx[k]]) == Some(items[k]));
                }
                assert forall|j: int| #![trigger s[j]] 0 <= j < s.len() && (s[j]).inner.len() > 0
                    implies exists|k: int| 0 <= k < idx.len() && idx[k] == j by {
                    assert(f(s[j]) is Some);
                }
                assert(build(page)->Ok_0.items == items);
                assert(increasing_positions(idx, s.len() as int));
            }
            assert((exists|j: int| 0 <= j < s.len() && (#[trigger] f(s[j])) is Some) <==> (exists|j: int| #![trigger s[j]] 0 <= j < s.len() && (s[j]).inner.len() > 0)) by {
                if exists|j: int| #![trigger s[j]] 0 <= j < s.len() && (s[j]).inner.len() > 0 {
                    let j = choose|j: int| #![trigger s[j]] 0 <= j < s.len() && (s[j]).inner.len() > 0;
                    assert(f(s[j]) is Some);
                }
                if exists|j: int| 0 <= j < s.len() && (#[trigger] f(s[j])) is Some {
                    let j = choose|j: int| 0 <= j < s.len() && (#[trigger] f(s[j])) is Some;
                    assert((s[j]).inner.len() > 0);
                }
            }
        }
    }
}

} // verus!
