//! The news of the Japan Society for Cult Prevention and Recovery.

use vstd::prelude::*;

use crate::feed::{item_models, permalink_item, permalink_item_of, Channel, ChannelModel, Item, ItemModel};
use crate::page::{css_select_nested, nested_models, select_nested, text_result, Nested, NestedModel};
use crate::sites::{
    increasing_positions, item_positions, lemma_filter_items_positions, lemma_filter_items_some,
    build_view, channel_of, feed_outcome, filter_items, finish_feed, present_text,
    lemma_filter_items_step, site_channel, BuildError, BuildErrorModel, Site,
};

verus! {

/// The news of the Japan Society for Cult Prevention and Recovery.
pub struct Jscpr;

/// The news page.
pub open spec fn page_address() -> Seq<char> {
    "http://www.jscpr.org/news"@
}

/// The links of the news page.
pub open spec fn entry_selector() -> Seq<char> {
    "#contents a"@
}

/// The term of a definition list inside a link.
pub open spec fn title_selector() -> Seq<char> {
    "dl > dt"@
}

/// The item of a link: none without a term, without `href`, or when the
/// first term's second child node is missing or no text; else that text as
/// the title, and the link.
pub open spec fn entry_item(n: NestedModel) -> Option<ItemModel> {
    if n.inner.len() == 0 {
        None
    } else {
        match n.href {
            None => None,
            Some(h) => if n.inner[0].child_texts.len() < 2 {
                None
            } else {
                match n.inner[0].child_texts[1] {
                    None => None,
                    Some(t) => Some(permalink_item(t, h)),
                }
            },
        }
    }
}

/// `entry_item` as a value.
pub open spec fn entry_item_fn() -> spec_fn(NestedModel) -> Option<ItemModel> {
    |n: NestedModel| entry_item(n)
}

/// The channel of the news.
pub open spec fn channel(items: Seq<ItemModel>) -> ChannelModel {
    site_channel(
        "日本脱カルト協会"@,
        "http://www.jscpr.org/news"@,
        "当会は破壊的カルトの諸問題の研究をおこない、その成果を発展・普及させることを目的としたネットワークです。"@,
        "日本脱カルト協会"@,
        items,
    )
}

/// The feed of a page: one item per link that `entry_item` makes one of, in
/// page order; none at all is an error.
pub open spec fn build(page: Seq<char>) -> Result<ChannelModel, BuildErrorModel> {
    match css_select_nested(page, entry_selector(), title_selector()) {
        None => Err(BuildErrorModel::InvalidSelector),
        Some(m) => if filter_items(m, entry_item_fn()).len() == 0 {
            Err(BuildErrorModel::NoItems)
        } else {
            Ok(channel(filter_items(m, entry_item_fn())))
        },
    }
}

impl Jscpr {
    /// The items of the links.
    pub fn items(entries: &Vec<Nested>) -> (items: Vec<Item>)
        ensures
            item_models(items@) == filter_items(nested_models(entries@), entry_item_fn()),
    {
        let ghost m = nested_models(entries@);
        let mut items: Vec<Item> = Vec::new();
        let n = entries.len();
        for i in 0..n
            invariant
                n == entries@.len(),
                m == nested_models(entries@),
                item_models(items@) == filter_items(m.take(i as int), entry_item_fn()),
        {
            proof { lemma_filter_items_step(m, i as int, entry_item_fn()); }
            let entry = &entries[i];
            assert(m[i as int] == entry@);
            if entry.inner.len() > 0 && entry.href.is_some() {
                let term = &entry.inner[0];
                assert(entry@.inner[0] == term@);
                if term.child_texts.len() >= 2 {
                    assert(term@.child_texts[1] == crate::feed::opt_text(term.child_texts@[1]));
                    match &term.child_texts[1] {
                        Some(t) => {
                            let item = permalink_item_of(t.clone(), present_text(&entry.href));
                            items.push(item);
                            assert(item_models(items@) =~= filter_items(m.take(i as int), entry_item_fn()).push(item@));
                        },
                        None => {},
                    }
                }
            }
        }
        assert(m.take(n as int) =~= m);
        items
    }

    /// The feed of a page.
    pub fn build_rss(page: &str) -> (r: Result<Channel, BuildError>)
        ensures
            build_view(r) == build(page@),
    {
        let entries = match select_nested(page, "#contents a", "dl > dt") {
            Some(e) => e,
            None => return Err(BuildError::InvalidSelector),
        };
        let items = Jscpr::items(&entries);
        if items.len() == 0 {
            return Err(BuildError::NoItems);
        }
        Ok(channel_of(
            "日本脱カルト協会",
            "http://www.jscpr.org/news",
            "当会は破壊的カルトの諸問題の研究をおこない、その成果を発展・普及させることを目的としたネットワークです。",
            "日本脱カルト協会",
            items,
        ))
    }
}

impl Site for Jscpr {
    /// Every page: the feed's entries need nothing the page may lack.
    open spec fn admitted(&self, page_url: Seq<char>, page: Seq<char>) -> bool {
        true
    }

    fn admits(&self, page_url: &str, page: &str) -> (r: bool) {
        true
    }

    fn page_url(&self, unix_secs: i64) -> (r: Option<String>)
        ensures
            r matches Some(u) && u@ == page_address(),
    {
        Some(String::from_str("http://www.jscpr.org/news"))
    }

    fn user_agent(&self) -> (r: Option<String>)
        ensures
            r is None,
    {
        None
    }

    fn feed(&self, page_url: &str, page: &str) -> (r: Result<String, String>)
        ensures
            text_result(r) == feed_outcome(build(page@)),
    {
        finish_feed(Jscpr::build_rss(page))
    }
}

/// The feed lists, in page order, exactly the links with an `href` whose first
/// term has a text node as its second child, each as that text and its
/// `href`; a page with no such link has no feed.
pub proof fn law_one_item_per_dated_link(page: Seq<char>)
    ensures
        match css_select_nested(page, entry_selector(), title_selector()) {
            None => build(page) == Err::<ChannelModel, BuildErrorModel>(BuildErrorModel::InvalidSelector),
            Some(m) => true ==> {
                &&& (build(page) is Ok <==> (exists|j: int| #![trigger m[j]] 0 <= j < m.len() && (m[j]).inner.len() > 0 && (m[j]).href is Some && (m[j]).inner[0].child_texts.len() >= 2 && (m[j]).inner[0].child_texts[1] is Some))
                &&& build(page) matches Ok(c) ==> {
                    &&& c.title == "日本脱カルト協会"@
                    &&& exists|idx: Seq<int>| {
                        &&& idx.len() == c.items.len()
                        &&& increasing_positions(idx, m.len() as int)
                        &&& forall|j: int| #![trigger m[j]] 0 <= j < m.len() && (m[j]).inner.len() > 0 && (m[j]).href is Some && (m[j]).inner[0].child_texts.len() >= 2 && (m[j]).inner[0].child_texts[1] is Some
                            ==> exists|k: int| 0 <= k < idx.len() && idx[k] == j
                        &&& forall|k: int| 0 <= k < idx.len() ==> {
                            let x = m[#[trigger] idx[k]];
                            &&& x.inner.len() > 0 && x.href is Some && x.inner[0].child_texts.len() >= 2 && x.inner[0].child_texts[1] is Some
                            &&& c.items[k] == permalink_item(x.inner[0].child_texts[1].unwrap(), x.href.unwrap())
                        }
                    }
                }
            },
        },
{
    if let Some(m) = css_select_nested(page, entry_selector(), title_selector()) {
        if true {
            let s = m;
            let f = entry_item_fn();
            lemma_filter_items_positions(s, f);
            lemma_filter_items_some(s, f);
            if true && build(page) is Ok {
                let items = filter_items(s, f);
                let idx = choose|idx: Seq<int>| item_positions(s, f, idx);
                assert forall|k: int| 0 <= k < idx.len() implies {
                    let x = s[#[trigger] idx[k]];
                    &&& x.inner.len() > 0 && x.href is Some && x.inner[0].child_texts.len() >= 2 && x.inner[0].child_texts[1] is Some
                    &&& items[k] == permalink_item(x.inner[0].child_texts[1].unwrap(), x.href.unwrap())
                } by {
                    assert(f(s[idx[k]]) == Some(items[k]));
                }
                assert forall|j: int| #![trigger s[j]] 0 <= j < s.len() && (s[j]).inner.len() > 0 && (s[j]).href is Some && (s[j]).inner[0].child_texts.len() >= 2 && (s[j]).inner[0].child_texts[1] is Some
                    implies exists|k: int| 0 <= k < idx.len() && idx[k] == j by {
                    assert(f(s[j]) is Some);
                }
                assert(build(page)->Ok_0.items == items);
                assert(increasing_positions(idx, s.len() as int));
            }
            assert((exists|j: int| 0 <= j < s.len() && (#[trigger] f(s[j])) is Some) <==> (exists|j: int| #![trigger s[j]] 0 <= j < s.len() && (s[j]).inner.len() > 0 && (s[j]).href is Some && (s[j]).inner[0].child_texts.len() >= 2 && (s[j]).inner[0].child_texts[1] is Some)) by {
                if exists|j: int| #![trigger s[j]] 0 <= j < s.len() && (s[j]).inner.len() > 0 && (s[j]).href is Some && (s[j]).inner[0].child_texts.len() >= 2 && (s[j]).inner[0].child_texts[1] is Some {
                    let j = choose|j: int| #![trigger s[j]] 0 <= j < s.len() && (s[j]).inner.len() > 0 && (s[j]).href is Some && (s[j]).inner[0].child_texts.len() >= 2 && (s[j]).inner[0].child_texts[1] is Some;
                    assert(f(s[j]) is Some);
                }
                if exists|j: int| 0 <= j < s.len() && (#[trigger] f(s[j])) is Some {
                    let j = choose|j: int| 0 <= j < s.len() && (#[trigger] f(s[j])) is Some;
                    assert((s[j]).inner.len() > 0 && (s[j]).href is Some && (s[j]).inner[0].child_texts.len() >= 2 && (s[j]).inner[0].child_texts[1] is Some);
                }
            }
        }
    }
}

} // verus!
