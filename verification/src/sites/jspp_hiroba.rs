//! The questions and answers on plants of the Japanese Society of Plant
//! Physiologists.

use vstd::prelude::*;

use crate::feed::{item_models, permalink_item, permalink_item_of, Channel, ChannelModel, Item, ItemModel};
use crate::page::{
    css_select_nested, element_models, nested_models, select_nested, text_result, Element,
    ElementModel,
};
use crate::sites::{
    increasing_positions, item_positions, lemma_filter_items_positions, lemma_filter_items_some,
    build_view, channel_of, feed_outcome, filter_items, finish_feed, present_text,
    lemma_filter_items_step, site_channel, BuildError, BuildErrorModel, Site,
};

verus! {

/// The questions and answers on plants of the Japanese Society of Plant
/// Physiologists.
pub struct JsppHiroba {}

/// The page that lists the questions.
pub open spec fn page_address() -> Seq<char> {
    "https://jspp.org/hiroba/q_and_a/"@
}

/// The table of questions.
pub open spec fn table_selector() -> Seq<char> {
    ".left > table > tbody"@
}

/// The links of the table.
pub open spec fn link_selector() -> Seq<char> {
    "a"@
}

/// The item of a question link: none without `href`, else its content and
/// the society's address followed by the `href`.
pub open spec fn question_item(e: ElementModel) -> Option<ItemModel> {
    match e.href {
        None => None,
        Some(h) => Some(permalink_item(e.inner_html, "https://jspp.org/"@ + h)),
    }
}

/// `question_item` as a value.
pub open spec fn question_item_fn() -> spec_fn(ElementModel) -> Option<ItemModel> {
    |e: ElementModel| question_item(e)
}

/// The channel of the questions.
pub open spec fn channel(items: Seq<ItemModel>) -> ChannelModel {
    site_channel(
        "一般社団法人日本植物生理学会 植物Q&A"@,
        "https://jspp.org/hiroba/q_and_a/"@,
        "本質問コーナーは、日本植物生理学会の広報委員会が運営しています。「植物のふしぎ」に関するご質問に、サイエンスアドバイザーや日本植物生理学会の会員を中心とした植物科学の研究者がボランティアでお答えしています。"@,
        "一般社団法人日本植物生理学会"@,
        items,
    )
}

/// The feed of a page: no table is an error; else one item per link with an
/// `href` in the first table, in page order, possibly none.
pub open spec fn build(page: Seq<char>) -> Result<ChannelModel, BuildErrorModel> {
    match css_select_nested(page, table_selector(), link_selector()) {
        None => Err(BuildErrorModel::InvalidSelector),
        Some(m) => if m.len() == 0 {
            Err(BuildErrorModel::NewsNotFound)
        } else {
            Ok(channel(filter_items(m[0].inner, question_item_fn())))
        },
    }
}

impl JsppHiroba {
    /// The items of the question links.
    pub fn items(links: &Vec<Element>) -> (items: Vec<Item>)
        ensures
            item_models(items@) == filter_items(element_models(links@), question_item_fn()),
    {
        let ghost m = element_models(links@);
        let mut items: Vec<Item> = Vec::new();
        let n = links.len();
        for i in 0..n
            invariant
                n == links@.len(),
                m == element_models(links@),
                item_models(items@) == filter_items(m.take(i as int), question_item_fn()),
        {
            proof { lemma_filter_items_step(m, i as int, question_item_fn()); }
            let e = &links[i];
            assert(m[i as int] == e@);
            if e.href.is_some() {
                let link = String::from_str("https://jspp.org/").concat(present_text(&e.href).as_str());
                let item = permalink_item_of(e.inner_html.clone(), link);
                items.push(item);
                assert(item_models(items@) =~= filter_items(m.take(i as int), question_item_fn()).push(item@));
            }
        }
        assert(m.take(n as int) =~= m);
        items
    }

    /// The feed of a page.
    pub fn build_rss(page: &str) -> (r: Result<Channel, BuildError>)
        ensures
            build_view(r) == build(page@),
    {
        let tables = match select_nested(page, ".left > table > tbody", "a") {
            Some(e) => e,
            None => return Err(BuildError::InvalidSelector),
        };
        if tables.len() == 0 {
            return Err(BuildError::NewsNotFound);
        }
        assert(nested_models(tables@)[0].inner == element_models(tables@[0].inner@));
        let items = JsppHiroba::items(&tables[0].inner);
        Ok(channel_of(
            "一般社団法人日本植物生理学会 植物Q&A",
            "https://jspp.org/hiroba/q_and_a/",
            "本質問コーナーは、日本植物生理学会の広報委員会が運営しています。「植物のふしぎ」に関するご質問に、サイエンスアドバイザーや日本植物生理学会の会員を中心とした植物科学の研究者がボランティアでお答えしています。",
            "一般社団法人日本植物生理学会",
            items,
        ))
    }
}

impl Site for JsppHiroba {
    /// Every page: the feed's entries need nothing the page may lack.
    open spec fn admitted(&self, page_url: Seq<char>, page: Seq<char>) -> bool {
        true
    }

    fn admits(&self, page_url: &str, page: &str) -> (r: bool) {
        true
    }

    fn page_url(&self, unix_secs: i64) -> (r: Option<String>)
        ensures
            r matches Some(u) && u@ == page_address(),
    {
        Some(String::from_str("https://jspp.org/hiroba/q_and_a/"))
    }

    fn user_agent(&self) -> (r: Option<String>)
        ensures
            r is None,
    {
        None
    }

    fn feed(&self, page_url: &str, page: &str) -> (r: Result<String, String>)
        ensures
            text_result(r) == feed_outcome(build(page@)),
    {
        finish_feed(JsppHiroba::build_rss(page))
    }
}

/// The feed lists, in page order, exactly the links with an `href` of the
/// first question table, each as its content and the society's address
/// before its `href`; a page without the table has no feed.
pub proof fn law_one_item_per_linked_question(page: Seq<char>)
    ensures
        match css_select_nested(page, table_selector(), link_selector()) {
            None => build(page) == Err::<ChannelModel, BuildErrorModel>(BuildErrorModel::InvalidSelector),
            Some(m) => true ==> {
                &&& (build(page) is Ok <==> m.len() > 0)
                &&& build(page) matches Ok(c) ==> {
                    &&& c.title == "一般社団法人日本植物生理学会 植物Q&A"@
                    &&& m.len() > 0
                    &&& exists|idx: Seq<int>| {
                        &&& idx.len() == c.items.len()
                        &&& increasing_positions(idx, m[0].inner.len() as int)
                        &&& forall|j: int| #![trigger m[0].inner[j]] 0 <= j < m[0].inner.len() && (m[0].inner[j]).href is Some
                            ==> exists|k: int| 0 <= k < idx.len() && idx[k] == j
                        &&& forall|k: int| 0 <= k < idx.len() ==> {
                            let x = m[0].inner[#[trigger] idx[k]];
                            &&& x.href is Some
                            &&& c.items[k] == permalink_item(x.inner_html, "https://jspp.org/"@ + x.href.unwrap())
                        }
                    }
                }
            },
        },
{
    if let Some(m) = css_select_nested(page, table_selector(), link_selector()) {
        if m.len() > 0 {
            let s = m[0].inner;
            let f = question_item_fn();
            lemma_filter_items_positions(s, f);
            lemma_filter_items_some(s, f);
            if true && build(page) is Ok {
                let items = filter_items(s, f);
                let idx = choose|idx: Seq<int>| item_positions(s, f, idx);
                assert forall|k: int| 0 <= k < idx.len() implies {
                    let x = s[#[trigger] idx[k]];
                    &&& x.href is Some
                    &&& items[k] == permalink_item(x.inner_html, "https://jspp.org/"@ + x.href.unwrap())
                } by {
                    assert(f(s[idx[k]]) == Some(items[k]));
                }
                assert forall|j: int| #![trigger s[j]] 0 <= j < s.len() && (s[j]).href is Some
                    implies exists|k: int| 0 <= k < idx.len() && idx[k] == j by {
                    assert(f(s[j]) is Some);
                }
                assert(build(page)->Ok_0.items == items);
                assert(increasing_positions(idx, s.len() as int));
            }
            assert((exists|j: int| 0 <= j < s.len() && (#[trigger] f(s[j])) is Some) <==> (exists|j: int| #![trigger s[j]] 0 <= j < s.len() && (s[j]).href is Some)) by {
                if exists|j: int| #![trigger s[j]] 0 <= j < s.len() && (s[j]).href is Some {
                    let j = choose|j: int| #![trigger s[j]] 0 <= j < s.len() && (s[j]).href is Some;
                    assert(f(s[j]) is Some);
                }
                if exists|j: int| 0 <= j < s.len() && (#[trigger] f(s[j])) is Some {
                    let j = choose|j: int| 0 <= j < s.len() && (#[trigger] f(s[j])) is Some;
                    assert((s[j]).href is Some);
                }
            }
        }
    }
}

} // verus!
