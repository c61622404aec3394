//! The blog of Akotsu.

use vstd::prelude::*;

use crate::feed::{item_models, permalink_item, permalink_item_of, Channel, ChannelModel, Item, ItemModel};
use crate::page::{
    css_select_nested, element_models, nested_models, select_nested, text_result, Element,
    ElementModel,
};
use crate::sites::{
    increasing_positions, item_positions, lemma_filter_items_positions, lemma_filter_items_some,
    build_view, channel_of, feed_outcome, filter_items, finish_feed, present_text,
    lemma_filter_items_step, site_channel, BuildError, BuildErrorModel, Site,
};

verus! {

/// The blog of Akotsu.
pub struct Akotsu;

/// The blog's address, which is also its page of posts.
pub open spec fn page_address() -> Seq<char> {
    "https://akotsu.com/blog/"@
}

/// The part of the page that holds the posts.
pub open spec fn contents_selector() -> Seq<char> {
    "#contents"@
}

/// The links of the posts.
pub open spec fn post_selector() -> Seq<char> {
    "article > h2 > a"@
}

/// The item of a post link: none without `href`, else its content and the
/// blog's address followed by the `href`.
pub open spec fn post_item(e: ElementModel) -> Option<ItemModel> {
    match e.href {
        None => None,
        Some(h) => Some(permalink_item(e.inner_html, page_address() + h)),
    }
}

/// `post_item` as a value.
pub open spec fn post_item_fn() -> spec_fn(ElementModel) -> Option<ItemModel> {
    |e: ElementModel| post_item(e)
}

/// The channel of the blog.
pub open spec fn channel(items: Seq<ItemModel>) -> ChannelModel {
    site_channel("蛙骨"@, "https://akotsu.com/"@, "あこつの おみごと さいと"@, "齋木麻由（P.N　蛙骨）"@, items)
}

/// The feed of a page: no contents is an error; else one item per post link
/// with an `href` in the first contents, in page order; none at all is an
/// error.
pub open spec fn build(page: Seq<char>) -> Result<ChannelModel, BuildErrorModel> {
    match css_select_nested(page, contents_selector(), post_selector()) {
        None => Err(BuildErrorModel::InvalidSelector),
        Some(m) => if m.len() == 0 {
            Err(BuildErrorModel::NewsNotFound)
        } else if filter_items(m[0].inner, post_item_fn()).len() == 0 {
            Err(BuildErrorModel::NoItems)
        } else {
            Ok(channel(filter_items(m[0].inner, post_item_fn())))
        },
    }
}

impl Akotsu {
    /// The items of the post links.
    pub fn items(links: &Vec<Element>) -> (items: Vec<Item>)
        ensures
            item_models(items@) == filter_items(element_models(links@), post_item_fn()),
    {
        let ghost m = element_models(links@);
        let mut items: Vec<Item> = Vec::new();
        let n = links.len();
        for i in 0..n
            invariant
                n == links@.len(),
                m == element_models(links@),
                item_models(items@) == filter_items(m.take(i as int), post_item_fn()),
        {
            proof { lemma_filter_items_step(m, i as int, post_item_fn()); }
            let e = &links[i];
            assert(m[i as int] == e@);
            if e.href.is_some() {
                let link = String::from_str("https://akotsu.com/blog/").concat(present_text(&e.href).as_str());
                let item = permalink_item_of(e.inner_html.clone(), link);
                items.push(item);
                assert(item_models(items@) =~= filter_items(m.take(i as int), post_item_fn()).push(item@));
            }
        }
        assert(m.take(n as int) =~= m);
        items
    }

    /// The feed of a page.
    pub fn build_rss(page: &str) -> (r: Result<Channel, BuildError>)
        ensures
            build_view(r) == build(page@),
    {
        let contents = match select_nested(page, "#contents", "article > h2 > a") {
            Some(e) => e,
            None => return Err(BuildError::InvalidSelector),
        };
        if contents.len() == 0 {
            return Err(BuildError::NewsNotFound);
        }
        assert(nested_models(contents@)[0].inner == element_models(contents@[0].inner@));
        let items = Akotsu::items(&contents[0].inner);
        if items.len() == 0 {
            return Err(BuildError::NoItems);
        }
        Ok(channel_of("蛙骨", "https://akotsu.com/", "あこつの おみごと さいと", "齋木麻由（P.N　蛙骨）", items))
    }
}

impl Site for Akotsu {
    /// Every page: the feed's entries need nothing the page may lack.
    open spec fn admitted(&self, page_url: Seq<char>, page: Seq<char>) -> bool {
        true
    }

    fn admits(&self, page_url: &str, page: &str) -> (r: bool) {
        true
    }

    fn page_url(&self, unix_secs: i64) -> (r: Option<String>)
        ensures
            r matches Some(u) && u@ == page_address(),
    {
        Some(String::from_str("https://akotsu.com/blog/"))
    }

    fn user_agent(&self) -> (r: Option<String>)
        ensures
            r is None,
    {
        None
    }

    fn feed(&self, page_url: &str, page: &str) -> (r: Result<String, String>)
        ensures
            text_result(r) == feed_outcome(build(page@)),
    {
        finish_feed(Akotsu::build_rss(page))
    }
}

/// The feed lists, in page order, exactly the post links with an `href` of the
/// first contents, each as its content and the blog's address before its
/// `href`; a page without contents, or without such a link, has no feed.
pub proof fn law_one_item_per_linked_post(page: Seq<char>)
    ensures
        match css_select_nested(page, contents_selector(), post_selector()) {
            None => build(page) == Err::<ChannelModel, BuildErrorModel>(BuildErrorModel::InvalidSelector),
            Some(m) => true ==> {
                &&& (build(page) is Ok <==> m.len() > 0 && (exists|j: int| #![trigger m[0].inner[j]] 0 <= j < m[0].inner.len() && (m[0].inner[j]).href is Some))
                &&& build(page) matches Ok(c) ==> {
                    &&& c.title == "蛙骨"@
                    &&& m.len() > 0
                    &&& exists|idx: Seq<int>| {
                        &&& idx.len() == c.items.len()
                        &&& increasing_positions(idx, m[0].inner.len() as int)
                        &&& forall|j: int| #![trigger m[0].inner[j]] 0 <= j < m[0].inner.len() && (m[0].inner[j]).href is Some
                            ==> exists|k: int| 0 <= k < idx.len() && idx[k] == j
                        &&& forall|k: int| 0 <= k < idx.len() ==> {
                            let x = m[0].inner[#[trigger] idx[k]];
                            &&& x.href is Some
                            &&& c.items[k] == permalink_item(x.inner_html, "https://akotsu.com/blog/"@ + x.href.unwrap())
                        }
                    }
                }
            },
        },
{
    if let Some(m) = css_select_nested(page, contents_selector(), post_selector()) {
        if m.len() > 0 {
            let s = m[0].inner;
            let f = post_item_fn();
            lemma_filter_items_positions(s, f);
            lemma_filter_items_some(s, f);
            if true && build(page) is Ok {
                let items = filter_items(s, f);
                let idx = choose|idx: Seq<int>| item_positions(s, f, idx);
                assert forall|k: int| 0 <= k < idx.len() implies {
                    let x = s[#[trigger] idx[k]];
                    &&& x.href is Some
                    &&& items[k] == permalink_item(x.inner_html, "https://akotsu.com/blog/"@ + x.href.unwrap())
                } by {
                    assert(f(s[idx[k]]) == Some(items[k]));
                }
                assert forall|j: int| #![trigger s[j]] 0 <= j < s.len() && (s[j]).href is Some
                    implies exists|k: int| 0 <= k < idx.len() && idx[k] == j by {
                    assert(f(s[j]) is Some);
                }
                assert(build(page)->Ok_0.items == items);
                assert(increasing_positions(idx, s.len() as int));
            }
            assert((exists|j: int| 0 <= j < s.len() && (#[trigger] f(s[j])) is Some) <==> (exists|j: int| #![trigger s[j]] 0 <= j < s.len() && (s[j]).href is Some)) by {
                if exists|j: int| #![trigger s[j]] 0 <= j < s.len() && (s[j]).href is Some {
                    let j = choose|j: int| #![trigger s[j]] 0 <= j < s.len() && (s[j]).href is Some;
                    assert(f(s[j]) is Some);
                }
                if exists|j: int| 0 <= j < s.len() && (#[trigger] f(s[j])) is Some {
                    let j = choose|j: int| 0 <= j < s.len() && (#[trigger] f(s[j])) is Some;
                    assert((s[j]).href is Some);
                }
            }
        }
    }
}

} // verus!
