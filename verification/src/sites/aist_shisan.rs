//! The assets that AIST, the National Institute of Advanced Industrial
//! Science and Technology, surveys demand for before disposing of them.

use vstd::prelude::*;

use crate::feed::{item_models, Channel, ChannelModel, Guid, GuidModel, Item, ItemModel};
use crate::page::{css_select_nested, nested_models, select_nested, text_result, Nested, NestedModel};
use crate::sites::{
    increasing_positions, item_positions, lemma_filter_items_positions, lemma_filter_items_some,
    build_view, channel_of, feed_outcome, filter_items, finish_feed, lemma_filter_items_step,
    site_channel, BuildError, BuildErrorModel, Site,
};

verus! {

/// The assets that AIST surveys demand for.
pub struct AistShisan;

/// The page of the surveys, which every item links to.
pub open spec fn page_address() -> Seq<char> {
    "https://www.aist.go.jp/aist_j/procure/asset/jyuyou.html"@
}

/// The rows of the table of surveys.
pub open spec fn row_selector() -> Seq<char> {
    "#infoCMScontents_14139 > table > tbody > tr"@
}

/// The cells of a row.
pub open spec fn cell_selector() -> Seq<char> {
    "td"@
}

/// The item of a row: none without cells; else the second, third and fourth
/// cells joined by ` / ` as the title, the page as the link, and the first
/// cell as the GUID.
pub open spec fn row_item(n: NestedModel) -> Option<ItemModel> {
    if n.inner.len() == 0 {
        None
    } else {
        Some(ItemModel {
            title: n.inner[1].inner_html + " / "@ + n.inner[2].inner_html + " / "@ + n.inner[3].inner_html,
            link: Some(page_address()),
            guid: GuidModel { value: n.inner[0].inner_html, permalink: true },
        })
    }
}

/// `row_item` as a value.
pub open spec fn row_item_fn() -> spec_fn(NestedModel) -> Option<ItemModel> {
    |n: NestedModel| row_item(n)
}

/// Every row that has cells has at least four.
pub open spec fn all_complete(m: Seq<NestedModel>) -> bool {
    forall|i: int| 0 <= i < m.len() && (#[trigger] m[i]).inner.len() > 0 ==> m[i].inner.len() >= 4
}

/// The channel of the surveys.
pub open spec fn channel(items: Seq<ItemModel>) -> ChannelModel {
    site_channel(
        "AIST 取得した資産の需要調査 調査中の案件"@,
        "https://www.aist.go.jp/aist_j/procure/asset/jyuyou.html"@,
        "産業技術総合研究所では、取得した資産の処分の検討にあたって、需要調査をおこなっております。"@,
        "Copyright © National Institute of Advanced Industrial Science and Technology （AIST）"@,
        items,
    )
}

/// The feed of a page: one item per row with cells, in page order; none at
/// all is an error. Every row with cells must have at least four.
pub open spec fn build(page: Seq<char>) -> Result<ChannelModel, BuildErrorModel> {
    match css_select_nested(page, row_selector(), cell_selector()) {
        None => Err(BuildErrorModel::InvalidSelector),
        Some(m) => if !all_complete(m) {
            Err(BuildErrorModel::MissingCells)
        } else if filter_items(m, row_item_fn()).len() == 0 {
            Err(BuildErrorModel::NoItems)
        } else {
            Ok(channel(filter_items(m, row_item_fn())))
        },
    }
}

/// Every row of the page that has cells has at least four. A page with a row with one to three cells is broken: `build_rss`
/// and `feed` take no such page, and `try_build_rss` answers it with an
/// error.
pub open spec fn admitted(page: Seq<char>) -> bool {
    css_select_nested(page, row_selector(), cell_selector()) matches Some(m) ==> all_complete(m)
}

impl AistShisan {
    /// Tells whether every row with cells has at least four.
    pub fn complete(rows: &Vec<Nested>) -> (r: bool)
        ensures
            r == all_complete(nested_models(rows@)),
    {
        let ghost m = nested_models(rows@);
        let n = rows.len();
        for i in 0..n
            invariant
                n == rows@.len(),
                m == nested_models(rows@),
                forall|j: int| 0 <= j < i && (#[trigger] m[j]).inner.len() > 0 ==> m[j].inner.len() >= 4,
        {
            assert(m[i as int] == rows@[i as int]@);
            if rows[i].inner.len() > 0 && rows[i].inner.len() < 4 {
                return false;
            }
        }
        true
    }

    /// The items of the rows, one per row with cells.
    pub fn items(rows: &Vec<Nested>) -> (items: Vec<Item>)
        requires
            all_complete(nested_models(rows@)),
        ensures
            item_models(items@) == filter_items(nested_models(rows@), row_item_fn()),
    {
        let ghost m = nested_models(rows@);
        let mut items: Vec<Item> = Vec::new();
        let n = rows.len();
        for i in 0..n
            invariant
                n == rows@.len(),
                m == nested_models(rows@),
                all_complete(m),
                item_models(items@) == filter_items(m.take(i as int), row_item_fn()),
        {
            proof { lemma_filter_items_step(m, i as int, row_item_fn()); }
            let row = &rows[i];
            assert(m[i as int] == row@);
            if row.inner.len() > 0 {
                assert(m[i as int].inner.len() >= 4);
                let cells = &row.inner;
                assert(row@.inner[0] == cells@[0]@ && row@.inner[1] == cells@[1]@);
                assert(row@.inner[2] == cells@[2]@ && row@.inner[3] == cells@[3]@);
                let title = cells[1].inner_html.clone().concat(" / ").concat(cells[2].inner_html.as_str())
                    .concat(" / ").concat(cells[3].inner_html.as_str());
                let item = Item {
                    title,
                    link: Some(String::from_str("https://www.aist.go.jp/aist_j/procure/asset/jyuyou.html")),
                    guid: Guid { value: cells[0].inner_html.clone(), permalink: true },
                };
                items.push(item);
                assert(item_models(items@) =~= filter_items(m.take(i as int), row_item_fn()).push(item@));
            }
        }
        assert(m.take(n as int) =~= m);
        items
    }

    /// The feed of an admitted page.
    pub fn build_rss(page: &str) -> (r: Result<Channel, BuildError>)
        requires
            admitted(page@),
        ensures
            build_view(r) == build(page@),
    {
        let rows = match select_nested(page, "#infoCMScontents_14139 > table > tbody > tr", "td") {
            Some(e) => e,
            None => return Err(BuildError::InvalidSelector),
        };
        let items = AistShisan::items(&rows);
        if items.len() == 0 {
            return Err(BuildError::NoItems);
        }
        Ok(channel_of(
            "AIST 取得した資産の需要調査 調査中の案件",
            "https://www.aist.go.jp/aist_j/procure/asset/jyuyou.html",
            "産業技術総合研究所では、取得した資産の処分の検討にあたって、需要調査をおこなっております。",
            "Copyright © National Institute of Advanced Industrial Science and Technology （AIST）",
            items,
        ))
    }

    /// Tells whether the page is one `build_rss` admits.
    pub fn admits(page: &str) -> (r: bool)
        ensures
            r == admitted(page@),
    {
        match select_nested(page, "#infoCMScontents_14139 > table > tbody > tr", "td") {
            Some(e) => AistShisan::complete(&e),
            None => true,
        }
    }

    /// The feed of any page: `Err(MissingCells)` where the page is not admitted.
    pub fn try_build_rss(page: &str) -> (r: Result<Channel, BuildError>)
        ensures
            build_view(r) == build(page@),
    {
        if !AistShisan::admits(page) {
            return Err(BuildError::MissingCells);
        }
        AistShisan::build_rss(page)
    }
}

impl Site for AistShisan {
    open spec fn admitted(&self, page_url: Seq<char>, page: Seq<char>) -> bool {
        admitted(page)
    }

    fn admits(&self, page_url: &str, page: &str) -> (r: bool) {
        AistShisan::admits(page)
    }

    fn page_url(&self, unix_secs: i64) -> (r: Option<String>)
        ensures
            r matches Some(u) && u@ == page_address(),
    {
        Some(String::from_str("https://www.aist.go.jp/aist_j/procure/asset/jyuyou.html"))
    }

    fn user_agent(&self) -> (r: Option<String>)
        ensures
            r is None,
    {
        None
    }

    fn feed(&self, page_url: &str, page: &str) -> (r: Result<String, String>)
        ensures
            text_result(r) == feed_outcome(build(page@)),
    {
        finish_feed(AistShisan::build_rss(page))
    }
}

/// On a page without short rows, the feed lists, in page order, exactly the
/// table rows that have cells: the second to fourth cells joined by ` / ` as
/// the title, the survey page as the link, the first cell as the GUID; a
/// page with no such row has no feed.
pub proof fn law_one_item_per_row_with_cells(page: Seq<char>)
    ensures
        match css_select_nested(page, row_selector(), cell_selector()) {
            None => build(page) == Err::<ChannelModel, BuildErrorModel>(BuildErrorModel::InvalidSelector),
            Some(m) => admitted(page) ==> {
                &&& (build(page) is Ok <==> (exists|j: int| #![trigger m[j]] 0 <= j < m.len() && (m[j]).inner.len() > 0))
                &&& build(page) matches Ok(c) ==> {
                    &&& c.title == "AIST 取得した資産の需要調査 調査中の案件"@
                    &&& exists|idx: Seq<int>| {
                        &&& idx.len() == c.items.len()
                        &&& increasing_positions(idx, m.len() as int)
                        &&& forall|j: int| #![trigger m[j]] 0 <= j < m.len() && (m[j]).inner.len() > 0
                            ==> exists|k: int| 0 <= k < idx.len() && idx[k] == j
                        &&& forall|k: int| 0 <= k < idx.len() ==> {
                            let x = m[#[trigger] idx[k]];
                            &&& x.inner.len() > 0
                            &&& c.items[k] == ItemModel { title: x.inner[1].inner_html + " / "@ + x.inner[2].inner_html + " / "@ + x.inner[3].inner_html, link: Some(page_address()), guid: GuidModel { value: x.inner[0].inner_html, permalink: true } }
                        }
                    }
                }
            },
        },
{
    if let Some(m) = css_select_nested(page, row_selector(), cell_selector()) {
        if true {
            let s = m;
            let f = row_item_fn();
            lemma_filter_items_positions(s, f);
            lemma_filter_items_some(s, f);
            if admitted(page) && build(page) is Ok {
                let items = filter_items(s, f);
                let idx = choose|idx: Seq<int>| item_positions(s, f, idx);
                assert forall|k: int| 0 <= k < idx.len() implies {
                    let x = s[#[trigger] idx[k]];
                    &&& x.inner.len() > 0
                    &&& items[k] == ItemModel { title: x.inner[1].inner_html + " / "@ + x.inner[2].inner_html + " / "@ + x.inner[3].inner_html, link: Some(page_address()), guid: GuidModel { value: x.inner[0].inner_html, permalink: true } }
                } by {
                    assert(f(s[idx[k]]) == Some(items[k]));
                }
                assert forall|j: int| #![trigger s[j]] 0 <= j < s.len() && (s[j]).inner.len() > 0
                    implies exists|k: int| 0 <= k < idx.len() && idx[k] == j by {
                    assert(f(s[j]) is Some);
                }
                assert(build(page)->Ok_0.items == items);
                assert(increasing_positions(idx, s.len() as int));
            }
            assert((exists|j: int| 0 <= j < s.len() && (#[trigger] f(s[j])) is Some) <==> (exists|j: int| #![trigger s[j]] 0 <= j < s.len() && (s[j]).inner.len() > 0)) by {
                if exists|j: int| #![trigger s[j]] 0 <= j < s.len() && (s[j]).inner.len() > 0 {
                    let j = choose|j: int| #![trigger s[j]] 0 <= j < s.len() && (s[j]).inner.len() > 0;
                    assert(f(s[j]) is Some);
                }
                if exists|j: int| 0 <= j < s.len() && (#[trigger] f(s[j])) is Some {
                    let j = choose|j: int| 0 <= j < s.len() && (#[trigger] f(s[j])) is Some;
                    assert((s[j]).inner.len() > 0);
                }
            }
        }
    }
}

} // verus!
