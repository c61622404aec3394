//! RSS channels: the library's own model of a feed, and its rendering as XML.

use vstd::prelude::*;

verus! {

/// What a GUID holds: its value and whether it is a permalink.
pub struct GuidModel {
    pub value: Seq<char>,
    pub permalink: bool,
}

/// What a feed item holds.
pub struct ItemModel {
    pub title: Seq<char>,
    pub link: Option<Seq<char>>,
    pub guid: GuidModel,
}

/// What a channel holds.
pub struct ChannelModel {
    pub title: Seq<char>,
    pub link: Seq<char>,
    pub description: Seq<char>,
    pub language: Seq<char>,
    pub copyright: Seq<char>,
    pub items: Seq<ItemModel>,
}

/// The globally unique identifier of a feed item.
pub struct Guid {
    pub value: String,
    pub permalink: bool,
}

impl View for Guid {
    type V = GuidModel;

    open spec fn view(&self) -> GuidModel {
        GuidModel { value: self.value@, permalink: self.permalink }
    }
}

/// The text of an optional string.
pub open spec fn opt_text(o: Option<String>) -> Option<Seq<char>> {
    match o {
        Some(s) => Some(s@),
        None => None,
    }
}

/// One entry of a feed. Every item that a site builds has a title and a GUID.
pub struct Item {
    pub title: String,
    pub link: Option<String>,
    pub guid: Guid,
}

impl View for Item {
    type V = ItemModel;

    open spec fn view(&self) -> ItemModel {
        ItemModel { title: self.title@, link: opt_text(self.link), guid: self.guid@ }
    }
}

/// The models of a sequence of items.
pub open spec fn item_models(items: Seq<Item>) -> Seq<ItemModel> {
    items.map_values(|i: Item| i@)
}

/// A feed. Every channel that a site builds states its language and copyright.
pub struct Channel {
    pub title: String,
    pub link: String,
    pub description: String,
    pub language: String,
    pub copyright: String,
    pub items: Vec<Item>,
}

impl View for Channel {
    type V = ChannelModel;

    open spec fn view(&self) -> ChannelModel {
        ChannelModel {
            title: self.title@,
            link: self.link@,
            description: self.description@,
            language: self.language@,
            copyright: self.copyright@,
            items: item_models(self.items@),
        }
    }
}

/// The item whose link is also its GUID, marked as a permalink: the shape of
/// most items the sites build.
pub open spec fn permalink_item(title: Seq<char>, link: Seq<char>) -> ItemModel {
    ItemModel {
        title,
        link: Some(link),
        guid: GuidModel { value: link, permalink: true },
    }
}

/// Builds the item whose link is also its GUID, marked as a permalink.
pub fn permalink_item_of(title: String, link: String) -> (item: Item)
    ensures
        item@ == permalink_item(title@, link@),
{
    let guid = Guid { value: link.clone(), permalink: true };
    Item { title, link: Some(link), guid }
}

/// The XML text of an RSS document that holds the channel, as the rss crate
/// writes it.
pub uninterp spec fn rss_xml(channel: ChannelModel) -> Seq<char>;

/// Renders a channel as an RSS document with the rss crate: the channel's
/// title, link, description, language, copyright and items (each with its
/// title, link and GUID) go into an `rss::Channel`, every other field keeps its
/// default, and `to_string` writes the XML. The result is named, not stated:
/// it is whatever the rss crate writes for these fields.
#[verifier::external_body]
pub(crate) fn render(channel: &Channel) -> (xml: String)
    ensures
        xml@ == rss_xml(channel@),
{
    let items = channel.items.iter().map(|i| rss::Item {
        title: Some(i.title.clone()),
        link: i.link.clone(),
        guid: Some(rss::Guid { value: i.guid.value.clone(), permalink: i.guid.permalink }),
        ..Default::default()
    }).collect();
    rss::Channel {
        title: channel.title.clone(),
        link: channel.link.clone(),
        description: channel.description.clone(),
        language: Some(channel.language.clone()),
        copyright: Some(channel.copyright.clone()),
        items,
        ..Default::default()
    }.to_string()
}

} // verus!
