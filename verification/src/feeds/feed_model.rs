use vstd::prelude::*;

verus! {

/// One feed entry. Every field is optional at the parse boundary: a feed
/// document is not guaranteed complete, and an item missing a field that an
/// action needs is skipped, never a crash.
pub struct Item {
    pub title: Option<String>,
    pub link: Option<String>,
    pub linktype: Option<String>,
    pub size: Option<String>,
    pub pub_date: Option<String>,
    pub info_hash: Option<String>,
}

pub struct Channel {
    pub items: Vec<Item>,
}

/// A parsed feed document: one channel holding the items.
pub struct RssFeedModel {
    pub channel: Channel,
}

/// A feed document that could not be fetched or read.
#[derive(Debug)]
pub struct RssFeedParseError(pub String);

impl RssFeedModel {
    pub fn get_items(&self) -> (r: &Vec<Item>)
        ensures
            *r == self.channel.items,
    {
        &self.channel.items
    }
}

} // verus!
