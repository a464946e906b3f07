use vstd::prelude::*;

use crate::digits::u32_str;
use crate::digits::parse_u32;
use crate::filters::Filters;

verus! {

/// The download-backend protocols a configuration may name.
#[derive(Clone, Copy, PartialEq, Eq, Structural, Debug)]
pub enum ClientType {
    QBittorrent,
    Deluge,
    RQBit,
}

/// The lower-case tag each client type is written and logged as.
pub open spec fn client_type_name(c: ClientType) -> Seq<char> {
    match c {
        ClientType::QBittorrent => "qbittorrent"@,
        ClientType::Deluge => "deluge"@,
        ClientType::RQBit => "rqbit"@,
    }
}

impl ClientType {
    pub fn name(&self) -> (r: String)
        ensures
            r@ == client_type_name(*self),
    {
        match self {
            ClientType::QBittorrent => String::from_str("qbittorrent"),
            ClientType::Deluge => String::from_str("deluge"),
            ClientType::RQBit => String::from_str("rqbit"),
        }
    }
}

/// One configured download backend: identity, protocol and credentials.
pub struct TorrentClient {
    pub id: String,
    pub client_type: ClientType,
    pub url: String,
    pub username: String,
    pub password: String,
}

/// The glob patterns and size bounds of a task's filter, as configured;
/// the sizes still stand as digit strings.
pub struct Filter {
    pub accept: Vec<String>,
    pub exclude: Vec<String>,
    pub min_size: String,
    pub max_size: String,
}

impl Filter {
    /// Turns the configured filter into a checked policy; fails when either
    /// size bound is not a `u32` digit string.
    pub fn to_filters(&self) -> (r: Option<Filters>)
        ensures
            match r {
                Some(f) => {
                    &&& u32_str(self.min_size@) == Some(f.min_size)
                    &&& u32_str(self.max_size@) == Some(f.max_size)
                    &&& f.accept@ == self.accept@
                    &&& f.exclude@ == self.exclude@
                },
                None => u32_str(self.min_size@) is None || u32_str(self.max_size@) is None,
            },
    {
        let min = parse_u32(self.min_size.as_str());
        let max = parse_u32(self.max_size.as_str());
        match (min, max) {
            (Some(lo), Some(hi)) => Some(
                Filters::new(clone_strings(&self.accept), clone_strings(&self.exclude), lo, hi),
            ),
            _ => None,
        }
    }
}

/// Copies a list of strings; the copy denotes the same sequence.
pub fn clone_strings(v: &Vec<String>) -> (r: Vec<String>)
    ensures
        r@ == v@,
{
    let mut r: Vec<String> = Vec::new();
    let mut i: usize = 0;
    while i < v.len()
        invariant
            0 <= i <= v.len(),
            r@.len() == i,
            forall|k: int| 0 <= k < i ==> r@[k] == v@[k],
        decreases v.len() - i,
    {
        r.push(v[i].clone());
        i = i + 1;
    }
    proof {
        assert(r@ =~= v@);
    }
    r
}

/// The feed a task watches, with its optional indexer tag and filter.
pub struct RssFeed {
    pub url: String,
    pub indexer: Option<String>,
    pub filter: Option<Filter>,
}

/// One action of a task: run a command and capture its output, or submit
/// matching feed items to a backend under a templated destination path.
pub enum FeedAction {
    Exec { command: String, args: Vec<String> },
    Download { client: String, save_path: String },
}

/// One configured task: its schedule expression, advisory retry budget,
/// feed, and actions in declaration order.
pub struct Task {
    pub schedule: String,
    pub max_retries: u32,
    pub rss_feed: RssFeed,
    pub actions: Vec<(String, FeedAction)>,
}

/// A whole configuration: one backend registration and the named tasks in
/// declaration order.
pub struct HConf {
    pub torrent_client: TorrentClient,
    pub tasks: Vec<(String, Task)>,
}

/// A configuration document that could not be read or parsed.
#[derive(Debug)]
pub enum HConfParseError {
    FileReadError(String),
    ParseError(String),
}

impl HConfParseError {
    pub fn message(&self) -> (r: String)
        ensures
            match self {
                HConfParseError::FileReadError(m) => r@ == m@,
                HConfParseError::ParseError(m) => r@ == m@,
            },
    {
        match self {
            HConfParseError::FileReadError(m) => m.clone(),
            HConfParseError::ParseError(m) => m.clone(),
        }
    }
}

} // verus!
