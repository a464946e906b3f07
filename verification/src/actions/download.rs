use vstd::prelude::*;

verus! {

/// One planned submission: which backend takes it, the source URI, the
/// already-expanded destination path, and the item's display name.
pub struct DownloadAction {
    pub client: String,
    pub torrent_link: String,
    pub save_path: String,
    pub title: String,
}

/// A submission as the contracts see it: the four fields as sequences.
pub struct SubmissionView {
    pub client: Seq<char>,
    pub torrent_link: Seq<char>,
    pub save_path: Seq<char>,
    pub title: Seq<char>,
}

impl View for DownloadAction {
    type V = SubmissionView;

    open spec fn view(&self) -> SubmissionView {
        SubmissionView {
            client: self.client@,
            torrent_link: self.torrent_link@,
            save_path: self.save_path@,
            title: self.title@,
        }
    }
}

impl DownloadAction {
    /// A submission without a display name, as the backend accepts one.
    pub fn new(client: String, torrent_link: String, save_path: String) -> (r: DownloadAction)
        ensures
            r.client == client,
            r.torrent_link == torrent_link,
            r.save_path == save_path,
            r.title@ == Seq::<char>::empty(),
    {
        DownloadAction { client, torrent_link, save_path, title: String::new() }
    }
}

impl Clone for DownloadAction {
    fn clone(&self) -> (res: DownloadAction)
        ensures
            res == *self,
    {
        DownloadAction {
            client: self.client.clone(),
            torrent_link: self.torrent_link.clone(),
            save_path: self.save_path.clone(),
            title: self.title.clone(),
        }
    }
}

} // verus!
