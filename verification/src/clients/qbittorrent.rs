use vstd::prelude::*;

verus! {

/// What a backend call can fail with: rejected credentials, or a refused
/// or unreachable enqueue request.
#[derive(Debug)]
pub enum QBittorrentError {
    LoginFailedError,
    DownloadQueueError(String),
}

impl QBittorrentError {
    /// The line the failure is logged as.
    pub fn message(&self) -> (r: String)
        ensures
            match self {
                QBittorrentError::LoginFailedError => r@ == "login failed"@,
                QBittorrentError::DownloadQueueError(reason) => r@ == "download failed. reason: "@
                    + reason@,
            },
    {
        match self {
            QBittorrentError::LoginFailedError => String::from_str("login failed"),
            QBittorrentError::DownloadQueueError(reason) => {
                let mut r = String::from_str("download failed. reason: ");
                r.append(reason.as_str());
                r
            },
        }
    }
}

/// The identity and credentials of one qBittorrent endpoint. The live HTTP
/// connection stays with the host program; this type prepares each request
/// and judges each response.
pub struct QBittorrent {
    pub id: String,
    pub client_type: String,
    pub url: String,
    pub username: String,
    pub password: String,
}

/// The exact body a successful qBittorrent call answers with; anything
/// else is a rejection, not a transport error.
pub open spec fn ok_response() -> Seq<char> {
    "Ok."@
}

fn str_eq(a: &str, b: &str) -> (r: bool)
    ensures
        r == (a@ == b@),
{
    let sa = String::from_str(a);
    let sb = String::from_str(b);
    sa == sb
}

impl QBittorrent {
    pub fn new(id: &str, client_type: &str, url: &str, username: &str, password: &str) -> (r:
        QBittorrent)
        ensures
            r.id@ == id@,
            r.client_type@ == client_type@,
            r.url@ == url@,
            r.username@ == username@,
            r.password@ == password@,
    {
        QBittorrent {
            id: String::from_str(id),
            client_type: String::from_str(client_type),
            url: String::from_str(url),
            username: String::from_str(username),
            password: String::from_str(password),
        }
    }

    pub fn id(&self) -> (r: &str)
        ensures
            r@ == self.id@,
    {
        self.id.as_str()
    }

    pub fn client_type(&self) -> (r: &str)
        ensures
            r@ == self.client_type@,
    {
        self.client_type.as_str()
    }

    pub fn url(&self) -> (r: &str)
        ensures
            r@ == self.url@,
    {
        self.url.as_str()
    }

    pub fn username(&self) -> (r: &str)
        ensures
            r@ == self.username@,
    {
        self.username.as_str()
    }

    pub fn password(&self) -> (r: &str)
        ensures
            r@ == self.password@,
    {
        self.password.as_str()
    }

    /// The authentication endpoint of this backend.
    pub fn login_url(&self) -> (r: String)
        ensures
            r@ == self.url@ + "/api/v2/auth/login"@,
    {
        let mut r = self.url.clone();
        r.append("/api/v2/auth/login");
        r
    }

    /// The form fields of the authentication call.
    pub fn login_form(&self) -> (r: Vec<(String, String)>)
        ensures
            r@.len() == 2,
            r@[0].0@ == "username"@ && r@[0].1@ == self.username@,
            r@[1].0@ == "password"@ && r@[1].1@ == self.password@,
    {
        let mut r: Vec<(String, String)> = Vec::new();
        r.push((String::from_str("username"), self.username.clone()));
        r.push((String::from_str("password"), self.password.clone()));
        r
    }

    /// The enqueue endpoint of this backend.
    pub fn add_torrent_url(&self) -> (r: String)
        ensures
            r@ == self.url@ + "/api/v2/torrents/add"@,
    {
        let mut r = self.url.clone();
        r.append("/api/v2/torrents/add");
        r
    }

    /// The form fields of one enqueue call: the source URI and the
    /// destination path.
    pub fn add_torrent_form(&self, torrent_url: &str, save_path: &str) -> (r: Vec<(String, String)>)
        ensures
            r@.len() == 2,
            r@[0].0@ == "urls"@ && r@[0].1@ == torrent_url@,
            r@[1].0@ == "savepath"@ && r@[1].1@ == save_path@,
    {
        let mut r: Vec<(String, String)> = Vec::new();
        r.push((String::from_str("urls"), String::from_str(torrent_url)));
        r.push((String::from_str("savepath"), String::from_str(save_path)));
        r
    }

    /// Judges an authentication response: only the exact success body
    /// counts, any other body means the credentials were rejected.
    pub fn interpret_login_response(text: &str) -> (r: Result<(), QBittorrentError>)
        ensures
            r is Ok <==> text@ == ok_response(),
            r matches Err(e) ==> e is LoginFailedError,
    {
        if str_eq(text, "Ok.") {
            Ok(())
        } else {
            Err(QBittorrentError::LoginFailedError)
        }
    }

    /// Judges an enqueue response: only the exact success body counts, any
    /// other body means the backend refused the request.
    pub fn interpret_download_response(text: &str) -> (r: Result<(), QBittorrentError>)
        ensures
            r is Ok <==> text@ == ok_response(),
            r matches Err(e) ==> e matches QBittorrentError::DownloadQueueError(m)
                && m@ == "qbit refused enqueue request"@,
    {
        if str_eq(text, "Ok.") {
            Ok(())
        } else {
            Err(
                QBittorrentError::DownloadQueueError(
                    String::from_str("qbit refused enqueue request"),
                ),
            )
        }
    }
}

} // verus!
