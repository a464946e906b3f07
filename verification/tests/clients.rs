use hikaru::clients::qbittorrent::{QBittorrent, QBittorrentError};
use hikaru::hconf_parser::model::ClientType;

fn client() -> QBittorrent {
    QBittorrent::new("qb1", "qbittorrent", "http://localhost:8080", "admin", "SECRET-REDACTED")
}

#[test]
fn new_keeps_identity_fields() {
    let c = client();
    assert_eq!(c.id(), "qb1");
    assert_eq!(c.client_type(), "qbittorrent");
    assert_eq!(c.url(), "http://localhost:8080");
    assert_eq!(c.username(), "admin");
    assert_eq!(c.password(), "SECRET-REDACTED");
}

#[test]
fn login_request_has_endpoint_and_credentials() {
    let c = client();
    assert_eq!(c.login_url(), "http://localhost:8080/api/v2/auth/login");
    let form = c.login_form();
    assert_eq!(form.len(), 2);
    assert_eq!(form[0], ("username".to_string(), "admin".to_string()));
    assert_eq!(form[1], ("password".to_string(), "SECRET-REDACTED".to_string()));
}

#[test]
fn add_torrent_request_has_endpoint_and_fields() {
    let c = client();
    assert_eq!(c.add_torrent_url(), "http://localhost:8080/api/v2/torrents/add");
    let form = c.add_torrent_form("http://t/x.torrent", "/downloads/show");
    assert_eq!(form.len(), 2);
    assert_eq!(form[0], ("urls".to_string(), "http://t/x.torrent".to_string()));
    assert_eq!(form[1], ("savepath".to_string(), "/downloads/show".to_string()));
}

#[test]
fn only_the_exact_body_means_login_success() {
    assert!(QBittorrent::interpret_login_response("Ok.").is_ok());
    match QBittorrent::interpret_login_response("Fails.") {
        Err(QBittorrentError::LoginFailedError) => {},
        _ => panic!("any other body is a login failure"),
    }
    assert!(QBittorrent::interpret_login_response("Ok").is_err());
    assert!(QBittorrent::interpret_login_response("").is_err());
}

#[test]
fn only_the_exact_body_means_enqueue_success() {
    assert!(QBittorrent::interpret_download_response("Ok.").is_ok());
    match QBittorrent::interpret_download_response("Banned.") {
        Err(QBittorrentError::DownloadQueueError(reason)) => {
            assert_eq!(reason, "qbit refused enqueue request");
        },
        _ => panic!("any other body is a rejection"),
    }
}

#[test]
fn error_messages_name_the_failure() {
    assert_eq!(QBittorrentError::LoginFailedError.message(), "login failed");
    assert_eq!(
        QBittorrentError::DownloadQueueError("boo".to_string()).message(),
        "download failed. reason: boo"
    );
}

#[test]
fn client_type_names_are_lower_case() {
    assert_eq!(ClientType::QBittorrent.name(), "qbittorrent");
    assert_eq!(ClientType::Deluge.name(), "deluge");
    assert_eq!(ClientType::RQBit.name(), "rqbit");
}
