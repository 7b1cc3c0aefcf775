use clash_android_ffi::{user_agent, DownloadProgress, DownloadSession, MAX_REDIRECTS};

#[test]
fn user_agent_default_and_given() {
    assert_eq!(user_agent(None), "clash-android/1.0");
    assert_eq!(user_agent(Some("ClashMeta/1.18".to_string())), "ClashMeta/1.18");
}

#[test]
fn redirect_limit() {
    assert_eq!(MAX_REDIRECTS, 10);
}

#[test]
fn failed_status_gives_failed_result() {
    let res = DownloadSession::start(404, Some(100)).err().unwrap();
    assert!(!res.success);
    assert_eq!(res.file_size, 0);
    assert_eq!(res.error_message.as_deref(), Some("HTTP 404 - Not Found"));
    let res = DownloadSession::start(500, None).err().unwrap();
    assert_eq!(res.error_message.as_deref(), Some("HTTP 500 - Internal Server Error"));
    let res = DownloadSession::start(599, None).err().unwrap();
    assert_eq!(res.error_message.as_deref(), Some("HTTP 599 - Unknown"));
    let res = DownloadSession::start(302, None).err().unwrap();
    assert_eq!(res.error_message.as_deref(), Some("HTTP 302 - Found"));
}

#[test]
fn download_accumulates_chunks() {
    let mut s = DownloadSession::start(200, Some(7)).ok().unwrap();
    assert_eq!(s.progress(), DownloadProgress { downloaded: 0, total: 7 });
    assert_eq!(s.receive(b"abc"), DownloadProgress { downloaded: 3, total: 7 });
    assert_eq!(s.receive(b""), DownloadProgress { downloaded: 3, total: 7 });
    assert_eq!(s.receive(b"defg"), DownloadProgress { downloaded: 7, total: 7 });
    let (bytes, res) = s.finish();
    assert_eq!(bytes, b"abcdefg".to_vec());
    assert!(res.success);
    assert_eq!(res.file_size, 7);
    assert!(res.error_message.is_none());
}

#[test]
fn unknown_length_counts_as_zero() {
    let mut s = DownloadSession::start(206, None).ok().unwrap();
    assert_eq!(s.progress(), DownloadProgress { downloaded: 0, total: 0 });
    assert_eq!(s.receive(&[1, 2]), DownloadProgress { downloaded: 2, total: 0 });
    let (bytes, res) = s.finish();
    assert_eq!(bytes, vec![1, 2]);
    assert_eq!(res.file_size, 2);
}

#[test]
fn empty_download() {
    let s = DownloadSession::start(200, Some(0)).ok().unwrap();
    let (bytes, res) = s.finish();
    assert!(bytes.is_empty());
    assert!(res.success);
    assert_eq!(res.file_size, 0);
}
