use incus_executor::client::{IncusClient, Method};
use incus_executor::json::Json;
use incus_executor::logs::{choose_log_bytes, console_log, limit_lines, log_request_of};

fn response(content: &str) -> Json {
    Json::from_slice(format!(r#"{{"metadata": "{}"}}"#, content).as_bytes()).unwrap()
}

#[test]
fn request_for_the_log() {
    let request = log_request_of(&IncusClient::new("s"), "w-1");
    assert_eq!(request.method, Method::Get);
    assert_eq!(request.path, "/1.0/instances/w-1/console?action=show");
    assert_eq!(request.body, None);
}

#[test]
fn logs_are_decoded() {
    assert_eq!(console_log(&response("aGVsbG8K"), None), b"hello\n".to_vec());
    assert_eq!(console_log(&response("/+8="), None), vec![0xff, 0xef]);
}

#[test]
fn what_does_not_decode_is_taken_as_it_is() {
    assert_eq!(console_log(&response("plain text"), None), b"plain text".to_vec());
    assert_eq!(console_log(&response("aGVsbG8"), None), b"aGVsbG8".to_vec());
    assert_eq!(console_log(&response("\u{e9}"), None), vec![0xc3, 0xa9]);
}

#[test]
fn no_log_is_empty() {
    assert_eq!(console_log(&response(""), None), Vec::<u8>::new());
    assert_eq!(console_log(&Json::Null, Some(3)), Vec::<u8>::new());
    assert_eq!(console_log(&Json::from_slice(b"{\"metadata\": 5}").unwrap(), None), Vec::<u8>::new());
}

#[test]
fn decoded_logs_are_preferred() {
    assert_eq!(choose_log_bytes("x", Some(vec![1, 2])), vec![1, 2]);
    assert_eq!(choose_log_bytes("x", None), b"x".to_vec());
    assert_eq!(choose_log_bytes("", Some(vec![1])), Vec::<u8>::new());
}

#[test]
fn logs_are_limited_to_their_last_lines() {
    let log = b"one\ntwo\nthree".to_vec();
    assert_eq!(limit_lines(log.clone(), None), log);
    assert_eq!(limit_lines(log.clone(), Some(0)), b"three".to_vec());
    assert_eq!(limit_lines(log.clone(), Some(1)), b"three".to_vec());
    assert_eq!(limit_lines(log.clone(), Some(2)), b"two\nthree".to_vec());
    assert_eq!(limit_lines(log.clone(), Some(3)), log);
    assert_eq!(limit_lines(log.clone(), Some(usize::MAX)), log);
    let log = b"one\ntwo\n".to_vec();
    assert_eq!(limit_lines(log.clone(), Some(1)), Vec::<u8>::new());
    assert_eq!(limit_lines(log.clone(), Some(2)), b"two\n".to_vec());
    assert_eq!(limit_lines(log.clone(), Some(3)), log);
    assert_eq!(limit_lines(Vec::new(), Some(1)), Vec::<u8>::new());
    assert_eq!(console_log(&response("YQpiCmM="), Some(2)), b"b\nc".to_vec());
}

#[test]
fn fewer_lines_are_the_end_of_more() {
    let log = b"\none\n\ntwo\nthree\n".to_vec();
    for m in 0..9 {
        let more = limit_lines(log.clone(), Some(m));
        assert!(log.ends_with(&more));
        for n in 0..=m {
            assert!(more.ends_with(&limit_lines(log.clone(), Some(n))));
        }
    }
}
