use clash_android_ffi::text::{push_decimal, push_signed_decimal};
use clash_android_ffi::{check_status, ClashController, ClashError, HttpMethod, Mode};

fn controller() -> std::sync::Arc<ClashController> {
    ClashController::new("/data/clash/clash.sock".to_string())
}

#[test]
fn new_keeps_socket_path() {
    assert_eq!(controller().socket_path(), "/data/clash/clash.sock");
}

#[test]
fn mode_names_are_lower_case() {
    assert_eq!(Mode::Rule.as_str(), "rule");
    assert_eq!(Mode::Global.as_str(), "global");
    assert_eq!(Mode::Direct.as_str(), "direct");
}

#[test]
fn method_names() {
    assert_eq!(HttpMethod::Get.as_str(), "GET");
    assert_eq!(HttpMethod::Put.as_str(), "PUT");
    assert_eq!(HttpMethod::Patch.as_str(), "PATCH");
}

#[test]
fn plain_get_requests() {
    let c = controller();
    for (req, path) in [
        (c.proxies_request(), "/proxies"),
        (c.memory_request(), "/memory"),
        (c.connections_request(), "/connections"),
        (c.configs_request(), "/configs"),
    ] {
        assert_eq!(req.method, HttpMethod::Get);
        assert_eq!(req.path, path);
        assert!(req.body.is_none());
    }
}

#[test]
fn select_proxy_encodes_group_and_names_proxy() {
    let req = controller()
        .select_proxy_request("Proxy Group/1".to_string(), "HK \"01\"".to_string())
        .unwrap();
    assert_eq!(req.method, HttpMethod::Put);
    assert_eq!(req.path, "/proxies/Proxy%20Group%2F1");
    assert_eq!(req.body.unwrap(), br#"{"name":"HK \"01\""}"#.to_vec());
}

#[test]
fn select_proxy_encodes_utf8_bytes() {
    let req = controller()
        .select_proxy_request("节点".to_string(), "é".to_string())
        .unwrap();
    assert_eq!(req.path, "/proxies/%E8%8A%82%E7%82%B9");
    assert_eq!(req.body.unwrap(), "{\"name\":\"é\"}".as_bytes().to_vec());
}

#[test]
fn select_proxy_keeps_unreserved_characters() {
    let req = controller()
        .select_proxy_request("a-Z_0.9~".to_string(), "x".to_string())
        .unwrap();
    assert_eq!(req.path, "/proxies/a-Z_0.9~");
}

#[test]
fn delay_request_defaults() {
    let req = controller().proxy_delay_request("HK 1".to_string(), None, None);
    assert_eq!(req.method, HttpMethod::Get);
    assert_eq!(
        req.path,
        "/proxies/HK%201/delay?url=http%3A%2F%2Fwww.gstatic.com%2Fgenerate_204&timeout=5000"
    );
    assert!(req.body.is_none());
}

#[test]
fn delay_request_with_url_and_timeout() {
    let req = controller().proxy_delay_request(
        "jp".to_string(),
        Some("https://cp.cloudflare.com/?a=1&b=2".to_string()),
        Some(-250),
    );
    assert_eq!(
        req.path,
        "/proxies/jp/delay?url=https%3A%2F%2Fcp.cloudflare.com%2F%3Fa%3D1%26b%3D2&timeout=-250"
    );
    let req = controller().proxy_delay_request("jp".to_string(), None, Some(0));
    assert!(req.path.ends_with("&timeout=0"));
}

#[test]
fn update_config_sends_object_of_strings() {
    let config = vec![
        ("mode".to_string(), "rule".to_string()),
        ("log-level".to_string(), "debug".to_string()),
    ];
    let req = controller().update_config_request(config).unwrap();
    assert_eq!(req.method, HttpMethod::Patch);
    assert_eq!(req.path, "/configs");
    let body = req.body.unwrap();
    assert_eq!(body, br#"{"log-level":"debug","mode":"rule"}"#.to_vec());
}

#[test]
fn update_config_with_nothing_sends_empty_object() {
    let req = controller().update_config_request(Vec::new()).unwrap();
    assert_eq!(req.body.unwrap(), b"{}".to_vec());
}

#[test]
fn set_mode_is_a_config_update() {
    let c = controller();
    for (mode, body) in [
        (Mode::Rule, &br#"{"mode":"rule"}"#[..]),
        (Mode::Global, &br#"{"mode":"global"}"#[..]),
        (Mode::Direct, &br#"{"mode":"direct"}"#[..]),
    ] {
        let req = c.set_mode_request(mode).unwrap();
        assert_eq!(req.method, HttpMethod::Patch);
        assert_eq!(req.path, "/configs");
        assert_eq!(req.body.unwrap(), body.to_vec());
        let same = c
            .update_config_request(vec![("mode".to_string(), mode.as_str().to_string())])
            .unwrap();
        assert_eq!(same.body.unwrap(), body.to_vec());
    }
}

#[test]
fn success_statuses_pass() {
    assert!(check_status(200).is_ok());
    assert!(check_status(204).is_ok());
    assert!(check_status(299).is_ok());
}

#[test]
fn failure_status_names_code_and_reason() {
    match check_status(404) {
        Err(ClashError::HttpStatus { code, message }) => {
            assert_eq!(code, 404);
            assert_eq!(message, "HTTP status error: 404 Not Found");
        }
        other => panic!("unexpected {:?}", other),
    }
    match check_status(503) {
        Err(ClashError::HttpStatus { message, .. }) => {
            assert_eq!(message, "HTTP status error: 503 Service Unavailable")
        }
        other => panic!("unexpected {:?}", other),
    }
}

#[test]
fn failure_status_without_reason() {
    for (code, text) in [
        (300u16, "HTTP status error: 300 Multiple Choices"),
        (199, "HTTP status error: 199 <unknown status code>"),
        (99, "HTTP status error: 99 <unknown status code>"),
        (1000, "HTTP status error: 1000 <unknown status code>"),
    ] {
        match check_status(code) {
            Err(ClashError::HttpStatus { code: c, message }) => {
                assert_eq!(c, code);
                assert_eq!(message, text);
            }
            other => panic!("unexpected {:?}", other),
        }
    }
}

#[test]
fn decimal_rendering() {
    let mut s = String::from("n=");
    push_decimal(&mut s, 0);
    assert_eq!(s, "n=0");
    let mut s = String::new();
    push_decimal(&mut s, 18446744073709551615);
    assert_eq!(s, "18446744073709551615");
    let mut s = String::new();
    push_signed_decimal(&mut s, -9223372036854775807);
    assert_eq!(s, "-9223372036854775807");
    let mut s = String::new();
    push_signed_decimal(&mut s, 1200);
    assert_eq!(s, "1200");
}

#[test]
fn encoded_names_cannot_break_out_of_the_path() {
    let req = controller()
        .select_proxy_request("a/b?c=d&e#f g".to_string(), "x".to_string())
        .unwrap();
    assert_eq!(req.path, "/proxies/a%2Fb%3Fc%3Dd%26e%23f%20g");
    let tail = &req.path["/proxies/".len()..];
    assert!(!tail.contains(['/', '?', '&', '=', '#', ' ']));
}
