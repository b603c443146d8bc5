use patchbay_server::server::{local_api_url, BindHost};

#[test]
fn unspecified_addresses_are_reached_through_loopback() {
    assert_eq!(local_api_url(&BindHost::V4([0, 0, 0, 0]), 8080), "http://127.0.0.1:8080");
    let v6 = BindHost::V6 { segments: [0; 8], text: "::".to_owned() };
    assert_eq!(local_api_url(&v6, 3000), "http://127.0.0.1:3000");
}

#[test]
fn specific_addresses_keep_their_notation() {
    assert_eq!(local_api_url(&BindHost::V4([192, 168, 1, 20]), 80), "http://192.168.1.20:80");
    assert_eq!(local_api_url(&BindHost::V4([127, 0, 0, 1]), 0), "http://127.0.0.1:0");
    let v6 = BindHost::V6 { segments: [0, 0, 0, 0, 0, 0, 0, 1], text: "::1".to_owned() };
    assert_eq!(local_api_url(&v6, 65535), "http://[::1]:65535");
}
