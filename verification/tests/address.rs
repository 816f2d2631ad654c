use signaling::address::signaling_url;

#[test]
fn the_query_says_which_session_and_which_version() {
    assert_eq!(
        signaling_url("wss://example.com/signal", "room", 0x1a2b),
        Ok(Some(
            "wss://example.com/signal?session_id=room&protocol_version=1a2b".to_string()
        ))
    );
}

#[test]
fn the_address_is_normalized() {
    assert_eq!(
        signaling_url("WSS://EXAMPLE.com:443", "s", 0),
        Ok(Some(
            "wss://example.com/?session_id=s&protocol_version=0".to_string()
        ))
    );
}

#[test]
fn an_old_query_is_replaced_and_a_fragment_stays() {
    assert_eq!(
        signaling_url("ws://h/p?a=b&c=d#top?x", "s", 255),
        Ok(Some(
            "ws://h/p?session_id=s&protocol_version=ff#top?x".to_string()
        ))
    );
    assert_eq!(
        signaling_url("ws://h/p#top", "s", 1),
        Ok(Some(
            "ws://h/p?session_id=s&protocol_version=1#top".to_string()
        ))
    );
}

#[test]
fn a_session_id_is_encoded_as_a_form_is() {
    assert_eq!(
        signaling_url("ws://h/", "a b&c=d*-._~#'\u{e9}", 16),
        Ok(Some(
            "ws://h/?session_id=a+b%26c%3Dd*-._%7E%23%27%C3%A9&protocol_version=10".to_string()
        ))
    );
}

#[test]
fn an_address_that_is_no_url_is_an_error() {
    assert_eq!(
        signaling_url("example.com", "s", 1),
        Err(url::ParseError::RelativeUrlWithoutBase)
    );
    assert_eq!(
        signaling_url("ws://h:99999/", "s", 1),
        Err(url::ParseError::InvalidPort)
    );
}

#[test]
fn opaque_addresses_take_a_query_too() {
    assert_eq!(
        signaling_url("mailto:a@b?subject=x", "s", 2),
        Ok(Some(
            "mailto:a@b?session_id=s&protocol_version=2".to_string()
        ))
    );
}

#[test]
fn different_requests_have_different_addresses() {
    let url = |session_id: &str, version| signaling_url("ws://h/", session_id, version).unwrap();
    let requests = [
        url("a b", 1),
        url("a+b", 1),
        url("a%20b", 1),
        url("a b&protocol_version=1", 1),
        url("a b", 0x11),
    ];
    for (i, one) in requests.iter().enumerate() {
        for other in &requests[i + 1..] {
            assert_ne!(one, other);
        }
    }
}

#[test]
fn a_version_is_written_in_hexadecimal() {
    for version in [0, 9, 10, 15, 16, 0xdead_beef, u32::MAX] {
        assert_eq!(signaling::text::to_hex(version), format!("{version:x}"));
    }
}

#[test]
fn a_server_reads_the_session_and_the_version_back() {
    for session_id in ["", "room", "a b&c=d+e%20#?", "\u{e9}\u{1f600}"] {
        let dialed = signaling_url("ws://h/p?old=1#top", session_id, 0xbeef).unwrap().unwrap();
        let url = url::Url::parse(&dialed).unwrap();
        let pairs: Vec<(String, String)> = url.query_pairs().into_owned().collect();
        assert_eq!(
            pairs,
            vec![
                ("session_id".to_string(), session_id.to_string()),
                ("protocol_version".to_string(), "beef".to_string()),
            ]
        );
        assert_eq!(u32::from_str_radix(&pairs[1].1, 16), Ok(0xbeef));
        assert_eq!(url.path(), "/p");
        assert_eq!(url.fragment(), Some("top"));
    }
}
