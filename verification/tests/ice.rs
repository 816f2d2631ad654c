use signaling::ice::{check_hello, rtc_config, RtcConfig, TransportPolicy};
use signaling::packet::{Hello, IceServer};

fn server(urls: &[&str], username: Option<&str>, credential: Option<&str>) -> IceServer {
    IceServer {
        urls: urls.iter().map(|u| u.to_string()).collect(),
        username: username.map(|s| s.to_string()),
        credential: credential.map(|s| s.to_string()),
    }
}

fn config(servers: Vec<IceServer>, use_relay: Option<bool>) -> RtcConfig {
    let hello = Hello { ice_servers: servers };
    assert!(check_hello(&hello));
    rtc_config(&hello, use_relay)
}

#[test]
fn credentials_go_into_the_address_encoded() {
    let c = config(
        vec![
            server(&["stun:stun.example.com:3478"], None, None),
            server(
                &["turn:turn.example.com:3478?transport=udp", "turns:t.example.com"],
                Some("me@home:1"),
                Some("p/w ~-._\u{e9}"),
            ),
        ],
        None,
    );
    assert_eq!(
        c.ice_servers,
        vec![
            "stun:stun.example.com:3478".to_string(),
            "turn:me%40home%3A1:p%2Fw%20~-._%C3%A9@turn.example.com:3478?transport=udp".to_string(),
            "turns:me%40home%3A1:p%2Fw%20~-._%C3%A9@t.example.com".to_string(),
        ]
    );
    assert_eq!(c.ice_transport_policy, TransportPolicy::All);
    assert!(c.disable_auto_negotiation);
}

#[test]
fn half_a_credential_is_none() {
    let c = config(
        vec![
            server(&["turn:a"], Some("u"), None),
            server(&["turn:b"], None, Some("p")),
        ],
        None,
    );
    assert_eq!(c.ice_servers, vec!["turn:a".to_string(), "turn:b".to_string()]);
}

#[test]
fn relays_are_left_out_if_unwanted() {
    let servers = || {
        vec![server(
            &["stun:s", "turn:t", "turns:u", "turnx:v", "TURN:w"],
            None,
            None,
        )]
    };
    let c = config(servers(), Some(false));
    assert_eq!(
        c.ice_servers,
        vec!["stun:s".to_string(), "turnx:v".to_string(), "TURN:w".to_string()]
    );
    assert_eq!(c.ice_transport_policy, TransportPolicy::All);
    let c = config(servers(), Some(true));
    assert_eq!(c.ice_servers.len(), 5);
    assert_eq!(c.ice_transport_policy, TransportPolicy::Relay);
}

#[test]
fn tcp_is_left_out() {
    let c = config(
        vec![server(
            &[
                "turn:a?transport=tcp",
                "turn:b?transport=tcp&x=y",
                "turn:c?x?transport=tcp",
                "turn:d?transport=udp",
                "turn:e",
            ],
            None,
            None,
        )],
        None,
    );
    assert_eq!(
        c.ice_servers,
        vec![
            "turn:b?transport=tcp&x=y".to_string(),
            "turn:c?x?transport=tcp".to_string(),
            "turn:d?transport=udp".to_string(),
            "turn:e".to_string(),
        ]
    );
}

#[test]
fn an_address_without_a_colon_is_left_out() {
    let c = config(vec![server(&["", "stun", "stun:", ":x", "\u{e9}"], None, None)], None);
    assert_eq!(c.ice_servers, vec!["stun:".to_string(), ":x".to_string()]);
}

#[test]
fn no_servers_give_no_addresses() {
    assert!(config(vec![], None).ice_servers.is_empty());
    assert!(config(vec![server(&[], None, None)], None).ice_servers.is_empty());
}

#[test]
fn the_scheme_is_counted_in_bytes() {
    // Two characters before the colon, so two bytes: just the accented one.
    let c = config(vec![server(&["\u{e9}a:x"], None, None)], None);
    assert_eq!(c.ice_servers, vec!["\u{e9}::x".to_string()]);
    // One character before the colon, and the first byte is half of it.
    let hello = Hello { ice_servers: vec![server(&["stun:s", "\u{e9}:x"], None, None)] };
    assert!(!check_hello(&hello));
    // What follows the colon may be anything.
    let c = config(vec![server(&["stun:\u{1f600}:\u{e9}"], None, None)], None);
    assert_eq!(c.ice_servers, vec!["stun:\u{1f600}:\u{e9}".to_string()]);
}
