use signaling::parse_dtls_fingerprint;
use signaling::text::{is_white_space, to_hex};

/// A line with a fingerprint as libdatachannel writes it.
fn line(bytes: &[u8]) -> String {
    let octets: Vec<String> = bytes.iter().map(|b| format!("{:02X}", b)).collect();
    format!("a=fingerprint:sha-256 {}", octets.join(":"))
}

#[test]
fn white_space_is_what_std_says() {
    for n in 0..=0x10ffffu32 {
        if let Some(c) = char::from_u32(n) {
            assert_eq!(is_white_space(c), c.is_whitespace(), "{:x}", n);
        }
    }
}

#[test]
fn hex_is_what_std_says() {
    for n in [0, 1, 9, 10, 15, 16, 0xff, 0x100, 0xdeadbeef, u32::MAX] {
        assert_eq!(to_hex(n), format!("{:x}", n));
    }
}

#[test]
fn a_written_fingerprint_reads_back() {
    let bytes: Vec<u8> = (0..=255).collect();
    assert_eq!(parse_dtls_fingerprint(&line(&bytes)), Some(bytes));
    assert_eq!(parse_dtls_fingerprint(&line(&[7])), Some(vec![7]));
}

#[test]
fn a_fingerprint_is_found_among_other_lines() {
    let digest: Vec<u8> = (1..=32).collect();
    let sdp = format!(
        "v=0\r\no=rtc 1 0 IN IP4 127.0.0.1\r\na=group:BUNDLE 0\r\n{}\r\na=setup:actpass\r\n",
        line(&digest)
    );
    assert_eq!(parse_dtls_fingerprint(&sdp), Some(digest));
}

#[test]
fn the_first_fingerprint_that_decodes_counts() {
    let sdp = format!(
        "a=fingerprint:sha-1 AA:BB\na=fingerprint:sha-256\na=fingerprint:sha-256 AA:GG\n{}\n{}\n",
        line(&[1, 2]),
        line(&[3, 4])
    );
    assert_eq!(parse_dtls_fingerprint(&sdp), Some(vec![1, 2]));
}

#[test]
fn the_case_of_the_algorithm_and_of_the_digits_does_not_matter() {
    assert_eq!(
        parse_dtls_fingerprint("a=fingerprint:SHA-256 aB:Cd"),
        Some(vec![0xab, 0xcd])
    );
    assert_eq!(
        parse_dtls_fingerprint("\u{3000}a=fingerprint:Sha-256 0a\t"),
        Some(vec![0x0a])
    );
}

#[test]
fn octets_are_read_as_std_reads_them() {
    for octet in [
        "0", "F", "ff", "0ff", "000ff", "100", "+f", "+ff", "+", "", "-1", "++1", "g", " 7", "7 ",
        "\t7\u{a0}", "1 2", "+ 1", "\u{ff11}", "00000000000000000000000000000000000000001",
    ] {
        let expected = u8::from_str_radix(octet.trim(), 16).ok().map(|b| vec![b, 1]);
        let sdp = format!("a=fingerprint:sha-256 {}:01", octet);
        assert_eq!(parse_dtls_fingerprint(&sdp), expected, "{:?}", octet);
    }
}

#[test]
fn a_description_without_a_fingerprint_has_none() {
    assert_eq!(parse_dtls_fingerprint(""), None);
    assert_eq!(parse_dtls_fingerprint("v=0\r\n"), None);
    assert_eq!(parse_dtls_fingerprint("a=fingerprint:"), None);
    assert_eq!(parse_dtls_fingerprint("a=fingerprint:sha-256"), None);
    assert_eq!(parse_dtls_fingerprint("a=fingerprint:sha-256 "), None);
    assert_eq!(parse_dtls_fingerprint("a=fingerprint:sha-512 AA"), None);
    assert_eq!(parse_dtls_fingerprint("a=fingerprint: sha-256 AA"), None);
    assert_eq!(parse_dtls_fingerprint("A=fingerprint:sha-256 AA"), None);
    assert_eq!(parse_dtls_fingerprint("b=x a=fingerprint:sha-256 AA"), None);
    assert_eq!(parse_dtls_fingerprint("a=fingerprint:sha-256 AA:"), None);
    assert_eq!(parse_dtls_fingerprint("a=fingerprint:sha-256  AA BB"), None);
}
