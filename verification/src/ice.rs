//! Setting up a peer connection from the ICE servers that the signaling server
//! offers.

use vstd::prelude::*;
use vstd::utf8::{decode_utf8, encode_utf8, is_char_boundary};

use crate::address::{
    alphanumeric, percent_encode, percent_encoded, percent_escape, upper_hex_digit,
};
use crate::packet::{Hello, IceServer};
use crate::text::{
    chars_of, find, hex_digit_value, is_hex_digit, lemma_position, lemma_position_is, position,
};

verus! {

/// Which candidates a connection may be made of.
#[derive(Debug, Clone, Copy, PartialEq, Eq, Structural)]
pub enum TransportPolicy {
    All,
    /// Only those that go through a relay.
    Relay,
}

/// How to set up a peer connection.
#[derive(Debug, PartialEq)]
pub struct RtcConfig {
    /// STUN and TURN servers, with any credentials written into the address.
    pub ice_servers: Vec<String>,
    pub ice_transport_policy: TransportPolicy,
    /// Whether the offer waits to be asked for, so that every channel exists
    /// before it.
    pub disable_auto_negotiation: bool,
}

/// A list of strings as a list of texts.
pub open spec fn texts(strings: Seq<String>) -> Seq<Seq<char>> {
    strings.map_values(|s: String| s@)
}

/// How many characters stand before the first colon.
pub open spec fn colon(url: Seq<char>) -> int {
    position(url, ':') as int
}

/// Whether the address has a colon.
pub open spec fn has_scheme(url: Seq<char>) -> bool {
    colon(url) < url.len()
}

/// The scheme is as many *bytes* as there are characters before the colon,
/// which is what stands before the colon if that is ASCII. This is whether
/// both of its ends fall between characters.
pub open spec fn splits(url: Seq<char>) -> bool {
    has_scheme(url) ==> {
        &&& is_char_boundary(encode_utf8(url), colon(url))
        &&& is_char_boundary(encode_utf8(url), colon(url) + 1)
    }
}

/// The scheme of an address.
pub open spec fn scheme(url: Seq<char>) -> Seq<char> {
    decode_utf8(encode_utf8(url).subrange(0, colon(url)))
}

/// What follows the scheme of an address and the byte after it.
pub open spec fn after_scheme(url: Seq<char>) -> Seq<char> {
    decode_utf8(encode_utf8(url).subrange(colon(url) + 1, encode_utf8(url).len() as int))
}

/// Whether the address is of a relay.
pub open spec fn is_relay(url: Seq<char>) -> bool {
    scheme(url) == "turn"@ || scheme(url) == "turns"@
}

/// Whether what the address asks for is TCP and nothing else.
pub open spec fn over_tcp(url: Seq<char>) -> bool {
    url.skip(position(url, '?') as int) == "?transport=tcp"@
}

/// Whether the address is one that a peer connection can be given. TCP is out
/// because libdatachannel cannot take it; relays are out if the caller will
/// have none.
pub open spec fn usable(url: Seq<char>, use_relay: Option<bool>) -> bool {
    &&& has_scheme(url)
    &&& !(is_relay(url) && use_relay == Some(false))
    &&& !over_tcp(url)
}

/// An address of `server` with the server's credentials, if it has both, put
/// in.
pub open spec fn entry(url: Seq<char>, server: IceServer) -> Seq<char> {
    match (server.username, server.credential) {
        (Some(username), Some(credential)) => scheme(url) + seq![':'] + percent_encoded(
            encode_utf8(username@),
        ) + seq![':'] + percent_encoded(encode_utf8(credential@)) + seq!['@'] + after_scheme(url),
        _ => scheme(url) + seq![':'] + after_scheme(url),
    }
}

/// What the first `count` addresses of `server` come to.
pub open spec fn entries_up_to(server: IceServer, use_relay: Option<bool>, count: nat) -> Seq<
    Seq<char>,
>
    decreases count,
{
    if count == 0 {
        seq![]
    } else {
        let before = entries_up_to(server, use_relay, (count - 1) as nat);
        let url = server.urls@[count - 1]@;
        if usable(url, use_relay) {
            before.push(entry(url, server))
        } else {
            before
        }
    }
}

/// What the addresses of `server` come to, in order.
pub open spec fn server_entries(server: IceServer, use_relay: Option<bool>) -> Seq<Seq<char>> {
    entries_up_to(server, use_relay, server.urls@.len())
}

/// What the addresses of all the servers come to, in order.
pub open spec fn all_entries(servers: Seq<IceServer>, use_relay: Option<bool>) -> Seq<Seq<char>>
    decreases servers.len(),
{
    if servers.len() == 0 {
        seq![]
    } else {
        all_entries(servers.drop_last(), use_relay) + server_entries(servers.last(), use_relay)
    }
}

/// Whether every address of `server` splits.
pub open spec fn server_splits(server: IceServer) -> bool {
    forall|i: int| 0 <= i < server.urls@.len() ==> splits(#[trigger] server.urls@[i]@)
}

/// Whether every address in a greeting splits.
pub open spec fn hello_splits(hello: Hello) -> bool {
    forall|i: int|
        0 <= i < hello.ice_servers@.len() ==> server_splits(#[trigger] hello.ice_servers@[i])
}

impl RtcConfig {
    /// Whether this is the set-up that a greeting and the caller's choice of
    /// relaying call for.
    pub open spec fn is_for(self, hello: Hello, use_relay: Option<bool>) -> bool {
        &&& texts(self.ice_servers@) == all_entries(hello.ice_servers@, use_relay)
        &&& self.ice_transport_policy == if use_relay == Some(true) {
            TransportPolicy::Relay
        } else {
            TransportPolicy::All
        }
        &&& self.disable_auto_negotiation
    }
}

/// Whether an address splits.
fn url_splits(url: &String) -> (r: bool)
    ensures
        r == splits(url@),
{
    let chars: Vec<char> = chars_of(url.as_str());
    let count: usize = chars.len();
    assert(chars@.subrange(0, count as int) == url@);
    let at: usize = find(&chars, 0, count, ':');
    at == count || (url.as_str().is_char_boundary(at) && url.as_str().is_char_boundary(at + 1))
}

/// Whether every address in a greeting splits.
pub fn check_hello(hello: &Hello) -> (r: bool)
    ensures
        r == hello_splits(*hello),
{
    let mut i: usize = 0;
    while i < hello.ice_servers.len()
        invariant
            i <= hello.ice_servers@.len(),
            forall|k: int| 0 <= k < i ==> server_splits(#[trigger] hello.ice_servers@[k]),
        decreases hello.ice_servers@.len() - i,
    {
        let server = &hello.ice_servers[i];
        let mut j: usize = 0;
        while j < server.urls.len()
            invariant
                i < hello.ice_servers@.len(),
                *server == hello.ice_servers@[i as int],
                j <= server.urls@.len(),
                forall|k: int| 0 <= k < j ==> splits(#[trigger] server.urls@[k]@),
            decreases server.urls@.len() - j,
        {
            if !url_splits(&server.urls[j]) {
                assert(!splits(server.urls@[j as int]@));
                assert(!server_splits(hello.ice_servers@[i as int]));
                return false;
            }
            j = j + 1;
        }
        i = i + 1;
    }
    true
}

/// The address to give a peer connection for one that a server has, if it is
/// one that it can be given.
fn server_url(url: &String, server: &IceServer, use_relay: Option<bool>) -> (r: Option<String>)
    requires
        splits(url@),
    ensures
        match r {
            Some(text) => usable(url@, use_relay) && text@ == entry(url@, *server),
            None => !usable(url@, use_relay),
        },
{
    broadcast use vstd::utf8::encode_utf8_decode_utf8;
    broadcast use vstd::utf8::encode_utf8_valid_utf8;

    let chars: Vec<char> = chars_of(url.as_str());
    let count: usize = chars.len();
    assert(chars@.subrange(0, count as int) == url@);
    let at: usize = find(&chars, 0, count, ':');
    if at == count {
        return None;
    }
    let proto: &str = url.as_str().split_at(at).0;
    let rest: &str = url.as_str().split_at(at + 1).1;
    assert(proto@ == scheme(url@));
    assert(rest@ == after_scheme(url@));
    let named: String = proto.to_owned();
    if (named == "turn".to_owned() || named == "turns".to_owned()) && matches!(use_relay, Some(false)) {
        return None;
    }
    let query_at: usize = find(&chars, 0, count, '?');
    let query: String = url.as_str().substring_char(query_at, count).to_owned();
    assert(query@ == url@.skip(position(url@, '?') as int));
    if query == "?transport=tcp".to_owned() {
        return None;
    }
    proof {
        reveal_strlit(":");
        reveal_strlit("@");
    }
    assert(":"@ == seq![':']);
    assert("@"@ == seq!['@']);
    let text: String = named.concat(":");
    match (&server.username, &server.credential) {
        (Some(username), Some(credential)) => {
            let username: String = percent_encode(username.as_str());
            let credential: String = percent_encode(credential.as_str());
            Some(
                text.concat(username.as_str()).concat(":").concat(credential.as_str()).concat(
                    "@",
                ).concat(rest),
            )
        },
        _ => Some(text.concat(rest)),
    }
}

/// How to set up a peer connection from a greeting. `use_relay` is whether to
/// go only through relays, or never, or whichever works.
pub fn rtc_config(hello: &Hello, use_relay: Option<bool>) -> (r: RtcConfig)
    requires
        hello_splits(*hello),
    ensures
        r.is_for(*hello, use_relay),
{
    let mut ice_servers: Vec<String> = Vec::new();
    let mut i: usize = 0;
    assert(texts(ice_servers@) == all_entries(hello.ice_servers@.take(0), use_relay));
    while i < hello.ice_servers.len()
        invariant
            hello_splits(*hello),
            i <= hello.ice_servers@.len(),
            texts(ice_servers@) == all_entries(hello.ice_servers@.take(i as int), use_relay),
        decreases hello.ice_servers@.len() - i,
    {
        let server = &hello.ice_servers[i];
        let ghost before = texts(ice_servers@);
        let mut j: usize = 0;
        assert(server_splits(*server));
        while j < server.urls.len()
            invariant
                server_splits(*server),
                j <= server.urls@.len(),
                texts(ice_servers@) == before + entries_up_to(*server, use_relay, j as nat),
            decreases server.urls@.len() - j,
        {
            let ghost so_far = ice_servers@;
            if let Some(text) = server_url(&server.urls[j], server, use_relay) {
                ice_servers.push(text);
                assert(texts(ice_servers@) == texts(so_far).push(text@));
            }
            j = j + 1;
        }
        let ghost servers = hello.ice_servers@.take(i + 1);
        assert(servers.drop_last() == hello.ice_servers@.take(i as int));
        assert(servers.last() == *server);
        i = i + 1;
    }
    assert(hello.ice_servers@.take(i as int) == hello.ice_servers@);
    let ice_transport_policy = if matches!(use_relay, Some(true)) {
        TransportPolicy::Relay
    } else {
        TransportPolicy::All
    };
    RtcConfig { ice_servers, ice_transport_policy, disable_auto_negotiation: true }
}

/// Whether a text is what one of the servers' usable addresses comes to.
pub open spec fn comes_from(
    text: Seq<char>,
    servers: Seq<IceServer>,
    use_relay: Option<bool>,
) -> bool {
    exists|i: int, j: int|
        #![trigger servers[i].urls@[j]]
        0 <= i < servers.len() && 0 <= j < servers[i].urls@.len() && usable(
            servers[i].urls@[j]@,
            use_relay,
        ) && text == entry(servers[i].urls@[j]@, servers[i])
}

/// A peer connection is given nothing but usable addresses, each with its own
/// server's credentials: none over TCP, and none of a relay if the caller will
/// have none.
pub proof fn law_only_usable_addresses(servers: Seq<IceServer>, use_relay: Option<bool>, k: int)
    requires
        0 <= k < all_entries(servers, use_relay).len(),
    ensures
        comes_from(all_entries(servers, use_relay)[k], servers, use_relay),
    decreases servers.len(),
{
    let before = servers.drop_last();
    let server = servers.last();
    let earlier = all_entries(before, use_relay);
    if k < earlier.len() {
        law_only_usable_addresses(before, use_relay, k);
        let (i, j) = choose|i: int, j: int|
            #![trigger before[i].urls@[j]]
            0 <= i < before.len() && 0 <= j < before[i].urls@.len() && usable(
                before[i].urls@[j]@,
                use_relay,
            ) && earlier[k] == entry(before[i].urls@[j]@, before[i]);
        assert(servers[i].urls@[j] == before[i].urls@[j]);
    } else {
        let j = lemma_entry_source(server, use_relay, server.urls@.len(), k - earlier.len());
        assert(servers[servers.len() - 1].urls@[j] == server.urls@[j]);
    }
}

/// Which of a server's addresses an entry comes from.
proof fn lemma_entry_source(
    server: IceServer,
    use_relay: Option<bool>,
    count: nat,
    k: int,
) -> (j: int)
    requires
        count <= server.urls@.len(),
        0 <= k < entries_up_to(server, use_relay, count).len(),
    ensures
        0 <= j < count,
        usable(server.urls@[j]@, use_relay),
        entries_up_to(server, use_relay, count)[k] == entry(server.urls@[j]@, server),
    decreases count,
{
    let before = entries_up_to(server, use_relay, (count - 1) as nat);
    if k < before.len() {
        lemma_entry_source(server, use_relay, (count - 1) as nat, k)
    } else {
        count - 1
    }
}

/// Every usable address is given to the peer connection.
pub proof fn law_every_usable_address(
    servers: Seq<IceServer>,
    use_relay: Option<bool>,
    i: int,
    j: int,
)
    requires
        0 <= i < servers.len(),
        0 <= j < servers[i].urls@.len(),
        usable(servers[i].urls@[j]@, use_relay),
    ensures
        all_entries(servers, use_relay).contains(entry(servers[i].urls@[j]@, servers[i])),
    decreases servers.len(),
{
    let before = servers.drop_last();
    let earlier = all_entries(before, use_relay);
    let last = server_entries(servers.last(), use_relay);
    let text = entry(servers[i].urls@[j]@, servers[i]);
    if i < servers.len() - 1 {
        assert(before[i] == servers[i]);
        law_every_usable_address(before, use_relay, i, j);
        let k = choose|k: int| 0 <= k < earlier.len() && earlier[k] == text;
        assert((earlier + last)[k] == text);
    } else {
        let k = lemma_entry_place(servers.last(), use_relay, servers.last().urls@.len(), j);
        assert((earlier + last)[earlier.len() + k] == text);
    }
}

/// Where the entry for one of a server's addresses is.
proof fn lemma_entry_place(
    server: IceServer,
    use_relay: Option<bool>,
    count: nat,
    j: int,
) -> (k: int)
    requires
        0 <= j < count <= server.urls@.len(),
        usable(server.urls@[j]@, use_relay),
    ensures
        0 <= k < entries_up_to(server, use_relay, count).len(),
        entries_up_to(server, use_relay, count)[k] == entry(server.urls@[j]@, server),
    decreases count,
{
    let before = entries_up_to(server, use_relay, (count - 1) as nat);
    if j == count - 1 {
        before.len() as int
    } else {
        lemma_entry_place(server, use_relay, (count - 1) as nat, j)
    }
}

/// Encoding one text after another is encoding them together.
proof fn lemma_encode_both(a: Seq<char>, b: Seq<char>)
    ensures
        encode_utf8(a + b) == encode_utf8(a) + encode_utf8(b),
    decreases a.len(),
{
    if a.len() == 0 {
        assert(a + b == b);
    } else {
        assert((a + b).drop_first() == a.drop_first() + b);
        assert((a + b)[0] == a[0]);
        lemma_encode_both(a.drop_first(), b);
    }
}

/// An address with nothing but ASCII before its colon comes apart at the colon.
pub proof fn law_ascii_scheme_ends_at_the_colon(url: Seq<char>)
    requires
        has_scheme(url),
        vstd::utf8::is_ascii_chars(url.take(colon(url))),
    ensures
        splits(url),
        scheme(url) == url.take(colon(url)),
        after_scheme(url) == url.skip(colon(url) + 1),
{
    broadcast use vstd::utf8::encode_utf8_decode_utf8;
    broadcast use vstd::utf8::encode_utf8_valid_utf8;

    let at = colon(url);
    let before = url.take(at);
    let with_colon = url.take(at + 1);
    let rest = url.skip(at + 1);
    let bytes = encode_utf8(url);
    lemma_position(url, ':');
    vstd::utf8::is_ascii_chars_encode_utf8(before);
    assert(vstd::utf8::is_ascii_chars(with_colon)) by {
        assert forall|i: int| 0 <= i < with_colon.len() implies '\0' <= #[trigger] with_colon[i]
            <= '\u{7f}' by {
            if i < at {
                assert(with_colon[i] == before[i]);
            }
        }
    }
    vstd::utf8::is_ascii_chars_encode_utf8(with_colon);
    assert(url == with_colon + rest);
    lemma_encode_both(with_colon, rest);
    assert(url == before + url.skip(at));
    lemma_encode_both(before, url.skip(at));
    assert(bytes.subrange(0, at) == encode_utf8(before));
    assert(bytes.subrange(at + 1, bytes.len() as int) == encode_utf8(rest));
    assert(bytes[at] == encode_utf8(with_colon)[at]);
    assert(bytes[at] == with_colon[at] as u8);
    vstd::utf8::is_char_boundary_iff_not_is_continuation_byte(bytes, at);
    if rest.len() == 0 {
        vstd::utf8::is_char_boundary_start_end_of_seq(bytes);
    } else {
        let tail = encode_utf8(rest);
        vstd::utf8::encode_utf8_first_scalar(rest);
        vstd::utf8::is_char_boundary_start_end_of_seq(tail);
        vstd::utf8::is_char_boundary_iff_not_is_continuation_byte(tail, 0);
        assert(bytes[at + 1] == tail[0]);
        vstd::utf8::is_char_boundary_iff_not_is_continuation_byte(bytes, at + 1);
    }
}

/// An address taken apart: as many bytes of it as there are characters before
/// its first colon, and the bytes after the one that follows those.
pub open spec fn comes_apart(
    url: Seq<char>,
    at: int,
    proto: Seq<char>,
    rest: Seq<char>,
) -> bool {
    &&& 0 <= at < url.len()
    &&& url[at] == ':'
    &&& forall|i: int| 0 <= i < at ==> url[i] != ':'
    &&& proto == decode_utf8(encode_utf8(url).subrange(0, at))
    &&& rest == decode_utf8(encode_utf8(url).subrange(at + 1, encode_utf8(url).len() as int))
}

/// Whether an address asks for TCP and nothing else: from its first question
/// mark on it reads `?transport=tcp`.
pub open spec fn asks_for_tcp(url: Seq<char>) -> bool {
    exists|before: Seq<char>|
        !before.contains('?') && url == #[trigger] (before + "?transport=tcp"@)
}

/// Whether what an address has for its scheme is `turn` or `turns`.
pub open spec fn goes_through_relay(url: Seq<char>) -> bool {
    exists|at: int, proto: Seq<char>, rest: Seq<char>| #[trigger]
        comes_apart(url, at, proto, rest) && (proto == "turn"@ || proto == "turns"@)
}

/// What a peer connection is to be given for an address: nothing if it has no
/// colon, if it asks for TCP, or if it is of a relay and the caller will have
/// none; else its scheme, the server's credentials, escaped, if there are both,
/// and the rest of it.
pub open spec fn is_given(
    url: Seq<char>,
    server: IceServer,
    use_relay: Option<bool>,
    given: Option<Seq<char>>,
) -> bool {
    match given {
        None => {
            ||| !url.contains(':')
            ||| asks_for_tcp(url)
            ||| use_relay == Some(false) && goes_through_relay(url)
        },
        Some(text) => {
            &&& !asks_for_tcp(url)
            &&& exists|at: int, proto: Seq<char>, rest: Seq<char>| #[trigger]
                comes_apart(url, at, proto, rest) && {
                    &&& !(use_relay == Some(false) && (proto == "turn"@ || proto == "turns"@))
                    &&& text == if server.username is Some && server.credential is Some {
                        proto + seq![':'] + percent_encoded(encode_utf8(server.username->0@))
                            + seq![':'] + percent_encoded(encode_utf8(server.credential->0@))
                            + seq!['@'] + rest
                    } else {
                        proto + seq![':'] + rest
                    }
                }
        },
    }
}

/// The first question mark is where asking for TCP starts.
proof fn lemma_over_tcp(url: Seq<char>)
    ensures
        over_tcp(url) == asks_for_tcp(url),
{
    reveal_strlit("?transport=tcp");
    let tcp = "?transport=tcp"@;
    let at = position(url, '?') as int;
    lemma_position(url, '?');
    if over_tcp(url) {
        let before = url.take(at);
        assert(url =~= before + tcp);
        assert(!before.contains('?'));
    }
    if asks_for_tcp(url) {
        let before = choose|before: Seq<char>|
            !before.contains('?') && url == #[trigger] (before + tcp);
        assert forall|i: int| 0 <= i < before.len() implies url[i] != '?' by {
            assert(url[i] == before[i]);
            assert(before.contains(before[i]));
        }
        assert(url[before.len() as int] == tcp[0]);
        lemma_position_is(url, '?', before.len() as int);
        assert(url.skip(at) =~= tcp);
    }
}

/// What `usable` and `entry` make of an address is what it is to be given.
proof fn lemma_is_given(url: Seq<char>, server: IceServer, use_relay: Option<bool>)
    ensures
        is_given(
            url,
            server,
            use_relay,
            if usable(url, use_relay) {
                Some(entry(url, server))
            } else {
                None
            },
        ),
{
    let at = colon(url);
    lemma_over_tcp(url);
    lemma_position(url, ':');
    if has_scheme(url) {
        assert(comes_apart(url, at, scheme(url), after_scheme(url)));
    } else {
        assert(!url.contains(':'));
    }
}

/// Where an address comes apart, and into what, is settled.
proof fn lemma_comes_apart_once(
    url: Seq<char>,
    at: int,
    proto: Seq<char>,
    rest: Seq<char>,
)
    requires
        comes_apart(url, at, proto, rest),
    ensures
        at == colon(url),
        proto == scheme(url),
        rest == after_scheme(url),
{
    lemma_position_is(url, ':', at);
}

/// An address and a server settle what is to be given: it is never two things.
pub proof fn law_one_thing_is_given(
    url: Seq<char>,
    server: IceServer,
    use_relay: Option<bool>,
    one: Option<Seq<char>>,
    other: Option<Seq<char>>,
)
    requires
        is_given(url, server, use_relay, one),
        is_given(url, server, use_relay, other),
    ensures
        one == other,
{
    assert forall|at: int, proto: Seq<char>, rest: Seq<char>| #[trigger]
        comes_apart(url, at, proto, rest) implies at == colon(url) && proto == scheme(url) && rest
        == after_scheme(url) by {
        lemma_comes_apart_once(url, at, proto, rest);
    }
    assert(forall|at: int, proto: Seq<char>, rest: Seq<char>| #[trigger]
        comes_apart(url, at, proto, rest) ==> url.contains(url[at]));
}

/// Whether the addresses given are those of the servers that something is given
/// for, each once and in the order of the servers and of their addresses.
/// `sources` says which server and which of its addresses each comes from.
pub open spec fn are_given(
    servers: Seq<IceServer>,
    use_relay: Option<bool>,
    given: Seq<Seq<char>>,
    sources: Seq<(int, int)>,
) -> bool {
    &&& sources.len() == given.len()
    &&& forall|k: int|
        0 <= k < sources.len() ==> {
            let (i, j) = #[trigger] sources[k];
            &&& 0 <= i < servers.len()
            &&& 0 <= j < servers[i].urls@.len()
            &&& is_given(servers[i].urls@[j]@, servers[i], use_relay, Some(given[k]))
        }
    &&& forall|k: int, l: int|
        #![trigger sources[k], sources[l]]
        0 <= k < l < sources.len() ==> sources[k].0 < sources[l].0 || (sources[k].0 == sources[l].0
            && sources[k].1 < sources[l].1)
    &&& forall|i: int, j: int|
        #![trigger servers[i].urls@[j]]
        0 <= i < servers.len() && 0 <= j < servers[i].urls@.len() && !is_given(
            servers[i].urls@[j]@,
            servers[i],
            use_relay,
            None,
        ) ==> sources.contains((i, j))
}

/// Where the entries of the first `count` addresses of a server come from.
proof fn lemma_server_sources(
    server: IceServer,
    use_relay: Option<bool>,
    count: nat,
) -> (places: Seq<int>)
    requires
        count <= server.urls@.len(),
    ensures
        places.len() == entries_up_to(server, use_relay, count).len(),
        forall|k: int|
            0 <= k < places.len() ==> 0 <= #[trigger] places[k] < count && is_given(
                server.urls@[places[k]]@,
                server,
                use_relay,
                Some(entries_up_to(server, use_relay, count)[k]),
            ),
        forall|k: int, l: int|
            #![trigger places[k], places[l]]
            0 <= k < l < places.len() ==> places[k] < places[l],
        forall|j: int|
            #![trigger server.urls@[j]]
            0 <= j < count && !is_given(server.urls@[j]@, server, use_relay, None)
                ==> places.contains(j),
    decreases count,
{
    if count == 0 {
        Seq::empty()
    } else {
        let before = lemma_server_sources(server, use_relay, (count - 1) as nat);
        let url = server.urls@[count - 1]@;
        lemma_is_given(url, server, use_relay);
        if usable(url, use_relay) {
            let places = before.push(count - 1);
            assert forall|j: int|
                #![trigger server.urls@[j]]
                0 <= j < count && !is_given(
                    server.urls@[j]@,
                    server,
                    use_relay,
                    None,
                ) implies places.contains(j) by {
                if j == count - 1 {
                    assert(places[before.len() as int] == j);
                } else {
                    let k = choose|k: int| 0 <= k < before.len() && before[k] == j;
                    assert(places[k] == j);
                }
            }
            places
        } else {
            before
        }
    }
}

/// A peer connection is given just what it is to be given: for every server and
/// every address of it, in order, nothing or that one text, and nothing else.
pub proof fn law_all_addresses_are_given(
    servers: Seq<IceServer>,
    use_relay: Option<bool>,
) -> (sources: Seq<(int, int)>)
    ensures
        are_given(servers, use_relay, all_entries(servers, use_relay), sources),
    decreases servers.len(),
{
    if servers.len() == 0 {
        Seq::empty()
    } else {
        let earlier = servers.drop_last();
        let server = servers.last();
        let last = servers.len() - 1;
        let before = law_all_addresses_are_given(earlier, use_relay);
        let places = lemma_server_sources(server, use_relay, server.urls@.len());
        let more = places.map_values(|j: int| (last, j));
        let sources = before + more;
        let given = all_entries(servers, use_relay);
        let given_before = all_entries(earlier, use_relay);
        assert forall|k: int| 0 <= k < sources.len() implies {
            let (i, j) = #[trigger] sources[k];
            &&& 0 <= i < servers.len()
            &&& 0 <= j < servers[i].urls@.len()
            &&& is_given(servers[i].urls@[j]@, servers[i], use_relay, Some(given[k]))
        } by {
            if k < before.len() {
                assert(sources[k] == before[k]);
                assert(given[k] == given_before[k]);
                assert(servers[before[k].0] == earlier[before[k].0]);
            } else {
                let l = k - before.len();
                assert(sources[k] == (last, places[l]));
                assert(given[k] == server_entries(server, use_relay)[l]);
            }
        }
        assert forall|k: int, l: int|
            #![trigger sources[k], sources[l]]
            0 <= k < l < sources.len() implies sources[k].0 < sources[l].0 || (sources[k].0
            == sources[l].0 && sources[k].1 < sources[l].1) by {
            if l < before.len() {
                assert(sources[k] == before[k] && sources[l] == before[l]);
            } else {
                let m = l - before.len();
                assert(sources[l] == (last, places[m]));
                if k < before.len() {
                    assert(sources[k] == before[k]);
                } else {
                    assert(sources[k] == (last, places[k - before.len()]));
                }
            }
        }
        assert forall|i: int, j: int|
            #![trigger servers[i].urls@[j]]
            0 <= i < servers.len() && 0 <= j < servers[i].urls@.len() && !is_given(
                servers[i].urls@[j]@,
                servers[i],
                use_relay,
                None,
            ) implies sources.contains((i, j)) by {
            if i < last {
                assert(earlier[i] == servers[i]);
                assert(earlier[i].urls@[j] == servers[i].urls@[j]);
                let k = choose|k: int| 0 <= k < before.len() && before[k] == (i, j);
                assert(sources[k] == (i, j));
            } else {
                assert(server.urls@[j] == servers[i].urls@[j]);
                let k = choose|k: int| 0 <= k < places.len() && places[k] == j;
                assert(sources[before.len() + k] == (i, j));
            }
        }
        sources
    }
}

/// Whether a peer connection is set up as a greeting and the caller's choice of
/// relaying call for, `sources` saying where each address comes from.
pub open spec fn is_set_up(
    config: RtcConfig,
    hello: Hello,
    use_relay: Option<bool>,
    sources: Seq<(int, int)>,
) -> bool {
    &&& are_given(
        hello.ice_servers@,
        use_relay,
        Seq::new(config.ice_servers@.len(), |k: int| config.ice_servers@[k]@),
        sources,
    )
    &&& config.ice_transport_policy == TransportPolicy::Relay <==> use_relay == Some(true)
    &&& config.ice_transport_policy == TransportPolicy::All <==> use_relay != Some(true)
    &&& config.disable_auto_negotiation
}

/// A peer connection that is set up for a greeting is given just the addresses
/// that it is to be given, goes only through relays if and only if the caller
/// asked for that, and makes no offer of itself.
pub proof fn law_set_up(config: RtcConfig, hello: Hello, use_relay: Option<bool>) -> (sources: Seq<
    (int, int),
>)
    requires
        config.is_for(hello, use_relay),
    ensures
        is_set_up(config, hello, use_relay, sources),
{
    let given = Seq::new(config.ice_servers@.len(), |k: int| config.ice_servers@[k]@);
    assert(given =~= texts(config.ice_servers@));
    law_all_addresses_are_given(hello.ice_servers@, use_relay)
}

/// TURN over TCP is never given, whatever the caller wants of relays.
pub proof fn law_tcp_is_never_given(
    url: Seq<char>,
    before: Seq<char>,
    server: IceServer,
    use_relay: Option<bool>,
)
    requires
        url == before + "?transport=tcp"@,
        !before.contains('?'),
    ensures
        !usable(url, use_relay),
        is_given(url, server, use_relay, None),
{
    assert(asks_for_tcp(url));
    lemma_over_tcp(url);
}

/// Wanting only relays and not caring are given the same addresses; wanting none
/// is given those of them that are of no relay.
pub proof fn law_relays_are_all_that_is_refused(
    url: Seq<char>,
    server: IceServer,
    given: Option<Seq<char>>,
)
    requires
        is_given(url, server, None, given),
    ensures
        is_given(url, server, Some(true), given),
        usable(url, Some(true)) == usable(url, None),
        usable(url, Some(false)) == (usable(url, None) && !goes_through_relay(url)),
{
    lemma_position(url, ':');
    if has_scheme(url) {
        assert(comes_apart(url, colon(url), scheme(url), after_scheme(url)));
    }
    assert forall|at: int, proto: Seq<char>, rest: Seq<char>| #[trigger]
        comes_apart(url, at, proto, rest) implies at == colon(url) && proto == scheme(url) && rest
        == after_scheme(url) by {
        lemma_comes_apart_once(url, at, proto, rest);
    }
}

/// The same of all the servers together: wanting only relays changes none of the
/// addresses.
pub proof fn law_wanting_relays_changes_no_address(servers: Seq<IceServer>)
    ensures
        all_entries(servers, Some(true)) == all_entries(servers, None),
    decreases servers.len(),
{
    if servers.len() > 0 {
        law_wanting_relays_changes_no_address(servers.drop_last());
        lemma_same_entries(servers.last(), servers.last().urls@.len());
    }
}

/// Wanting only relays changes none of a server's addresses.
proof fn lemma_same_entries(server: IceServer, count: nat)
    ensures
        entries_up_to(server, Some(true), count) == entries_up_to(server, None, count),
    decreases count,
{
    if count > 0 {
        lemma_same_entries(server, (count - 1) as nat);
    }
}

/// Whether every address of a greeting can be taken apart: both ends of what
/// follows its scheme fall between characters.
pub open spec fn can_be_taken_apart(hello: Hello) -> bool {
    forall|i: int, j: int, at: int|
        #![trigger hello.ice_servers@[i].urls@[j]@[at]]
        0 <= i < hello.ice_servers@.len() && 0 <= j < hello.ice_servers@[i].urls@.len() && 0 <= at
            < hello.ice_servers@[i].urls@[j]@.len() && hello.ice_servers@[i].urls@[j]@[at] == ':' && (
        forall|b: int| 0 <= b < at ==> hello.ice_servers@[i].urls@[j]@[b] != ':') ==> {
            &&& is_char_boundary(encode_utf8(hello.ice_servers@[i].urls@[j]@), at)
            &&& is_char_boundary(encode_utf8(hello.ice_servers@[i].urls@[j]@), at + 1)
        }
}

/// A greeting is taken if and only if every address in it can be taken apart.
pub proof fn law_taken_apart(hello: Hello)
    ensures
        hello_splits(hello) == can_be_taken_apart(hello),
{
    assert forall|i: int, j: int, at: int|
        #![trigger hello.ice_servers@[i].urls@[j]@[at]]
        hello_splits(hello) && 0 <= i < hello.ice_servers@.len() && 0 <= j
            < hello.ice_servers@[i].urls@.len() && 0 <= at < hello.ice_servers@[i].urls@[j]@.len()
            && hello.ice_servers@[i].urls@[j]@[at] == ':' && (forall|b: int|
            0 <= b < at ==> hello.ice_servers@[i].urls@[j]@[b] != ':') implies {
        &&& is_char_boundary(encode_utf8(hello.ice_servers@[i].urls@[j]@), at)
        &&& is_char_boundary(encode_utf8(hello.ice_servers@[i].urls@[j]@), at + 1)
    } by {
        let url = hello.ice_servers@[i].urls@[j]@;
        assert(server_splits(hello.ice_servers@[i]));
        assert(splits(hello.ice_servers@[i].urls@[j]@));
        lemma_position_is(url, ':', at);
    }
    if can_be_taken_apart(hello) {
        assert forall|i: int| 0 <= i < hello.ice_servers@.len() implies server_splits(
            #[trigger] hello.ice_servers@[i],
        ) by {
            let server = hello.ice_servers@[i];
            assert forall|j: int| 0 <= j < server.urls@.len() implies splits(
                #[trigger] server.urls@[j]@,
            ) by {
                let url = server.urls@[j]@;
                lemma_position(url, ':');
                if has_scheme(url) {
                    assert(hello.ice_servers@[i].urls@[j]@[colon(url)] == ':');
                }
            }
        }
    }
}

/// The bytes that a text with escapes stands for.
pub open spec fn percent_decoded(text: Seq<char>) -> Seq<u8>
    decreases text.len(),
{
    if text.len() == 0 {
        seq![]
    } else if text[0] == '%' && text.len() >= 3 && is_hex_digit(text[1]) && is_hex_digit(text[2]) {
        seq![(hex_digit_value(text[1]) * 16 + hex_digit_value(text[2])) as u8] + percent_decoded(
            text.skip(3),
        )
    } else {
        encode_utf8(text.take(1)) + percent_decoded(text.skip(1))
    }
}

/// Credentials that are put into an address read back as what they were, and
/// hold nothing that could be taken for another part of the address.
pub proof fn law_credentials_read_back(bytes: Seq<u8>)
    ensures
        percent_decoded(percent_encoded(bytes)) == bytes,
        forall|i: int|
            0 <= i < percent_encoded(bytes).len() ==> {
                let c = #[trigger] percent_encoded(bytes)[i];
                c != ':' && c != '@' && c != '/' && c != '?' && c != '#'
            },
    decreases bytes.len(),
{
    if bytes.len() > 0 {
        let byte = bytes[0];
        let rest = percent_encoded(bytes.drop_first());
        let text = percent_encoded(bytes);
        law_credentials_read_back(bytes.drop_first());
        if alphanumeric(byte) || byte == 0x2d || byte == 0x2e || byte == 0x5f || byte == 0x7e {
            let first = seq![byte as char];
            assert(text == first + rest);
            assert(text.take(1) =~= first);
            assert(text.skip(1) =~= rest);
            assert(text[0] == byte as char);
            assert(vstd::utf8::is_ascii_chars(first));
            vstd::utf8::is_ascii_chars_encode_utf8(first);
            assert(encode_utf8(first) =~= seq![byte]);
            assert forall|i: int| 0 <= i < text.len() implies {
                let c = #[trigger] text[i];
                c != ':' && c != '@' && c != '/' && c != '?' && c != '#'
            } by {
                if i > 0 {
                    assert(text[i] == rest[i - 1]);
                }
            }
        } else {
            let hi = upper_hex_digit(byte / 16);
            let lo = upper_hex_digit(byte % 16);
            assert(text == percent_escape(byte) + rest);
            assert(text[0] == '%' && text[1] == hi && text[2] == lo);
            assert(text.skip(3) =~= rest);
            assert(is_hex_digit(hi) && hex_digit_value(hi) == byte / 16);
            assert(is_hex_digit(lo) && hex_digit_value(lo) == byte % 16);
            assert forall|i: int| 0 <= i < text.len() implies {
                let c = #[trigger] text[i];
                c != ':' && c != '@' && c != '/' && c != '?' && c != '#'
            } by {
                if i > 2 {
                    assert(text[i] == rest[i - 3]);
                }
            }
        }
        assert(bytes =~= seq![byte] + bytes.drop_first());
    }
}

}
