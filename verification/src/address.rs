//! Where to dial: the signaling server's address, with what the server has to
//! know before the first frame in its query string.

use vstd::prelude::*;
use vstd::utf8::{decode_utf8, encode_utf8};

use crate::text::{
    all_hex_digits, chars_of, find, hex, hex_digit_value, hex_value, is_hex_digit,
    law_hex_reads_back, lemma_position, lemma_position_is, position, split, to_hex,
};

verus! {

/// The type of `url::Url::parse`'s errors.
#[verifier::external_type_specification]
#[verifier::external_body]
pub struct ExParseError(url::ParseError);

/// The digit for `value`, in capital letters.
pub open spec fn upper_hex_digit(value: u8) -> char {
    if value < 10 {
        ('0' as u8 + value) as char
    } else {
        ('A' as u8 + value - 10) as char
    }
}

/// A byte written as a percent sign and two capital hexadecimal digits.
pub open spec fn percent_escape(byte: u8) -> Seq<char> {
    seq!['%', upper_hex_digit(byte / 16), upper_hex_digit(byte % 16)]
}

/// Whether a byte is an ASCII letter or digit.
pub open spec fn alphanumeric(byte: u8) -> bool {
    0x30 <= byte <= 0x39 || 0x41 <= byte <= 0x5a || 0x61 <= byte <= 0x7a
}

/// Bytes with all but letters, digits, `-`, `.`, `_` and `~` escaped.
pub open spec fn percent_encoded(bytes: Seq<u8>) -> Seq<char>
    decreases bytes.len(),
{
    if bytes.len() == 0 {
        seq![]
    } else {
        let byte = bytes[0];
        let first = if alphanumeric(byte) || byte == 0x2d || byte == 0x2e || byte == 0x5f || byte
            == 0x7e {
            seq![byte as char]
        } else {
            percent_escape(byte)
        };
        first + percent_encoded(bytes.drop_first())
    }
}

/// One byte of a form's field: letters, digits, `*`, `-`, `.` and `_` stand for
/// themselves, a space is written as a plus sign, and all else is escaped.
pub open spec fn form_byte(byte: u8) -> Seq<char> {
    if alphanumeric(byte) || byte == 0x2a || byte == 0x2d || byte == 0x2e || byte == 0x5f {
        seq![byte as char]
    } else if byte == 0x20 {
        seq!['+']
    } else {
        percent_escape(byte)
    }
}

/// Bytes as a form's field writes them.
pub open spec fn form_encoded(bytes: Seq<u8>) -> Seq<char>
    decreases bytes.len(),
{
    if bytes.len() == 0 {
        seq![]
    } else {
        form_byte(bytes[0]) + form_encoded(bytes.drop_first())
    }
}

/// One name and value of a form.
pub open spec fn form_pair(name: Seq<char>, value: Seq<char>) -> Seq<char> {
    form_encoded(encode_utf8(name)) + seq!['='] + form_encoded(encode_utf8(value))
}

/// What the server learns from the query string: the session, and the protocol
/// version in hexadecimal.
pub open spec fn signaling_query(session_id: Seq<char>, protocol_version: u32) -> Seq<char> {
    form_pair("session_id"@, session_id) + seq!['&'] + form_pair(
        "protocol_version"@,
        hex(protocol_version as nat),
    )
}

/// The bytes that a form's field stands for: a plus sign is a space, a percent
/// sign and two hexadecimal digits are the byte that the digits write, and
/// anything else is itself.
pub open spec fn form_decoded(field: Seq<char>) -> Seq<u8>
    decreases field.len(),
{
    if field.len() == 0 {
        seq![]
    } else if field[0] == '+' {
        seq![0x20u8] + form_decoded(field.skip(1))
    } else if field[0] == '%' && field.len() >= 3 && is_hex_digit(field[1]) && is_hex_digit(
        field[2],
    ) {
        seq![(hex_digit_value(field[1]) * 16 + hex_digit_value(field[2])) as u8] + form_decoded(
            field.skip(3),
        )
    } else {
        encode_utf8(field.take(1)) + form_decoded(field.skip(1))
    }
}

/// The name and the value in one piece of a form: what stands before the first
/// equals sign and what stands behind it.
pub open spec fn decoded_pair(piece: Seq<char>) -> (Seq<char>, Seq<char>) {
    let at = position(piece, '=') as int;
    let value = if at < piece.len() {
        piece.skip(at + 1)
    } else {
        seq![]
    };
    (decode_utf8(form_decoded(piece.take(at))), decode_utf8(form_decoded(value)))
}

/// The names and values in the pieces of a form, in order. A piece with nothing
/// in it is none.
pub open spec fn decoded_pairs(pieces: Seq<Seq<char>>) -> Seq<(Seq<char>, Seq<char>)>
    decreases pieces.len(),
{
    if pieces.len() == 0 {
        seq![]
    } else if pieces[0].len() == 0 {
        decoded_pairs(pieces.drop_first())
    } else {
        seq![decoded_pair(pieces[0])] + decoded_pairs(pieces.drop_first())
    }
}

/// What a server reads in a query string: its names and values, in order.
pub open spec fn query_pairs(query: Seq<char>) -> Seq<(Seq<char>, Seq<char>)> {
    decoded_pairs(split(query, '&'))
}

/// Whether a character stands for itself in a query string.
pub open spec fn plain_in_query(c: char) -> bool {
    '!' <= c <= '~' && c != '"' && c != '#' && c != '<' && c != '>' && c != '\''
}

/// A URL's text up to its query string and its fragment.
pub open spec fn before_query(text: Seq<char>) -> Seq<char> {
    let query = position(text, '?') as int;
    let fragment = position(text, '#') as int;
    text.take(if query < fragment { query } else { fragment })
}

/// A URL's fragment with the `#` before it, or nothing if it has none.
pub open spec fn fragment(text: Seq<char>) -> Seq<char> {
    text.skip(position(text, '#') as int)
}

/// A URL's query string, without the `?` before it.
pub open spec fn query_of(text: Seq<char>) -> Seq<char> {
    let from = before_query(text).len() as int;
    let to = position(text, '#') as int;
    if from < to {
        text.subrange(from + 1, to)
    } else {
        seq![]
    }
}

/// A URL's text with `query` in place of what it asked before.
pub open spec fn with_query(text: Seq<char>, query: Seq<char>) -> Seq<char> {
    before_query(text) + seq!['?'] + query + fragment(text)
}

/// What `url::Url::parse` makes of a text: the URL written out in its normal
/// form, or why it is none.
pub uninterp spec fn url_parse(input: Seq<char>) -> Result<Seq<char>, url::ParseError>;

/// Whether `url::Url::set_query` can give a URL a query string. It keeps the
/// places where the query string and the fragment start in 32 bits, so what
/// stands before them, as bytes, may be no longer than that.
pub open spec fn fits(text: Seq<char>, query: Seq<char>) -> bool {
    let before = encode_utf8(before_query(text)).len();
    &&& before <= u32::MAX
    &&& fragment(text).len() > 0 ==> {
        &&& before + 1 + encode_utf8(query).len() <= u32::MAX
        &&& encode_utf8(text.take(position(text, '#') as int)).len() < u32::MAX
    }
}

/// Calls `urlencoding::encode`, which escapes every byte of the text's UTF-8
/// form but ASCII letters, digits, `-`, `_`, `.` and `~`.
#[verifier::external_body]
pub(crate) fn percent_encode(data: &str) -> (r: String)
    ensures
        r@ == percent_encoded(encode_utf8(data@)),
{
    urlencoding::encode(data).into_owned()
}

/// Calls `url::form_urlencoded::Serializer::append_pair` twice on an empty
/// string and then `finish`: the pairs come out in order, an ampersand between
/// them, each encoded byte by byte from its UTF-8 form.
#[verifier::external_body]
fn form_query(name: &str, value: &str, other_name: &str, other_value: &str) -> (r: String)
    ensures
        r@ == form_pair(name@, value@) + seq!['&'] + form_pair(other_name@, other_value@),
{
    url::form_urlencoded::Serializer::new(String::new())
        .append_pair(name, value)
        .append_pair(other_name, other_value)
        .finish()
}

/// Calls `url::Url::parse` and hands back the URL's text, or the error.
#[verifier::external_body]
fn parse_url(input: &str) -> (r: Result<String, url::ParseError>)
    ensures
        match r {
            Ok(text) => url_parse(input@) == Ok::<Seq<char>, url::ParseError>(text@),
            Err(e) => url_parse(input@) == Err::<Seq<char>, url::ParseError>(e),
        },
{
    url::Url::parse(input).map(String::from)
}

/// Calls `url::Url::set_query` on the URL that `input` parses as, and hands
/// back its text. The new query string replaces the old one, and the fragment
/// stays. A character that stands for itself in a query string is written as
/// it is. Left out are the lengths at which the call would panic: a query string
/// or a fragment, the old one too, that starts past what 32 bits count to.
#[verifier::external_body]
fn set_query(input: &str, query: &str) -> (r: String)
    requires
        url_parse(input@) is Ok,
        fits(url_parse(input@)->Ok_0, query@),
        forall|i: int| 0 <= i < query@.len() ==> plain_in_query(#[trigger] query@[i]),
    ensures
        r@ == with_query(url_parse(input@)->Ok_0, query@),
{
    let mut url = url::Url::parse(input).unwrap();
    url.set_query(Some(query));
    url.into()
}

/// A form's field holds only characters that stand for themselves in a query.
proof fn lemma_form_encoded_plain(bytes: Seq<u8>)
    ensures
        forall|i: int|
            0 <= i < form_encoded(bytes).len() ==> plain_in_query(
                #[trigger] form_encoded(bytes)[i],
            ),
    decreases bytes.len(),
{
    if bytes.len() > 0 {
        let byte = bytes[0];
        assert(forall|i: int|
            0 <= i < form_byte(byte).len() ==> plain_in_query(#[trigger] form_byte(byte)[i]));
        lemma_form_encoded_plain(bytes.drop_first());
        let first = form_byte(byte);
        let rest = form_encoded(bytes.drop_first());
        assert forall|i: int| 0 <= i < form_encoded(bytes).len() implies plain_in_query(
            #[trigger] form_encoded(bytes)[i],
        ) by {
            if i < first.len() {
                assert(form_encoded(bytes)[i] == first[i]);
            } else {
                assert(form_encoded(bytes)[i] == rest[i - first.len()]);
            }
        }
    }
}

/// Whether `url::Url::set_query` can give a URL a query string.
fn fits_in(text: &str, query: &str) -> (r: bool)
    ensures
        r == fits(text@, query@),
{
    let chars: Vec<char> = chars_of(text);
    let count: usize = chars.len();
    assert(chars@.subrange(0, count as int) == text@);
    let query_at: usize = find(&chars, 0, count, '?');
    let fragment_at: usize = find(&chars, 0, count, '#');
    let end: usize = if query_at < fragment_at {
        query_at
    } else {
        fragment_at
    };
    let most: usize = u32::MAX as usize;
    let before: usize = text.substring_char(0, end).as_bytes().len();
    if before > most {
        false
    } else if fragment_at == count {
        true
    } else {
        let before_fragment: usize = text.substring_char(0, fragment_at).as_bytes().len();
        before < most && query.as_bytes().len() <= most - before - 1 && before_fragment < most
    }
}

/// The address to dial: `addr` as the `url` crate normalizes it, with the
/// session and the protocol version for its query string.
///
/// `None` if the address is so long that the `url` crate cannot count to where
/// its query string, or the fragment behind that, starts.
pub fn signaling_url(addr: &str, session_id: &str, protocol_version: u32) -> (r: Result<
    Option<String>,
    url::ParseError,
>)
    ensures
        match url_parse(addr@) {
            Err(e) => r == Err::<Option<String>, url::ParseError>(e),
            Ok(text) => {
                let query = signaling_query(session_id@, protocol_version);
                &&& r is Ok
                &&& r->Ok_0 is Some <==> fits(text, query)
                &&& r->Ok_0 matches Some(url) ==> url@ == with_query(text, query)
            },
        },
{
    let text = match parse_url(addr) {
        Ok(text) => text,
        Err(e) => {
            return Err(e);
        },
    };
    let version: String = to_hex(protocol_version);
    let query: String = form_query(
        "session_id",
        session_id,
        "protocol_version",
        version.as_str(),
    );
    assert(query@ == signaling_query(session_id@, protocol_version));
    if !fits_in(text.as_str(), query.as_str()) {
        return Ok(None);
    }
    proof {
        lemma_query_plain(session_id@, protocol_version);
    }
    Ok(Some(set_query(addr, query.as_str())))
}

/// A byte as a form's field writes it, read back.
proof fn lemma_form_byte_reads_back(byte: u8, rest: Seq<char>)
    ensures
        form_decoded(form_byte(byte) + rest) == seq![byte] + form_decoded(rest),
{
    let first = form_byte(byte);
    let field = first + rest;
    assert(field.skip(first.len() as int) == rest);
    assert(field[0] == first[0]);
    if first.len() == 3 {
        let hi = upper_hex_digit(byte / 16);
        let lo = upper_hex_digit(byte % 16);
        assert(field[1] == hi && field[2] == lo);
        assert(is_hex_digit(hi) && hex_digit_value(hi) == byte / 16);
        assert(is_hex_digit(lo) && hex_digit_value(lo) == byte % 16);
    } else if byte != 0x20 {
        assert(field.take(1) == first);
        assert(vstd::utf8::is_ascii_chars(first));
        vstd::utf8::is_ascii_chars_encode_utf8(first);
        assert(encode_utf8(first) == seq![byte]);
    }
}

/// Bytes as a form's field writes them, read back.
proof fn lemma_form_encoded_reads_back(bytes: Seq<u8>)
    ensures
        form_decoded(form_encoded(bytes)) == bytes,
    decreases bytes.len(),
{
    if bytes.len() > 0 {
        lemma_form_encoded_reads_back(bytes.drop_first());
        lemma_form_byte_reads_back(bytes[0], form_encoded(bytes.drop_first()));
    }
}

/// No ampersand and no equals sign is left in a form's field.
proof fn lemma_form_encoded_keeps_apart(bytes: Seq<u8>)
    ensures
        forall|i: int|
            0 <= i < form_encoded(bytes).len() ==> #[trigger] form_encoded(bytes)[i] != '&'
                && form_encoded(bytes)[i] != '=',
    decreases bytes.len(),
{
    if bytes.len() > 0 {
        let first = form_byte(bytes[0]);
        let rest = form_encoded(bytes.drop_first());
        assert(forall|i: int| 0 <= i < first.len() ==> #[trigger] first[i] != '&' && first[i] != '=');
        lemma_form_encoded_keeps_apart(bytes.drop_first());
        assert forall|i: int| 0 <= i < form_encoded(bytes).len() implies #[trigger] form_encoded(
            bytes,
        )[i] != '&' && form_encoded(bytes)[i] != '=' by {
            if i < first.len() {
                assert(form_encoded(bytes)[i] == first[i]);
            } else {
                assert(form_encoded(bytes)[i] == rest[i - first.len()]);
            }
        }
    }
}

/// A name and a value as a form writes them, read back.
proof fn lemma_form_pair_reads_back(name: Seq<char>, value: Seq<char>)
    ensures
        form_pair(name, value).len() > 0,
        forall|i: int| 0 <= i < form_pair(name, value).len() ==> form_pair(name, value)[i] != '&',
        decoded_pair(form_pair(name, value)) == (name, value),
{
    broadcast use vstd::utf8::encode_utf8_decode_utf8;

    let left = form_encoded(encode_utf8(name));
    let right = form_encoded(encode_utf8(value));
    let piece = form_pair(name, value);
    let at = left.len() as int;
    lemma_form_encoded_keeps_apart(encode_utf8(name));
    lemma_form_encoded_keeps_apart(encode_utf8(value));
    assert forall|i: int| 0 <= i < piece.len() implies piece[i] != '&' by {
        if i < at {
            assert(piece[i] == left[i]);
        } else if i > at {
            assert(piece[i] == right[i - at - 1]);
        }
    }
    assert forall|i: int| 0 <= i < at implies piece[i] != '=' by {
        assert(piece[i] == left[i]);
    }
    assert(piece[at] == '=');
    lemma_position_is(piece, '=', at);
    assert(piece.take(at) == left);
    assert(piece.skip(at + 1) == right);
    lemma_form_encoded_reads_back(encode_utf8(name));
    lemma_form_encoded_reads_back(encode_utf8(value));
}

/// A server that reads the query string as a form finds in it the session, just
/// as it was given, and then the protocol version in hexadecimal, and nothing
/// else.
pub proof fn law_query_reads_back(session_id: Seq<char>, protocol_version: u32)
    ensures
        query_pairs(signaling_query(session_id, protocol_version)) == seq![
            ("session_id"@, session_id),
            ("protocol_version"@, hex(protocol_version as nat)),
        ],
        hex(protocol_version as nat).len() > 0,
        all_hex_digits(hex(protocol_version as nat)),
        hex_value(hex(protocol_version as nat)) == protocol_version,
{
    let version = hex(protocol_version as nat);
    let first = form_pair("session_id"@, session_id);
    let second = form_pair("protocol_version"@, version);
    let query = signaling_query(session_id, protocol_version);
    let at = first.len() as int;
    lemma_form_pair_reads_back("session_id"@, session_id);
    lemma_form_pair_reads_back("protocol_version"@, version);
    assert forall|i: int| 0 <= i < at implies query[i] != '&' by {
        assert(query[i] == first[i]);
    }
    assert(query[at] == '&');
    lemma_position_is(query, '&', at);
    assert(query.take(at) == first);
    assert(query.skip(at + 1) == second);
    lemma_position_is(second, '&', second.len() as int);
    assert(split(second, '&') == seq![second]);
    let pieces = split(query, '&');
    assert(pieces == seq![first] + seq![second]);
    assert(pieces.drop_first() == seq![second]);
    assert(seq![second].drop_first() == Seq::<Seq<char>>::empty());
    assert(decoded_pairs(Seq::<Seq<char>>::empty()) == Seq::<(Seq<char>, Seq<char>)>::empty());
    assert(decoded_pairs(seq![second]) == seq![decoded_pair(second)]);
    law_hex_reads_back(protocol_version as nat);
}

/// No two requests ask the server the same: the query string tells sessions
/// apart, and protocol versions too.
pub proof fn law_query_tells_requests_apart(
    session_id: Seq<char>,
    protocol_version: u32,
    other_id: Seq<char>,
    other_version: u32,
)
    requires
        signaling_query(session_id, protocol_version) == signaling_query(other_id, other_version),
    ensures
        session_id == other_id,
        protocol_version == other_version,
{
    law_query_reads_back(session_id, protocol_version);
    law_query_reads_back(other_id, other_version);
    let pairs = query_pairs(signaling_query(session_id, protocol_version));
    assert(pairs[0].1 == session_id && pairs[0].1 == other_id);
    assert(pairs[1].1 == hex(protocol_version as nat) && pairs[1].1 == hex(other_version as nat));
}

/// Every character of the query string stands for itself in a URL.
proof fn lemma_query_plain(session_id: Seq<char>, protocol_version: u32)
    ensures
        forall|i: int|
            0 <= i < signaling_query(session_id, protocol_version).len() ==> plain_in_query(
                #[trigger] signaling_query(session_id, protocol_version)[i],
            ),
{
    lemma_form_encoded_plain(encode_utf8("session_id"@));
    lemma_form_encoded_plain(encode_utf8(session_id));
    lemma_form_encoded_plain(encode_utf8("protocol_version"@));
    lemma_form_encoded_plain(encode_utf8(hex(protocol_version as nat)));
}

/// The address to dial is the server's address, `text`, but for its query
/// string: what stands before that and the fragment are as they were, and the
/// query string, read as a form, is the session and the protocol version.
pub proof fn law_dialed_address(text: Seq<char>, session_id: Seq<char>, protocol_version: u32)
    ensures
        ({
            let dialed = with_query(text, signaling_query(session_id, protocol_version));
            &&& before_query(dialed) == before_query(text)
            &&& fragment(dialed) == fragment(text)
            &&& query_pairs(query_of(dialed)) == seq![
                ("session_id"@, session_id),
                ("protocol_version"@, hex(protocol_version as nat)),
            ]
        }),
{
    let query = signaling_query(session_id, protocol_version);
    let dialed = with_query(text, query);
    let before = before_query(text);
    let at = before.len() as int;
    let end = at + 1 + query.len();
    lemma_position(text, '?');
    lemma_position(text, '#');
    lemma_query_plain(session_id, protocol_version);
    assert forall|i: int| 0 <= i < at implies dialed[i] != '?' && dialed[i] != '#' by {
        assert(dialed[i] == text[i]);
    }
    assert(dialed[at] == '?');
    lemma_position_is(dialed, '?', at);
    assert forall|i: int| 0 <= i < end implies dialed[i] != '#' by {
        if i > at {
            assert(dialed[i] == query[i - at - 1]);
        }
    }
    if fragment(text).len() > 0 {
        assert(dialed[end] == fragment(text)[0]);
        assert(fragment(text)[0] == '#');
    }
    lemma_position_is(dialed, '#', end);
    assert(before_query(dialed) == before);
    assert(fragment(dialed) == fragment(text));
    assert(query_of(dialed) == query);
    law_query_reads_back(session_id, protocol_version);
}

/// A URL that is some text without a `?` or a `#`, a query string or none, and a
/// fragment or none, gets the new query string between the text and the
/// fragment; and it can get it if and only if the places where the query string
/// and the fragment start, old and new, are few enough bytes in.
pub proof fn law_query_is_replaced(
    before: Seq<char>,
    old_query: Seq<char>,
    fragment: Seq<char>,
    query: Seq<char>,
)
    requires
        !before.contains('?') && !before.contains('#'),
        old_query.len() > 0 ==> old_query[0] == '?' && !old_query.contains('#'),
        fragment.len() > 0 ==> fragment[0] == '#',
    ensures
        with_query(before + old_query + fragment, query) == before + seq!['?'] + query + fragment,
        fits(before + old_query + fragment, query) <==> {
            &&& encode_utf8(before).len() <= u32::MAX
            &&& fragment.len() > 0 ==> {
                &&& encode_utf8(before).len() + 1 + encode_utf8(query).len() <= u32::MAX
                &&& encode_utf8(before + old_query).len() < u32::MAX
            }
        },
{
    let text = before + old_query + fragment;
    let at = before.len() as int;
    let end = at + old_query.len();
    assert forall|i: int| 0 <= i < at implies text[i] != '?' && text[i] != '#' by {
        assert(text[i] == before[i]);
        assert(before.contains(before[i]));
    }
    assert forall|i: int| at <= i < end implies text[i] != '#' by {
        assert(text[i] == old_query[i - at]);
        assert(old_query.contains(old_query[i - at]));
    }
    if fragment.len() > 0 {
        assert(text[end] == fragment[0]);
    }
    lemma_position_is(text, '#', end);
    lemma_position(text, '?');
    if old_query.len() > 0 {
        assert(text[at] == old_query[0]);
        lemma_position_is(text, '?', at);
    } else {
        assert forall|i: int| 0 <= i < at implies text[i] != '?' by {}
        if fragment.len() > 0 {
            assert(text[at] == '#');
        }
    }
    let first = position(text, '?') as int;
    assert(first >= at);
    assert(before_query(text) =~= before);
    assert(self::fragment(text) =~= fragment);
    assert(text.take(end) =~= before + old_query);
}

}
