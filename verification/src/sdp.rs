//! Reading a certificate fingerprint out of a session description.

use vstd::prelude::*;

use crate::text::{
    all_hex_digits, all_white_space, chars_of, find, hex_digit_value, hex_value, is_hex_digit, joined,
    law_joined_pieces_split, law_pieces_join_to_the_text, law_trimming_takes_white_space,
    law_white_space_around_is_trimmed, lemma_position, lemma_position_is, matches_ignoring_case,
    position, same_ignoring_case, split, trim, trim_range, white_space,
};

verus! {

/// `s` without the plus sign that it may start with.
pub open spec fn without_plus(s: Seq<char>) -> Seq<char> {
    if s.len() > 0 && s[0] == '+' {
        s.skip(1)
    } else {
        s
    }
}

/// The byte that one piece of a fingerprint writes: white space around it
/// aside, an optional plus sign and then hexadecimal digits, at least one of
/// them, that write no more than a byte holds.
pub open spec fn octet(piece: Seq<char>) -> Option<u8> {
    let digits = without_plus(trim(piece));
    if digits.len() > 0 && all_hex_digits(digits) && hex_value(digits) <= 255 {
        Some(hex_value(digits) as u8)
    } else {
        None
    }
}

/// The bytes that the pieces write, if every one of them writes a byte.
pub open spec fn octets(pieces: Seq<Seq<char>>) -> Option<Seq<u8>> {
    if forall|i: int| 0 <= i < pieces.len() ==> octet(#[trigger] pieces[i]) is Some {
        Some(pieces.map_values(|piece: Seq<char>| octet(piece)->0))
    } else {
        None
    }
}

/// The fingerprint on one line of a session description: white space around
/// it aside, the line reads `a=fingerprint:`, the name `sha-256` in any case,
/// one space, and then the bytes with a colon between one and the next.
pub open spec fn line_fingerprint(line: Seq<char>) -> Option<Seq<u8>> {
    let attribute = trim(line);
    let name = "a=fingerprint:"@;
    if !name.is_prefix_of(attribute) {
        None
    } else {
        let value = attribute.skip(name.len() as int);
        let space = position(value, ' ') as int;
        if space >= value.len() || !same_ignoring_case(value.take(space), "sha-256"@) {
            None
        } else {
            octets(split(value.skip(space + 1), ':'))
        }
    }
}

/// The fingerprint on the first of `lines` that has one.
pub open spec fn first_fingerprint(lines: Seq<Seq<char>>) -> Option<Seq<u8>>
    decreases lines.len(),
{
    if lines.len() == 0 {
        None
    } else if line_fingerprint(lines[0]) is Some {
        line_fingerprint(lines[0])
    } else {
        first_fingerprint(lines.drop_first())
    }
}

/// The certificate fingerprint that a session description carries. A line
/// that ends in a carriage return loses it with the rest of its white space.
pub open spec fn dtls_fingerprint(sdp: Seq<char>) -> Option<Seq<u8>> {
    first_fingerprint(split(sdp, '\n'))
}

/// The value of a hexadecimal digit, if `c` is one.
fn parse_hex_digit(c: char) -> (r: Option<u32>)
    ensures
        r == (if is_hex_digit(c) {
            Some(hex_digit_value(c) as u32)
        } else {
            None
        }),
{
    if '0' <= c && c <= '9' {
        Some(c as u32 - '0' as u32)
    } else if 'a' <= c && c <= 'f' {
        Some(c as u32 - 'a' as u32 + 10)
    } else if 'A' <= c && c <= 'F' {
        Some(c as u32 - 'A' as u32 + 10)
    } else {
        None
    }
}

/// Reads `text[start..end]` as one piece of a fingerprint.
fn parse_octet(text: &Vec<char>, start: usize, end: usize) -> (r: Option<u8>)
    requires
        start <= end <= text@.len(),
    ensures
        r == octet(text@.subrange(start as int, end as int)),
{
    let (from, to) = trim_range(text, start, end);
    let first: usize = if from < to && text[from] == '+' {
        from + 1
    } else {
        from
    };
    let ghost digits = text@.subrange(first as int, to as int);
    assert(digits == without_plus(text@.subrange(from as int, to as int)));
    if first == to {
        return None;
    }
    let mut value: u32 = 0;
    let mut at: usize = first;
    while at < to
        invariant
            first <= at <= to <= text@.len(),
            digits == text@.subrange(first as int, to as int),
            digits == without_plus(trim(text@.subrange(start as int, end as int))),
            forall|j: int| 0 <= j < at - first ==> is_hex_digit(#[trigger] digits[j]),
            value == if hex_value(digits.take(at - first)) <= 255 {
                hex_value(digits.take(at - first))
            } else {
                256
            },
        decreases to - at,
    {
        let ghost seen = digits.take(at - first);
        let ghost next = digits.take(at + 1 - first);
        assert(digits[at - first] == text@[at as int]);
        match parse_hex_digit(text[at]) {
            None => {
                assert(!is_hex_digit(digits[at - first]));
                return None;
            },
            Some(digit) => {
                assert(next.drop_last() == seen);
                assert(next.last() == text@[at as int]);
                assert(hex_value(next) == hex_value(seen) * 16 + hex_digit_value(next.last()));
                let longer: u32 = value * 16 + digit;
                value = if longer <= 255 {
                    longer
                } else {
                    256
                };
            },
        }
        at = at + 1;
    }
    assert(digits.take(to - first) == digits);
    if value <= 255 {
        Some(value as u8)
    } else {
        None
    }
}

/// Reads `text[start..end]` as the bytes of a fingerprint.
fn parse_octets(text: &Vec<char>, start: usize, end: usize) -> (r: Option<Vec<u8>>)
    requires
        start <= end <= text@.len(),
    ensures
        r is Some == octets(split(text@.subrange(start as int, end as int), ':')) is Some,
        r matches Some(bytes) ==> octets(split(text@.subrange(start as int, end as int), ':'))
            == Some(bytes@),
{
    let ghost pieces = split(text@.subrange(start as int, end as int), ':');
    let ghost mut done: Seq<Seq<char>> = seq![];
    let mut bytes: Vec<u8> = Vec::new();
    let mut from: usize = start;
    assert(pieces == done + pieces);
    loop
        invariant
            start <= from <= end <= text@.len(),
            pieces == split(text@.subrange(start as int, end as int), ':'),
            pieces == done + split(text@.subrange(from as int, end as int), ':'),
            bytes@.len() == done.len(),
            forall|i: int| 0 <= i < done.len() ==> octet(#[trigger] done[i]) == Some(bytes@[i]),
        decreases end - from,
    {
        let ghost rest = text@.subrange(from as int, end as int);
        let to: usize = find(text, from, end, ':');
        let ghost piece = text@.subrange(from as int, to as int);
        assert(piece == rest.take(to - from));
        assert(to == end ==> rest == piece);
        assert(split(rest, ':')[0] == piece);
        assert(pieces[done.len() as int] == piece);
        match parse_octet(text, from, to) {
            None => {
                assert(octets(pieces) is None);
                return None;
            },
            Some(byte) => {
                bytes.push(byte);
            },
        }
        proof {
            done = done.push(piece);
        }
        if to == end {
            assert(pieces == done);
            assert(octets(pieces)->0 == bytes@);
            return Some(bytes);
        }
        assert(rest.skip(to - from + 1) == text@.subrange(to + 1, end as int));
        assert(pieces == done + split(text@.subrange(to + 1, end as int), ':'));
        from = to + 1;
    }
}

/// Reads `text[start..end]` as one line of a session description.
fn parse_line(text: &Vec<char>, start: usize, end: usize) -> (r: Option<Vec<u8>>)
    requires
        start <= end <= text@.len(),
    ensures
        r is Some == line_fingerprint(text@.subrange(start as int, end as int)) is Some,
        r matches Some(bytes) ==> line_fingerprint(text@.subrange(start as int, end as int)) == Some(
            bytes@,
        ),
{
    let name: Vec<char> = chars_of("a=fingerprint:");
    let (from, to) = trim_range(text, start, end);
    let ghost attribute = text@.subrange(from as int, to as int);
    if to - from < name.len() {
        return None;
    }
    let mut i: usize = 0;
    while i < name.len()
        invariant
            i <= name@.len() <= to - from,
            to <= text@.len(),
            name@ == "a=fingerprint:"@,
            attribute == text@.subrange(from as int, to as int),
            attribute == trim(text@.subrange(start as int, end as int)),
            forall|j: int| 0 <= j < i ==> name@[j] == #[trigger] attribute[j],
        decreases name@.len() - i,
    {
        assert(attribute[i as int] == text@[from + i]);
        if name[i] != text[from + i] {
            assert(name@[i as int] != attribute[i as int]);
            assert(!name@.is_prefix_of(attribute));
            return None;
        }
        i = i + 1;
    }
    assert(name@.is_prefix_of(attribute));
    let value_at: usize = from + name.len();
    let ghost value = text@.subrange(value_at as int, to as int);
    assert(value == attribute.skip(name@.len() as int));
    let space: usize = find(text, value_at, to, ' ');
    if space == to {
        return None;
    }
    assert(value.take(space - value_at) == text@.subrange(value_at as int, space as int));
    if !matches_ignoring_case(text, value_at, space, "sha-256") {
        return None;
    }
    assert(value.skip(space - value_at + 1) == text@.subrange(space + 1, to as int));
    parse_octets(text, space + 1, to)
}

/// Lines without a fingerprint do not change which fingerprint comes first.
proof fn lemma_skip_lines(without: Seq<Seq<char>>, lines: Seq<Seq<char>>)
    requires
        forall|i: int| 0 <= i < without.len() ==> line_fingerprint(#[trigger] without[i]) is None,
    ensures
        first_fingerprint(without + lines) == first_fingerprint(lines),
    decreases without.len(),
{
    if without.len() == 0 {
        assert(without + lines == lines);
    } else {
        assert((without + lines).drop_first() == without.drop_first() + lines);
        assert((without + lines)[0] == without[0]);
        lemma_skip_lines(without.drop_first(), lines);
    }
}

/// Parses a DTLS certificate fingerprint out of a session description,
/// returning the raw digest bytes. `None` if no line carries a SHA-256
/// fingerprint that decodes; no other algorithm is accepted.
pub fn parse_dtls_fingerprint(sdp: &str) -> (r: Option<Vec<u8>>)
    ensures
        r is Some == dtls_fingerprint(sdp@) is Some,
        r matches Some(bytes) ==> dtls_fingerprint(sdp@) == Some(bytes@),
{
    let text: Vec<char> = chars_of(sdp);
    let ghost lines = split(sdp@, '\n');
    let ghost mut done: Seq<Seq<char>> = seq![];
    let end: usize = text.len();
    let mut from: usize = 0;
    assert(text@.subrange(0, end as int) == sdp@);
    assert(lines == done + lines);
    loop
        invariant
            from <= end == text@.len(),
            lines == split(sdp@, '\n'),
            lines == done + split(text@.subrange(from as int, end as int), '\n'),
            forall|i: int| 0 <= i < done.len() ==> line_fingerprint(#[trigger] done[i]) is None,
        decreases end - from,
    {
        let ghost rest = text@.subrange(from as int, end as int);
        let to: usize = find(&text, from, end, '\n');
        let ghost line = text@.subrange(from as int, to as int);
        assert(line == rest.take(to - from));
        assert(to == end ==> rest == line);
        assert(split(rest, '\n')[0] == line);
        proof {
            lemma_skip_lines(done, split(rest, '\n'));
        }
        let found = parse_line(&text, from, to);
        if found.is_some() {
            return found;
        }
        proof {
            done = done.push(line);
        }
        if to == end {
            proof {
                assert(lines == done + Seq::<Seq<char>>::empty());
                lemma_skip_lines(done, seq![]);
            }
            return None;
        }
        assert(rest.skip(to - from + 1) == text@.subrange(to + 1, end as int));
        assert(lines == done + split(text@.subrange(to + 1, end as int), '\n'));
        from = to + 1;
    }
}

/// The fingerprint of a description is that of the first line that has one, and
/// it is never empty.
pub proof fn law_first_line_counts(sdp: Seq<char>)
    ensures
        ({
            let lines = split(sdp, '\n');
            match dtls_fingerprint(sdp) {
                Some(bytes) => {
                    &&& bytes.len() > 0
                    &&& exists|k: int|
                        0 <= k < lines.len() && line_fingerprint(#[trigger] lines[k]) == Some(bytes)
                            && forall|i: int|
                            0 <= i < k ==> line_fingerprint(#[trigger] lines[i]) is None
                },
                None => forall|i: int|
                    0 <= i < lines.len() ==> line_fingerprint(#[trigger] lines[i]) is None,
            }
        }),
{
    lemma_first_line(split(sdp, '\n'));
}

/// Which of some lines has the fingerprint that counts.
proof fn lemma_first_line(lines: Seq<Seq<char>>)
    ensures
        match first_fingerprint(lines) {
            Some(bytes) => {
                &&& bytes.len() > 0
                &&& exists|k: int|
                    0 <= k < lines.len() && line_fingerprint(#[trigger] lines[k]) == Some(bytes)
                        && forall|i: int|
                        0 <= i < k ==> line_fingerprint(#[trigger] lines[i]) is None
            },
            None => forall|i: int|
                0 <= i < lines.len() ==> line_fingerprint(#[trigger] lines[i]) is None,
        },
    decreases lines.len(),
{
    if lines.len() > 0 {
        let rest = lines.drop_first();
        lemma_first_line(rest);
        if line_fingerprint(lines[0]) is Some {
            let attribute = trim(lines[0]);
            let value = attribute.skip("a=fingerprint:"@.len() as int);
            law_pieces_join_to_the_text(value.skip(position(value, ' ') as int + 1), ':');
        } else if first_fingerprint(rest) is Some {
            let bytes = first_fingerprint(rest)->0;
            let k = choose|k: int|
                0 <= k < rest.len() && line_fingerprint(#[trigger] rest[k]) == Some(bytes)
                    && forall|i: int| 0 <= i < k ==> line_fingerprint(#[trigger] rest[i]) is None;
            assert(lines[k + 1] == rest[k]);
            assert forall|i: int| 0 <= i < k + 1 implies line_fingerprint(#[trigger] lines[i])
                is None by {
                if i > 0 {
                    assert(lines[i] == rest[i - 1]);
                }
            }
        } else {
            assert forall|i: int| 0 <= i < lines.len() implies line_fingerprint(#[trigger] lines[i])
                is None by {
                if i > 0 {
                    assert(lines[i] == rest[i - 1]);
                }
            }
        }
    }
}

/// Whether two characters write a byte in hexadecimal, each digit in either
/// case.
pub open spec fn writes_octet(piece: Seq<char>, byte: u8) -> bool {
    &&& piece.len() == 2
    &&& is_hex_digit(piece[0])
    &&& is_hex_digit(piece[1])
    &&& byte == hex_digit_value(piece[0]) * 16 + hex_digit_value(piece[1])
}

/// Whether the pieces write the bytes, one each.
pub open spec fn write_octets(pieces: Seq<Seq<char>>, bytes: Seq<u8>) -> bool {
    &&& pieces.len() == bytes.len()
    &&& forall|i: int| 0 <= i < pieces.len() ==> writes_octet(#[trigger] pieces[i], bytes[i])
}

/// A line with a SHA-256 fingerprint, as a description carries it.
pub open spec fn written_fingerprint(pieces: Seq<Seq<char>>) -> Seq<char> {
    "a=fingerprint:sha-256 "@ + joined(pieces, ':')
}

/// A byte written in two digits is that byte again.
proof fn lemma_octet_reads_back(piece: Seq<char>, byte: u8)
    requires
        writes_octet(piece, byte),
    ensures
        octet(piece) == Some(byte),
{
    let hi = piece[0];
    let lo = piece[1];
    assert(trim(piece) == piece);
    assert(without_plus(piece) == piece);
    assert(piece.drop_last() == seq![hi]);
    assert(seq![hi].drop_last() == Seq::<char>::empty());
    assert(seq![hi].last() == hi);
    assert(hex_value(Seq::<char>::empty()) == 0);
    assert(hex_value(seq![hi]) == hex_digit_value(hi));
    assert(piece.last() == lo);
    assert(hex_value(piece) == hex_value(seq![hi]) * 16 + hex_digit_value(lo));
}

/// The pieces of a written fingerprint are what it was written with.
proof fn lemma_pieces_read_back(pieces: Seq<Seq<char>>, bytes: Seq<u8>)
    requires
        pieces.len() > 0,
        write_octets(pieces, bytes),
    ensures
        split(joined(pieces, ':'), ':') == pieces,
{
    assert forall|i: int| 0 <= i < pieces.len() implies !(#[trigger] pieces[i]).contains(':') by {
        assert(writes_octet(pieces[i], bytes[i]));
    }
    law_joined_pieces_split(pieces, ':');
}

/// A written fingerprint starts and ends in a digit.
proof fn lemma_written_ends(pieces: Seq<Seq<char>>, bytes: Seq<u8>)
    requires
        pieces.len() > 0,
        write_octets(pieces, bytes),
    ensures
        joined(pieces, ':').len() > 0,
        is_hex_digit(joined(pieces, ':')[0]),
        is_hex_digit(joined(pieces, ':').last()),
    decreases pieces.len(),
{
    assert(writes_octet(pieces[0], bytes[0]));
    if pieces.len() > 1 {
        let rest = pieces.drop_first();
        assert(write_octets(rest, bytes.drop_first()));
        lemma_written_ends(rest, bytes.drop_first());
        assert(joined(pieces, ':').last() == joined(rest, ':').last());
    }
}

/// Writing a fingerprint into a line of a description, each byte as two
/// hexadecimal digits in either case, and reading that line gives the same
/// bytes.
pub proof fn law_fingerprint_reads_back(pieces: Seq<Seq<char>>, bytes: Seq<u8>)
    requires
        pieces.len() > 0,
        write_octets(pieces, bytes),
    ensures
        line_fingerprint(written_fingerprint(pieces)) == Some(bytes),
{
    reveal_strlit("a=fingerprint:sha-256 ");
    reveal_strlit("a=fingerprint:");
    reveal_strlit("sha-256");
    let line = written_fingerprint(pieces);
    let digits = joined(pieces, ':');
    let name = "a=fingerprint:"@;
    lemma_written_ends(pieces, bytes);
    assert(line[0] == 'a');
    assert(line.last() == digits.last());
    assert(trim(line) == line);
    assert(name.is_prefix_of(line));
    let value = line.skip(name.len() as int);
    assert(value == "sha-256 "@ + digits) by {
        reveal_strlit("sha-256 ");
    }
    lemma_position_of_space(digits);
    assert(value.take(7) == "sha-256"@) by {
        reveal_strlit("sha-256 ");
    }
    assert(value.skip(8) == digits) by {
        reveal_strlit("sha-256 ");
    }
    lemma_pieces_read_back(pieces, bytes);
    assert forall|i: int| 0 <= i < pieces.len() implies octet(#[trigger] pieces[i]) == Some(
        bytes[i],
    ) by {
        lemma_octet_reads_back(pieces[i], bytes[i]);
    }
    assert(octets(pieces)->0 == bytes);
}

/// The space after the algorithm's name is the first.
proof fn lemma_position_of_space(digits: Seq<char>)
    ensures
        position("sha-256 "@ + digits, ' ') == 7,
{
    reveal_strlit("sha-256 ");
    let value = "sha-256 "@ + digits;
    lemma_position_is(value, ' ', 7);
}

/// Whether line `k` of a description is a written fingerprint, white space around
/// it aside, and no line before has one.
pub open spec fn writes_fingerprint(
    sdp: Seq<char>,
    k: int,
    pieces: Seq<Seq<char>>,
    bytes: Seq<u8>,
) -> bool {
    &&& pieces.len() > 0
    &&& write_octets(pieces, bytes)
    &&& 0 <= k < split(sdp, '\n').len()
    &&& trim(split(sdp, '\n')[k]) == written_fingerprint(pieces)
    &&& forall|i: int| 0 <= i < k ==> line_fingerprint(#[trigger] split(sdp, '\n')[i]) is None
}

/// A description one of whose lines is a written fingerprint, white space
/// around it aside, has that fingerprint, if no line before has one.
pub proof fn law_description_reads_back(
    sdp: Seq<char>,
    k: int,
    pieces: Seq<Seq<char>>,
    bytes: Seq<u8>,
)
    requires
        writes_fingerprint(sdp, k, pieces, bytes),
    ensures
        dtls_fingerprint(sdp) == Some(bytes),
{
    let lines = split(sdp, '\n');
    let line = written_fingerprint(pieces);
    law_fingerprint_reads_back(pieces, bytes);
    lemma_written_ends(pieces, bytes);
    reveal_strlit("a=fingerprint:sha-256 ");
    assert(line[0] == 'a');
    assert(line.last() == joined(pieces, ':').last());
    assert(trim(line) == line);
    assert(line_fingerprint(lines[k]) == Some(bytes));
    let before = lines.take(k);
    assert(lines == before + lines.skip(k));
    assert forall|i: int| 0 <= i < before.len() implies line_fingerprint(#[trigger] before[i])
        is None by {
        assert(before[i] == lines[i]);
    }
    lemma_skip_lines(before, lines.skip(k));
}

/// Whether a piece is white space, an optional plus sign, hexadecimal digits,
/// at least one, and white space.
pub open spec fn consists_of(
    piece: Seq<char>,
    lead: Seq<char>,
    plus: bool,
    digits: Seq<char>,
    trail: Seq<char>,
) -> bool {
    &&& piece == lead + (if plus {
        seq!['+']
    } else {
        seq![]
    }) + digits + trail
    &&& all_white_space(lead)
    &&& all_white_space(trail)
    &&& digits.len() > 0
    &&& all_hex_digits(digits)
}

/// A piece of hexadecimal digits, with white space around them and a plus sign
/// before them or not, is the number that the digits write if that is a byte,
/// and nothing if it is more.
pub proof fn law_digits_are_a_byte(
    piece: Seq<char>,
    lead: Seq<char>,
    plus: bool,
    digits: Seq<char>,
    trail: Seq<char>,
)
    requires
        consists_of(piece, lead, plus, digits, trail),
    ensures
        hex_value(digits) < 256 ==> octet(piece) == Some(hex_value(digits) as u8),
        hex_value(digits) >= 256 ==> octet(piece) is None,
{
    let sign: Seq<char> = if plus {
        seq!['+']
    } else {
        seq![]
    };
    let core = sign + digits;
    assert(piece =~= lead + core + trail);
    assert(is_hex_digit(digits[0]) && is_hex_digit(digits.last()));
    assert(core.last() == digits.last());
    law_white_space_around_is_trimmed(lead, core, trail);
    assert(without_plus(core) =~= digits);
}

/// A piece is a byte only if it is hexadecimal digits that write that byte, but
/// for white space around them and a plus sign before them.
pub proof fn law_only_digits_are_a_byte(piece: Seq<char>) -> (r: (
    Seq<char>,
    bool,
    Seq<char>,
    Seq<char>,
))
    requires
        octet(piece) is Some,
    ensures
        consists_of(piece, r.0, r.1, r.2, r.3),
        hex_value(r.2) == octet(piece)->0,
{
    let (lead, trail) = law_trimming_takes_white_space(piece);
    let core = trim(piece);
    let digits = without_plus(core);
    let plus = core.len() > 0 && core[0] == '+';
    if plus {
        assert(core =~= seq!['+'] + digits);
        assert(piece =~= lead + seq!['+'] + digits + trail);
    } else {
        assert(piece =~= lead + Seq::<char>::empty() + digits + trail);
    }
    (lead, plus, digits, trail)
}

/// Whether a text is `sha-256`, each letter in either case.
pub open spec fn names_sha_256(algorithm: Seq<char>) -> bool {
    &&& algorithm.len() == 7
    &&& algorithm[0] == 's' || algorithm[0] == 'S'
    &&& algorithm[1] == 'h' || algorithm[1] == 'H'
    &&& algorithm[2] == 'a' || algorithm[2] == 'A'
    &&& algorithm[3] == '-'
    &&& algorithm[4] == '2'
    &&& algorithm[5] == '5'
    &&& algorithm[6] == '6'
}

/// Whether a line is, white space around it aside, a SHA-256 fingerprint with
/// these pieces for these bytes.
pub open spec fn carries(
    line: Seq<char>,
    lead: Seq<char>,
    algorithm: Seq<char>,
    pieces: Seq<Seq<char>>,
    trail: Seq<char>,
    bytes: Seq<u8>,
) -> bool {
    &&& line == lead + "a=fingerprint:"@ + algorithm + seq![' '] + joined(pieces, ':') + trail
    &&& all_white_space(lead)
    &&& all_white_space(trail)
    &&& names_sha_256(algorithm)
    &&& bytes.len() > 0
    &&& pieces.len() == bytes.len()
    &&& forall|i: int|
        0 <= i < pieces.len() ==> octet(#[trigger] pieces[i]) == Some(bytes[i])
            && !pieces[i].contains(':')
    &&& joined(pieces, ':').len() > 0 && !white_space(joined(pieces, ':').last())
}

/// A line that carries a SHA-256 fingerprint has all of its bytes for its
/// fingerprint, in order.
pub proof fn law_line_is_read_in_full(
    line: Seq<char>,
    lead: Seq<char>,
    algorithm: Seq<char>,
    pieces: Seq<Seq<char>>,
    trail: Seq<char>,
    bytes: Seq<u8>,
)
    requires
        carries(line, lead, algorithm, pieces, trail, bytes),
    ensures
        line_fingerprint(line) == Some(bytes),
{
    reveal_strlit("a=fingerprint:");
    reveal_strlit("sha-256");
    let name = "a=fingerprint:"@;
    let digits = joined(pieces, ':');
    let value = algorithm + seq![' '] + digits;
    let core = name + value;
    assert(line =~= lead + core + trail);
    assert(core[0] == 'a');
    assert(core.last() == digits.last());
    law_white_space_around_is_trimmed(lead, core, trail);
    assert(name.is_prefix_of(core));
    assert(core.skip(name.len() as int) =~= value);
    assert forall|i: int| 0 <= i < 7 implies value[i] != ' ' by {
        assert(value[i] == algorithm[i]);
    }
    assert(value[7] == ' ');
    lemma_position_is(value, ' ', 7);
    assert(value.take(7) =~= algorithm);
    assert(value.skip(8) =~= digits);
    assert(same_ignoring_case(algorithm, "sha-256"@));
    law_joined_pieces_split(pieces, ':');
    assert(octets(pieces)->0 =~= bytes);
}

/// A line has a fingerprint only if it carries it.
pub proof fn law_only_a_fingerprint_is_read(line: Seq<char>) -> (r: (
    Seq<char>,
    Seq<char>,
    Seq<Seq<char>>,
    Seq<char>,
))
    requires
        line_fingerprint(line) is Some,
    ensures
        carries(line, r.0, r.1, r.2, r.3, line_fingerprint(line)->0),
{
    reveal_strlit("a=fingerprint:");
    reveal_strlit("sha-256");
    let name = "a=fingerprint:"@;
    let (lead, trail) = law_trimming_takes_white_space(line);
    let core = trim(line);
    let value = core.skip(name.len() as int);
    let space = position(value, ' ') as int;
    let algorithm = value.take(space);
    let digits = value.skip(space + 1);
    let pieces = split(digits, ':');
    lemma_position(value, ' ');
    assert(core =~= name + value);
    assert(value =~= algorithm + seq![' '] + digits);
    law_pieces_join_to_the_text(digits, ':');
    assert(line =~= lead + name + algorithm + seq![' '] + digits + trail);
    assert(names_sha_256(algorithm)) by {
        let wanted = "sha-256"@;
        assert(forall|i: int|
            0 <= i < 7 ==> crate::text::ascii_lower(#[trigger] algorithm[i])
                == crate::text::ascii_lower(wanted[i]));
        assert(wanted[0] == 's' && wanted[1] == 'h' && wanted[2] == 'a' && wanted[3] == '-'
            && wanted[4] == '2' && wanted[5] == '5' && wanted[6] == '6');
        assert(crate::text::ascii_lower(algorithm[0]) == 's');
        assert(crate::text::ascii_lower(algorithm[1]) == 'h');
        assert(crate::text::ascii_lower(algorithm[2]) == 'a');
        assert(crate::text::ascii_lower(algorithm[3]) == '-');
        assert(crate::text::ascii_lower(algorithm[4]) == '2');
        assert(crate::text::ascii_lower(algorithm[5]) == '5');
        assert(crate::text::ascii_lower(algorithm[6]) == '6');
    }
    if digits.len() == 0 {
        lemma_position_is(digits, ':', 0);
        assert(pieces[0] == digits);
        assert(trim(digits) == digits);
        assert(octet(pieces[0]) is None);
    } else {
        assert(core.last() == digits.last());
    }
    (lead, algorithm, pieces, trail)
}

}
