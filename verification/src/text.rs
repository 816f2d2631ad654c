//! Text as a sequence of characters: searching, splitting, trimming, and the
//! hexadecimal notations the protocol uses.

use vstd::prelude::*;

verus! {

/// Whether `c` has Unicode's `White_Space` property, which is what trimming
/// takes off both ends of a text.
pub open spec fn white_space(c: char) -> bool {
    ||| '\u{9}' <= c <= '\u{d}'
    ||| c == ' '
    ||| c == '\u{85}'
    ||| c == '\u{a0}'
    ||| c == '\u{1680}'
    ||| '\u{2000}' <= c <= '\u{200a}'
    ||| c == '\u{2028}'
    ||| c == '\u{2029}'
    ||| c == '\u{202f}'
    ||| c == '\u{205f}'
    ||| c == '\u{3000}'
}

/// `s` without the white space it starts with.
pub open spec fn trim_start(s: Seq<char>) -> Seq<char>
    decreases s.len(),
{
    if s.len() > 0 && white_space(s[0]) {
        trim_start(s.drop_first())
    } else {
        s
    }
}

/// `s` without the white space it ends with.
pub open spec fn trim_end(s: Seq<char>) -> Seq<char>
    decreases s.len(),
{
    if s.len() > 0 && white_space(s.last()) {
        trim_end(s.drop_last())
    } else {
        s
    }
}

/// `s` without the white space at either end.
pub open spec fn trim(s: Seq<char>) -> Seq<char> {
    trim_end(trim_start(s))
}

/// Where `c` first stands in `s`, or the length of `s` if it stands nowhere.
pub open spec fn position(s: Seq<char>, c: char) -> nat
    decreases s.len(),
{
    if s.len() == 0 || s[0] == c {
        0
    } else {
        1 + position(s.drop_first(), c)
    }
}

/// The pieces of `s` between the places where `separator` stands. There is
/// always one more piece than there are separators.
pub open spec fn split(s: Seq<char>, separator: char) -> Seq<Seq<char>>
    decreases s.len(),
{
    let at = position(s, separator) as int;
    if at >= s.len() {
        seq![s]
    } else {
        seq![s.take(at)] + split(s.skip(at + 1), separator)
    }
}

/// `c` with the letters `A` to `Z` made small.
pub open spec fn ascii_lower(c: char) -> char {
    if 'A' <= c <= 'Z' {
        (c as u32 + 32) as char
    } else {
        c
    }
}

/// Whether two texts are the same but for the case of ASCII letters.
pub open spec fn same_ignoring_case(a: Seq<char>, b: Seq<char>) -> bool {
    &&& a.len() == b.len()
    &&& forall|i: int| 0 <= i < a.len() ==> ascii_lower(#[trigger] a[i]) == ascii_lower(b[i])
}

/// Whether `c` is a hexadecimal digit, in either case.
pub open spec fn is_hex_digit(c: char) -> bool {
    '0' <= c <= '9' || 'a' <= c <= 'f' || 'A' <= c <= 'F'
}

/// Whether every character is a hexadecimal digit.
pub open spec fn all_hex_digits(s: Seq<char>) -> bool {
    forall|i: int| 0 <= i < s.len() ==> is_hex_digit(#[trigger] s[i])
}

/// What a hexadecimal digit stands for.
pub open spec fn hex_digit_value(c: char) -> nat {
    if '0' <= c <= '9' {
        (c as nat - '0' as nat) as nat
    } else if 'a' <= c <= 'f' {
        (c as nat - 'a' as nat + 10) as nat
    } else {
        (c as nat - 'A' as nat + 10) as nat
    }
}

/// The number that a run of hexadecimal digits writes, the first digit
/// counting most.
pub open spec fn hex_value(digits: Seq<char>) -> nat
    decreases digits.len(),
{
    if digits.len() == 0 {
        0
    } else {
        hex_value(digits.drop_last()) * 16 + hex_digit_value(digits.last())
    }
}

/// The digit for `value`, in small letters.
pub open spec fn hex_digit(value: nat) -> char {
    if value < 10 {
        ('0' as u32 + value) as char
    } else {
        ('a' as u32 + value - 10) as char
    }
}

/// `n` in hexadecimal, in small letters and without leading zeros.
pub open spec fn hex(n: nat) -> Seq<char>
    decreases n,
{
    if n < 16 {
        seq![hex_digit(n)]
    } else {
        hex(n / 16).push(hex_digit(n % 16))
    }
}

/// A place before which `c` does not stand, and where it does or the text ends,
/// is where it first stands.
pub proof fn lemma_position_is(s: Seq<char>, c: char, at: int)
    requires
        0 <= at <= s.len(),
        forall|i: int| 0 <= i < at ==> s[i] != c,
        at == s.len() || s[at] == c,
    ensures
        position(s, c) == at,
    decreases s.len(),
{
    if at > 0 {
        let rest = s.drop_first();
        assert forall|i: int| 0 <= i < at - 1 implies rest[i] != c by {
            assert(rest[i] == s[i + 1]);
        }
        lemma_position_is(rest, c, at - 1);
    }
}

/// Before where a character first stands it does not stand, and there it does
/// unless the text ends there.
pub proof fn lemma_position(s: Seq<char>, c: char)
    ensures
        position(s, c) <= s.len(),
        forall|i: int| 0 <= i < position(s, c) ==> s[i] != c,
        position(s, c) < s.len() ==> s[position(s, c) as int] == c,
    decreases s.len(),
{
    if s.len() > 0 && s[0] != c {
        let rest = s.drop_first();
        lemma_position(rest, c);
        assert forall|i: int| 0 <= i < position(s, c) implies s[i] != c by {
            if i > 0 {
                assert(s[i] == rest[i - 1]);
            }
        }
    }
}

/// Whether a text is white space and nothing else.
pub open spec fn all_white_space(s: Seq<char>) -> bool {
    forall|i: int| 0 <= i < s.len() ==> white_space(#[trigger] s[i])
}

/// Trimming takes nothing but white space off, and all of it: the text is white
/// space, what trimming leaves, and white space, and what is left neither
/// starts nor ends in any.
pub proof fn law_trimming_takes_white_space(s: Seq<char>) -> (ends: (Seq<char>, Seq<char>))
    ensures
        s == ends.0 + trim(s) + ends.1,
        all_white_space(ends.0),
        all_white_space(ends.1),
        trim(s).len() > 0 ==> !white_space(trim(s)[0]) && !white_space(trim(s).last()),
{
    let lead = lemma_trim_start(s);
    let rest = trim_start(s);
    let trail = lemma_trim_end(rest);
    assert(s =~= lead + trim(s) + trail);
    if trim(s).len() > 0 {
        assert(trim(s)[0] == rest[0]);
    }
    (lead, trail)
}

/// What taking white space off the front takes off.
proof fn lemma_trim_start(s: Seq<char>) -> (lead: Seq<char>)
    ensures
        s == lead + trim_start(s),
        all_white_space(lead),
        trim_start(s).len() > 0 ==> !white_space(trim_start(s)[0]),
    decreases s.len(),
{
    if s.len() > 0 && white_space(s[0]) {
        let more = lemma_trim_start(s.drop_first());
        let lead = seq![s[0]] + more;
        assert(s =~= seq![s[0]] + s.drop_first());
        assert(lead + trim_start(s) =~= seq![s[0]] + (more + trim_start(s.drop_first())));
        lead
    } else {
        assert(s =~= Seq::<char>::empty() + s);
        Seq::empty()
    }
}

/// What taking white space off the back takes off.
proof fn lemma_trim_end(s: Seq<char>) -> (trail: Seq<char>)
    ensures
        s == trim_end(s) + trail,
        all_white_space(trail),
        trim_end(s).len() > 0 ==> !white_space(trim_end(s).last()),
    decreases s.len(),
{
    if s.len() > 0 && white_space(s.last()) {
        let more = lemma_trim_end(s.drop_last());
        let trail = more.push(s.last());
        assert(s =~= s.drop_last().push(s.last()));
        assert(trim_end(s) + trail =~= (trim_end(s.drop_last()) + more).push(s.last()));
        trail
    } else {
        assert(s =~= s + Seq::<char>::empty());
        Seq::empty()
    }
}

/// White space around a text that has none at its ends is what trimming takes
/// off.
pub proof fn law_white_space_around_is_trimmed(
    lead: Seq<char>,
    core: Seq<char>,
    trail: Seq<char>,
)
    requires
        all_white_space(lead),
        all_white_space(trail),
        core.len() > 0 ==> !white_space(core[0]) && !white_space(core.last()),
    ensures
        trim(lead + core + trail) == core,
    decreases lead.len() + trail.len(),
{
    let s = lead + core + trail;
    if lead.len() > 0 {
        assert(s[0] == lead[0]);
        assert(s.drop_first() =~= lead.drop_first() + core + trail);
        law_white_space_around_is_trimmed(lead.drop_first(), core, trail);
    } else if core.len() == 0 {
        assert(s =~= trail);
        if trail.len() > 0 {
            assert(s.drop_first() =~= lead + core + trail.drop_first());
            law_white_space_around_is_trimmed(lead, core, trail.drop_first());
        }
    } else {
        assert(s[0] == core[0]);
        assert(trim_start(s) == s);
        if trail.len() > 0 {
            assert(s.last() == trail.last());
            assert(s.drop_last() =~= lead + core + trail.drop_last());
            law_white_space_around_is_trimmed(lead, core, trail.drop_last());
            assert(s.drop_last()[0] == core[0]);
            assert(trim_start(s.drop_last()) == s.drop_last());
        } else {
            assert(s =~= core);
        }
    }
}

/// Pieces with a separator between one and the next.
pub open spec fn joined(pieces: Seq<Seq<char>>, separator: char) -> Seq<char>
    decreases pieces.len(),
{
    if pieces.len() == 0 {
        seq![]
    } else if pieces.len() == 1 {
        pieces[0]
    } else {
        pieces[0] + seq![separator] + joined(pieces.drop_first(), separator)
    }
}

/// Splitting loses nothing and leaves no separator: the pieces joined again are
/// the text, there is at least one, and none holds the separator.
pub proof fn law_pieces_join_to_the_text(s: Seq<char>, separator: char)
    ensures
        split(s, separator).len() > 0,
        joined(split(s, separator), separator) == s,
        forall|i: int|
            0 <= i < split(s, separator).len() ==> !(#[trigger] split(s, separator)[i]).contains(
                separator,
            ),
    decreases s.len(),
{
    let at = position(s, separator) as int;
    let pieces = split(s, separator);
    lemma_position(s, separator);
    if at >= s.len() {
        assert(pieces[0] == s);
    } else {
        let rest = s.skip(at + 1);
        law_pieces_join_to_the_text(rest, separator);
        assert(pieces.drop_first() =~= split(rest, separator));
        assert(s =~= s.take(at) + seq![separator] + rest);
        assert(!s.take(at).contains(separator));
        assert forall|i: int| 0 <= i < pieces.len() implies !(#[trigger] pieces[i]).contains(
            separator,
        ) by {
            if i > 0 {
                assert(pieces[i] == split(rest, separator)[i - 1]);
            }
        }
    }
}

/// Pieces without the separator in them, joined by it, split into those pieces.
pub proof fn law_joined_pieces_split(pieces: Seq<Seq<char>>, separator: char)
    requires
        pieces.len() > 0,
        forall|i: int| 0 <= i < pieces.len() ==> !(#[trigger] pieces[i]).contains(separator),
    ensures
        split(joined(pieces, separator), separator) == pieces,
    decreases pieces.len(),
{
    let text = joined(pieces, separator);
    let first = pieces[0];
    let at = first.len() as int;
    assert forall|i: int| 0 <= i < at implies first[i] != separator by {
        assert(first.contains(first[i]));
    }
    if pieces.len() == 1 {
        lemma_position_is(text, separator, at);
        assert(pieces =~= seq![text]);
    } else {
        let rest = pieces.drop_first();
        assert forall|i: int| 0 <= i < rest.len() implies !(#[trigger] rest[i]).contains(
            separator,
        ) by {
            assert(rest[i] == pieces[i + 1]);
        }
        assert forall|i: int| 0 <= i < at implies text[i] != separator by {
            assert(text[i] == first[i]);
        }
        assert(text[at] == separator);
        lemma_position_is(text, separator, at);
        assert(text.take(at) =~= first);
        assert(text.skip(at + 1) =~= joined(rest, separator));
        law_joined_pieces_split(rest, separator);
        assert(pieces =~= seq![first] + rest);
    }
}

/// Which characters are hexadecimal digits and which are white space, by their
/// code points.
pub proof fn law_digits_and_white_space(c: char)
    ensures
        is_hex_digit(c) <==> (48 <= c as int <= 57 || 65 <= c as int <= 70 || 97 <= c as int <= 102),
        white_space(c) <==> (9 <= c as int <= 13 || c as int == 32 || c as int == 0x85 || c as int
            == 0xa0 || c as int == 0x1680 || 0x2000 <= c as int <= 0x200a || c as int == 0x2028
            || c as int == 0x2029 || c as int == 0x202f || c as int == 0x205f || c as int == 0x3000),
{
}

/// What a run of hexadecimal digits writes: nothing writes zero, and each
/// further digit counts one while the ones before it count sixteen times what
/// they did.
pub proof fn law_hex_value_goes_digit_by_digit(digits: Seq<char>, digit: char)
    requires
        is_hex_digit(digit),
    ensures
        hex_value(Seq::empty()) == 0,
        hex_value(digits.push(digit)) == 16 * hex_value(digits) + if digit <= '9' {
            digit as int - 48
        } else if digit <= 'F' {
            digit as int - 65 + 10
        } else {
            digit as int - 97 + 10
        },
        48 <= digit as int <= 57 || 65 <= digit as int <= 70 || 97 <= digit as int <= 102,
{
    assert(digits.push(digit).drop_last() =~= digits);
}

/// A number written in hexadecimal is small hexadecimal digits, at least one and
/// the first no needless zero, and reads back as that number.
pub proof fn law_hex_reads_back(n: nat)
    ensures
        hex_value(hex(n)) == n,
        hex(n).len() > 0,
        all_hex_digits(hex(n)),
        forall|i: int|
            0 <= i < hex(n).len() ==> '0' <= #[trigger] hex(n)[i] <= '9' || 'a' <= hex(n)[i] <= 'f',
        hex(n)[0] == '0' ==> n == 0 && hex(n).len() == 1,
    decreases n,
{
    let digit = hex_digit(n % 16);
    assert(hex_digit_value(digit) == n % 16);
    if n < 16 {
        assert(hex(n).drop_last() == Seq::<char>::empty());
        assert(hex_value(Seq::<char>::empty()) == 0);
        assert(hex(n).last() == digit);
    } else {
        law_hex_reads_back(n / 16);
        assert(hex(n).drop_last() == hex(n / 16));
    }
}

/// The characters of `s`, one by one.
pub fn chars_of(s: &str) -> (chars: Vec<char>)
    ensures
        chars@ == s@,
{
    let mut chars: Vec<char> = Vec::new();
    for c in it: s.chars()
        invariant
            it.seq() == s@,
            chars@ == s@.take(it.index() as int),
    {
        chars.push(c);
    }
    chars
}

/// Whether `c` is white space.
pub fn is_white_space(c: char) -> (r: bool)
    ensures
        r == white_space(c),
{
    ('\u{9}' <= c && c <= '\u{d}') || c == ' ' || c == '\u{85}' || c == '\u{a0}' || c == '\u{1680}'
        || ('\u{2000}' <= c && c <= '\u{200a}') || c == '\u{2028}' || c == '\u{2029}'
        || c == '\u{202f}' || c == '\u{205f}' || c == '\u{3000}'
}

/// The bounds of `text[start..end]` once the white space at its ends is off.
pub fn trim_range(text: &Vec<char>, start: usize, end: usize) -> (r: (usize, usize))
    requires
        start <= end <= text@.len(),
    ensures
        start <= r.0 <= r.1 <= end,
        text@.subrange(r.0 as int, r.1 as int) == trim(text@.subrange(start as int, end as int)),
{
    let ghost whole = trim(text@.subrange(start as int, end as int));
    let mut from: usize = start;
    while from < end && is_white_space(text[from])
        invariant
            start <= from <= end <= text@.len(),
            trim_start(text@.subrange(start as int, end as int)) == trim_start(
                text@.subrange(from as int, end as int),
            ),
        decreases end - from,
    {
        assert(text@.subrange(from as int, end as int).drop_first() == text@.subrange(
            from + 1,
            end as int,
        ));
        from = from + 1;
    }
    let mut to: usize = end;
    while from < to && is_white_space(text[to - 1])
        invariant
            start <= from <= to <= end <= text@.len(),
            trim_end(text@.subrange(from as int, to as int)) == whole,
        decreases to - from,
    {
        assert(text@.subrange(from as int, to as int).drop_last() == text@.subrange(
            from as int,
            to - 1,
        ));
        to = to - 1;
    }
    (from, to)
}

/// Where `c` first stands in `text[start..end]`, counted from the start of
/// `text`; `end` if it stands nowhere there.
pub fn find(text: &Vec<char>, start: usize, end: usize, c: char) -> (at: usize)
    requires
        start <= end <= text@.len(),
    ensures
        start <= at <= end,
        at - start == position(text@.subrange(start as int, end as int), c),
{
    let mut at: usize = start;
    while at < end && text[at] != c
        invariant
            start <= at <= end <= text@.len(),
            position(text@.subrange(start as int, end as int), c) == (at - start) + position(
                text@.subrange(at as int, end as int),
                c,
            ),
        decreases end - at,
    {
        assert(text@.subrange(at as int, end as int).drop_first() == text@.subrange(
            at + 1,
            end as int,
        ));
        at = at + 1;
    }
    at
}

/// Whether `text[start..end]` and `other` are the same but for the case of
/// ASCII letters.
pub fn matches_ignoring_case(text: &Vec<char>, start: usize, end: usize, other: &str) -> (r: bool)
    requires
        start <= end <= text@.len(),
    ensures
        r == same_ignoring_case(text@.subrange(start as int, end as int), other@),
{
    let wanted: Vec<char> = chars_of(other);
    let ghost left = text@.subrange(start as int, end as int);
    if wanted.len() != end - start {
        return false;
    }
    let mut i: usize = 0;
    while i < wanted.len()
        invariant
            start <= end <= text@.len(),
            left == text@.subrange(start as int, end as int),
            wanted@ == other@,
            left.len() == wanted@.len(),
            i <= wanted@.len(),
            forall|j: int| 0 <= j < i ==> ascii_lower(#[trigger] left[j]) == ascii_lower(wanted@[j]),
        decreases wanted@.len() - i,
    {
        assert(left[i as int] == text@[start + i]);
        if to_ascii_lower(text[start + i]) != to_ascii_lower(wanted[i]) {
            return false;
        }
        i = i + 1;
    }
    true
}

/// `c` with the letters `A` to `Z` made small.
fn to_ascii_lower(c: char) -> (r: char)
    ensures
        r == ascii_lower(c),
{
    if 'A' <= c && c <= 'Z' {
        (c as u8 + 32) as char
    } else {
        c
    }
}

/// `n` in hexadecimal, in small letters and without leading zeros.
pub fn to_hex(n: u32) -> (r: String)
    ensures
        r@ == hex(n as nat),
    decreases n,
{
    let digits = "0123456789abcdef";
    let low: usize = (n % 16) as usize;
    proof {
        reveal_strlit("0123456789abcdef");
    }
    let digit = digits.substring_char(low, low + 1);
    assert(digit@ == seq![hex_digit((n % 16) as nat)]);
    if n < 16 {
        digit.to_owned()
    } else {
        let r = to_hex(n / 16).concat(digit);
        assert(r@ == hex((n / 16) as nat).push(hex_digit((n % 16) as nat)));
        r
    }
}

}
