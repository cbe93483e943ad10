//! What trimming, splitting, folding and reading numbers come to, for every text.
use vstd::prelude::*;
use crate::text::{
    behind_plus, contains_text, decimal, digit_char, digit_value, digits_value, hex_pair, join,
    lines, lower, lower_char, number, same_ignoring_case, split, split_is_never_empty,
    starts_with, strip_return, trim, trim_char, trim_end, trim_end_char, trim_start,
    white_space, words,
};

verus! {

// ---------------------------------------------------------------------------
// White space
// ---------------------------------------------------------------------------
/// White space is a tab, a line feed, the two between those and a carriage return,
/// a space, and what Unicode has of the kind; no letter, no digit and no sign is.
pub proof fn white_space_is_no_text(c: char)
    ensures
        white_space(c) <==> ({
            let v = c as u32;
            v == 0x9 || v == 0xa || v == 0xb || v == 0xc || v == 0xd || v == 0x20 || v == 0x85 || v
                == 0xa0 || v == 0x1680 || (0x2000 <= v && v <= 0x200a) || v == 0x2028 || v == 0x2029
                || v == 0x202f || v == 0x205f || v == 0x3000
        }),
{
}

proof fn trim_start_drops_a_prefix(s: Seq<char>) -> (n: int)
    ensures
        0 <= n <= s.len(),
        trim_start(s) == s.skip(n),
        forall|i: int| 0 <= i < n ==> white_space(#[trigger] s[i]),
        n < s.len() ==> !white_space(s[n]),
    decreases s.len(),
{
    if s.len() > 0 && white_space(s[0]) {
        let t = s.drop_first();
        let m = trim_start_drops_a_prefix(t);
        assert(t.skip(m) =~= s.skip(m + 1));
        assert forall|i: int| 0 <= i < m + 1 implies white_space(#[trigger] s[i]) by {
            if i > 0 {
                assert(s[i] == t[i - 1]);
            }
        }
        m + 1
    } else {
        assert(s.skip(0) =~= s);
        0
    }
}

proof fn trim_end_drops_a_suffix(s: Seq<char>) -> (n: int)
    ensures
        0 <= n <= s.len(),
        trim_end(s) == s.take(n),
        forall|i: int| n <= i < s.len() ==> white_space(#[trigger] s[i]),
        n > 0 ==> !white_space(s[n - 1]),
    decreases s.len(),
{
    if s.len() > 0 && white_space(s.last()) {
        let t = s.drop_last();
        let m = trim_end_drops_a_suffix(t);
        assert(t.take(m) =~= s.take(m));
        assert forall|i: int| m <= i < s.len() implies white_space(#[trigger] s[i]) by {
            if i < t.len() {
                assert(s[i] == t[i]);
            }
        }
        m
    } else {
        assert(s.take(s.len() as int) =~= s);
        s.len() as int
    }
}

/// Trimming takes white space off both ends and nothing else: what is left stands in
/// the text as it is, only white space stood around it, and it neither starts nor
/// ends with any.
pub proof fn trimming_takes_the_ends_off(s: Seq<char>)
    ensures
        exists|a: int, b: int|
            0 <= a <= b <= s.len() && trim(s) == #[trigger] s.subrange(a, b) && (forall|i: int|
                (0 <= i < a || b <= i < s.len()) ==> white_space(#[trigger] s[i])),
        trim(s).len() > 0 ==> !white_space(trim(s)[0]) && !white_space(trim(s).last()),
{
    let a = trim_start_drops_a_prefix(s);
    let t = trim_start(s);
    let m = trim_end_drops_a_suffix(t);
    let b = a + m;
    assert(s.subrange(a, b) =~= t.take(m));
    assert forall|i: int| (0 <= i < a || b <= i < s.len()) implies white_space(
        #[trigger] s[i],
    ) by {
        if i >= b {
            assert(t[i - a] == s[i]);
        }
    }
    if m > 0 {
        assert(t[0] == s[a]);
        assert(trim(s)[0] == t[0]);
        assert(trim(s).last() == t[m - 1]);
    }
    assert(trim(s) == s.subrange(a, b));
}

/// A text without white space at its ends is trimmed already.
pub proof fn a_plain_text_is_trimmed_already(s: Seq<char>)
    requires
        s.len() > 0 ==> !white_space(s[0]) && !white_space(s.last()),
    ensures
        trim(s) == s,
{
}

/// Taking a character off the end takes all of its copies there and nothing else.
pub proof fn trimming_the_end_of_a_character(s: Seq<char>, c: char)
    ensures
        exists|n: int|
            0 <= n <= s.len() && trim_end_char(s, c) == #[trigger] s.take(n) && (forall|i: int|
                n <= i < s.len() ==> #[trigger] s[i] == c),
        trim_end_char(s, c).len() > 0 ==> trim_end_char(s, c).last() != c,
    decreases s.len(),
{
    if s.len() > 0 && s.last() == c {
        let t = s.drop_last();
        trimming_the_end_of_a_character(t, c);
        let n = choose|n: int|
            0 <= n <= t.len() && trim_end_char(t, c) == #[trigger] t.take(n) && (forall|i: int|
                n <= i < t.len() ==> #[trigger] t[i] == c);
        assert(t.take(n) =~= s.take(n));
        assert forall|i: int| n <= i < s.len() implies #[trigger] s[i] == c by {
            if i < t.len() {
                assert(s[i] == t[i]);
            }
        }
    } else {
        assert(s.take(s.len() as int) =~= s);
    }
}

/// Taking a character off both ends takes all of its copies there and nothing else.
pub proof fn trimming_a_character(s: Seq<char>, c: char)
    ensures
        exists|a: int, b: int|
            0 <= a <= b <= s.len() && trim_char(s, c) == #[trigger] s.subrange(a, b) && (forall|
                i: int,
            |
                (0 <= i < a || b <= i < s.len()) ==> #[trigger] s[i] == c),
        trim_char(s, c).len() > 0 ==> trim_char(s, c)[0] != c && trim_char(s, c).last() != c,
    decreases s.len(),
{
    if s.len() > 0 && s[0] == c {
        let t = s.drop_first();
        trimming_a_character(t, c);
        let (a, b) = choose|a: int, b: int|
            0 <= a <= b <= t.len() && trim_char(t, c) == #[trigger] t.subrange(a, b) && (forall|
                i: int,
            |
                (0 <= i < a || b <= i < t.len()) ==> #[trigger] t[i] == c);
        assert(t.subrange(a, b) =~= s.subrange(a + 1, b + 1));
        assert forall|i: int| (0 <= i < a + 1 || b + 1 <= i < s.len()) implies #[trigger] s[i]
            == c by {
            if i > 0 {
                assert(s[i] == t[i - 1]);
            }
        }
        assert(trim_char(s, c) == s.subrange(a + 1, b + 1));
    } else {
        trimming_the_end_of_a_character(s, c);
        let n = choose|n: int|
            0 <= n <= s.len() && trim_end_char(s, c) == #[trigger] s.take(n) && (forall|i: int|
                n <= i < s.len() ==> #[trigger] s[i] == c);
        assert(s.subrange(0, n) =~= s.take(n));
        if n > 0 {
            assert(trim_char(s, c)[0] == s[0]);
        }
        assert(trim_char(s, c) == s.subrange(0, n));
    }
}

// ---------------------------------------------------------------------------
// Pieces
// ---------------------------------------------------------------------------
/// A text without the separator is one piece.
pub proof fn a_text_without_separator_is_one_piece(s: Seq<char>, sep: char)
    requires
        !s.contains(sep),
    ensures
        split(s, sep) == seq![s],
    decreases s.len(),
{
    if s.len() > 0 {
        let fewer = s.drop_last();
        assert forall|i: int| 0 <= i < fewer.len() implies fewer[i] != sep by {
            assert(fewer[i] == s[i]);
        }
        a_text_without_separator_is_one_piece(fewer, sep);
        assert(s.contains(s[s.len() - 1]));
        assert(fewer.push(s.last()) =~= s);
        assert(split(s, sep) =~= seq![s]);
    } else {
        assert(s =~= Seq::empty());
    }
}

/// The pieces of two texts with a separator between them are those of the first, and
/// then those of the second.
pub proof fn a_separator_parts_the_pieces(a: Seq<char>, sep: char, b: Seq<char>)
    ensures
        split(a.push(sep) + b, sep) == split(a, sep) + split(b, sep),
    decreases b.len(),
{
    let both = a.push(sep) + b;
    split_is_never_empty(b, sep);
    if b.len() == 0 {
        assert(both =~= a.push(sep));
        assert(both.drop_last() =~= a);
        assert(b =~= Seq::empty());
        assert(split(both, sep) =~= split(a, sep) + split(b, sep));
    } else {
        let fewer = b.drop_last();
        assert(both.drop_last() =~= a.push(sep) + fewer);
        assert(both.last() == b.last());
        a_separator_parts_the_pieces(a, sep, fewer);
        split_is_never_empty(fewer, sep);
        let before = split(a, sep) + split(fewer, sep);
        assert(before.last() == split(fewer, sep).last());
        assert(before.drop_last() =~= split(a, sep) + split(fewer, sep).drop_last());
        assert(split(both, sep) =~= split(a, sep) + split(b, sep));
    }
}

/// A text without white space is one word, unless there is nothing in it.
pub proof fn a_text_without_space_is_one_word(s: Seq<char>)
    requires
        forall|i: int| 0 <= i < s.len() ==> !white_space(#[trigger] s[i]),
    ensures
        words(s) == if s.len() == 0 {
            Seq::empty()
        } else {
            seq![s]
        },
    decreases s.len(),
{
    if s.len() > 0 {
        let fewer = s.drop_last();
        assert forall|i: int| 0 <= i < fewer.len() implies !white_space(#[trigger] fewer[i]) by {
            assert(fewer[i] == s[i]);
        }
        a_text_without_space_is_one_word(fewer);
        assert(!white_space(s[s.len() - 1]));
        if s.len() >= 2 {
            assert(!white_space(s[s.len() - 2]));
            assert(fewer.push(s.last()) =~= s);
            assert(words(s) =~= seq![s]);
        } else {
            assert(fewer =~= Seq::empty());
            assert(seq![s.last()] =~= s);
            assert(words(s) =~= seq![s]);
        }
    }
}

/// The words of two texts with white space between them are those of the first, and
/// then those of the second.
pub proof fn white_space_parts_the_words(a: Seq<char>, c: char, b: Seq<char>)
    requires
        white_space(c),
    ensures
        words(a.push(c) + b) == words(a) + words(b),
    decreases b.len(),
{
    let both = a.push(c) + b;
    if b.len() == 0 {
        assert(both =~= a.push(c));
        assert(both.drop_last() =~= a);
        assert(words(a) + words(b) =~= words(a));
    } else {
        let fewer = b.drop_last();
        assert(both.drop_last() =~= a.push(c) + fewer);
        assert(both.last() == b.last());
        white_space_parts_the_words(a, c, fewer);
        if !white_space(b.last()) {
            if b.len() >= 2 {
                assert(both[both.len() - 2] == b[b.len() - 2]);
            } else {
                assert(both[both.len() - 2] == c);
                assert(fewer =~= Seq::empty());
            }
            if b.len() >= 2 && !white_space(b[b.len() - 2]) {
                words_of_an_open_end(fewer);
                let before = words(a) + words(fewer);
                assert(before.last() == words(fewer).last());
                assert(before.drop_last() =~= words(a) + words(fewer).drop_last());
            }
        }
        assert(words(both) =~= words(a) + words(b));
    }
}

proof fn words_of_an_open_end(s: Seq<char>)
    requires
        s.len() > 0,
        !white_space(s.last()),
    ensures
        words(s).len() > 0,
{
}

/// The first line of a text is what stands before the first line feed, without a
/// carriage return at its end; what follows the line feed makes up the others.
pub proof fn a_line_ends_at_a_line_feed(a: Seq<char>, b: Seq<char>)
    requires
        !a.contains('\n'),
    ensures
        lines(a.push('\n') + b) == seq![
            if a.len() > 0 && a.last() == '\r' {
                a.drop_last()
            } else {
                a
            },
        ] + lines(b),
{
    a_text_without_separator_is_one_piece(a, '\n');
    a_separator_parts_the_pieces(a, '\n', b);
    split_is_never_empty(b, '\n');
    let second = split(b, '\n');
    let all = seq![a] + second;
    let strip = |p: Seq<char>| strip_return(p);
    assert(all.last() == second.last());
    assert(all.drop_last() =~= seq![a] + second.drop_last());
    assert(all.drop_last().map_values(strip) =~= seq![strip_return(a)]
        + second.drop_last().map_values(strip));
    assert(lines(a.push('\n') + b) =~= seq![strip_return(a)] + lines(b));
}

/// What follows the last line feed is a line, unless there is nothing.
pub proof fn the_last_line_needs_no_line_feed(s: Seq<char>)
    requires
        !s.contains('\n'),
    ensures
        lines(s) == if s.len() == 0 {
            Seq::empty()
        } else {
            seq![s]
        },
{
    a_text_without_separator_is_one_piece(s, '\n');
    assert(lines(s) =~= if s.len() == 0 {
        Seq::empty()
    } else {
        seq![s]
    });
}

/// Parts are joined in order, each but the first behind one separator, and nothing
/// else is between them.
pub proof fn parts_are_joined_in_order(parts: Seq<Seq<char>>, sep: Seq<char>, part: Seq<char>)
    ensures
        join(Seq::<Seq<char>>::empty(), sep).len() == 0,
        join(seq![part], sep) == part,
        parts.len() > 0 ==> join(parts.push(part), sep) == join(parts, sep) + sep + part,
{
    assert(parts.push(part).drop_last() =~= parts);
}

// ---------------------------------------------------------------------------
// Case
// ---------------------------------------------------------------------------
/// Folding touches the letters from A to Z alone, and makes each the small one.
pub proof fn folding_touches_capitals_alone(s: Seq<char>)
    ensures
        lower(s).len() == s.len(),
        forall|i: int|
            0 <= i < s.len() ==> (if 0x41 <= s[i] as u32 && s[i] as u32 <= 0x5a {
                (#[trigger] lower(s)[i]) as u32 == s[i] as u32 + 0x20
            } else {
                lower(s)[i] == s[i]
            }),
{
}

/// Texts are the same, whatever the case, if and only if at each place they have the
/// same character, or the same letter of the ASCII alphabet, large or small.
pub proof fn only_the_case_of_letters_is_ignored(a: Seq<char>, b: Seq<char>)
    ensures
        same_ignoring_case(a, b) <==> a.len() == b.len() && forall|i: int|
            0 <= i < a.len() ==> #[trigger] a[i] == b[i] || (0x41 <= a[i] as u32 <= 0x5a
                && a[i] as u32
                + 0x20 == b[i] as u32) || (0x41 <= b[i] as u32 <= 0x5a && b[i] as u32 + 0x20
                == a[i] as u32),
{
    if same_ignoring_case(a, b) {
        assert(lower(a).len() == lower(b).len());
        assert forall|i: int| 0 <= i < a.len() implies #[trigger] a[i] == b[i] || (0x41
            <= a[i] as u32 <= 0x5a && a[i] as u32 + 0x20 == b[i] as u32) || (0x41 <= b[i] as u32
            <= 0x5a && b[i] as u32 + 0x20 == a[i] as u32) by {
            assert(lower(a)[i] == lower_char(a[i]));
            assert(lower(b)[i] == lower_char(b[i]));
            same_letters(a[i], b[i]);
        }
    }
    if a.len() == b.len() && forall|i: int|
        0 <= i < a.len() ==> #[trigger] a[i] == b[i] || (0x41 <= a[i] as u32 <= 0x5a && a[i] as u32
            + 0x20 == b[i] as u32) || (0x41 <= b[i] as u32 <= 0x5a && b[i] as u32 + 0x20
            == a[i] as u32) {
        assert(lower(a) =~= lower(b)) by {
            assert forall|i: int| 0 <= i < a.len() implies lower(a)[i] == lower(b)[i] by {
                assert(a[i] == a[i]);
                same_letters(a[i], b[i]);
            }
        }
    }
}

proof fn same_letters(c: char, d: char)
    ensures
        lower_char(c) == lower_char(d) <==> c == d || (0x41 <= c as u32 <= 0x5a && c as u32 + 0x20
            == d as u32) || (0x41 <= d as u32 <= 0x5a && d as u32 + 0x20 == c as u32),
{
}

/// A text starts with another if and only if it is that one with something behind it.
pub proof fn what_a_text_starts_with(s: Seq<char>, part: Seq<char>)
    ensures
        starts_with(s, part) <==> exists|rest: Seq<char>| s == #[trigger] (part + rest),
{
    if starts_with(s, part) {
        assert(s =~= part + s.skip(part.len() as int));
    }
    if exists|rest: Seq<char>| s == #[trigger] (part + rest) {
        let rest = choose|rest: Seq<char>| s == #[trigger] (part + rest);
        assert(s.take(part.len() as int) =~= part);
    }
}

/// A text occurs in another if and only if that one is it with something around it.
pub proof fn what_occurs_in_a_text(s: Seq<char>, part: Seq<char>)
    ensures
        contains_text(s, part) <==> exists|a: Seq<char>, b: Seq<char>| s == #[trigger] (a + part
            + b),
{
    if contains_text(s, part) {
        let i = choose|i: int|
            0 <= i <= s.len() - part.len() && #[trigger] s.subrange(i, i + part.len()) == part;
        assert(s =~= s.take(i) + part + s.skip(i + part.len()));
    }
    if exists|a: Seq<char>, b: Seq<char>| s == #[trigger] (a + part + b) {
        let (a, b) = choose|a: Seq<char>, b: Seq<char>| s == #[trigger] (a + part + b);
        let i = a.len() as int;
        assert(s.subrange(i, i + part.len()) =~= part);
    }
}

// ---------------------------------------------------------------------------
// Numbers
// ---------------------------------------------------------------------------
/// One decimal digit denotes its number.
pub proof fn a_digit_denotes_its_number(c: char, max: nat)
    requires
        0x30 <= c as u32 <= 0x39,
    ensures
        number(seq![c], 10, max) == if c as u32 - 0x30 <= max {
            Some((c as u32 - 0x30) as nat)
        } else {
            None
        },
{
    let s = seq![c];
    assert(s.drop_last() =~= Seq::empty());
    assert(digits_value(Seq::<char>::empty(), 10) == Some(0nat));
    assert(s.last() == c);
}

/// A further digit makes a number ten times as large and adds its own; a number that
/// is too large stays so.
pub proof fn a_further_digit_counts(s: Seq<char>, c: char, max: nat)
    requires
        number(s, 10, max) is Some,
        0x30 <= c as u32 <= 0x39,
    ensures
        ({
            let v = number(s, 10, max)->0 * 10 + (c as u32 - 0x30);
            number(s.push(c), 10, max) == if v <= max {
                Some(v as nat)
            } else {
                None
            }
        }),
{
    let t = s.push(c);
    assert(t[0] == s[0]);
    assert(behind_plus(t) =~= behind_plus(s).push(c));
    let body = behind_plus(t);
    assert(body.drop_last() =~= behind_plus(s));
    assert(body.last() == c);
}

/// Nothing but digits denotes a decimal number, with at most a plus sign before them;
/// a number is never larger than allowed.
pub proof fn only_digits_denote_a_number(s: Seq<char>, max: nat)
    requires
        number(s, 10, max) is Some,
    ensures
        number(s, 10, max)->0 <= max,
        s.len() > 0,
        forall|i: int| 0 < i < s.len() ==> 0x30 <= (#[trigger] s[i]) as u32 <= 0x39,
        s[0] == '+' || 0x30 <= s[0] as u32 <= 0x39,
        s[0] == '+' ==> s.len() > 1,
{
    let body = behind_plus(s);
    digits_are_digits(body);
    if s[0] == '+' {
        assert forall|i: int| 0 < i < s.len() implies 0x30 <= (#[trigger] s[i]) as u32 <= 0x39 by {
            assert(s[i] == body[i - 1]);
        }
    }
}

proof fn digits_are_digits(s: Seq<char>)
    requires
        digits_value(s, 10) is Some,
    ensures
        forall|i: int| 0 <= i < s.len() ==> 0x30 <= (#[trigger] s[i]) as u32 <= 0x39,
    decreases s.len(),
{
    if s.len() > 0 {
        let fewer = s.drop_last();
        digits_are_digits(fewer);
        assert(digit_value(s.last(), 10) is Some);
        assert forall|i: int| 0 <= i < s.len() implies 0x30 <= (#[trigger] s[i]) as u32
            <= 0x39 by {
            if i < fewer.len() {
                assert(s[i] == fewer[i]);
            }
        }
    }
}

/// A plus sign before a number changes nothing.
pub proof fn a_plus_sign_changes_nothing(s: Seq<char>, radix: nat, max: nat)
    requires
        s.len() > 0 ==> s[0] != '+',
    ensures
        number(seq!['+'] + s, radix, max) == number(s, radix, max),
{
    assert(behind_plus(seq!['+'] + s) =~= s);
}

/// The decimal notation of a number is made of digits, has no superfluous zero, and
/// each digit is worth ten times the next.
pub proof fn decimal_notation(n: nat)
    ensures
        n < 10 ==> decimal(n) == seq![((0x30 + n) as u32) as char],
        n >= 10 ==> decimal(n) == decimal(n / 10).push(((0x30 + n % 10) as u32) as char),
{
    assert(digit_char(n % 10) == ((0x30 + n % 10) as u32) as char);
}

/// The two hexadecimal digits of an octet, in lower case.
pub proof fn hexadecimal_notation(b: u8)
    ensures
        hex_pair(b).len() == 2,
        ({
            let high = b / 16;
            let low = b % 16;
            &&& high < 10 ==> hex_pair(b)[0] as u32 == 0x30 + high
            &&& high >= 10 ==> hex_pair(b)[0] as u32 == 0x61 + high - 10
            &&& low < 10 ==> hex_pair(b)[1] as u32 == 0x30 + low
            &&& low >= 10 ==> hex_pair(b)[1] as u32 == 0x61 + low - 10
        }),
{
}

} // verus!
