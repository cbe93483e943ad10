//! Text as a sequence of characters: trimming, splitting, case folding and
//! the decimal and hexadecimal notations that the protocols of this crate use.
use vstd::prelude::*;
use vstd::slice::slice_subrange;

verus! {

/// `String::push` appends the character to the end of the text.
pub assume_specification [String::push] (text: &mut String, c: char)
    ensures
        final(text)@ == old(text)@.push(c),
;

// ---------------------------------------------------------------------------
// Model
// ---------------------------------------------------------------------------
/// The characters with the Unicode property `White_Space`.
pub open spec fn white_space(c: char) -> bool {
    let v = c as u32;
    ||| 0x9 <= v <= 0xd
    ||| v == 0x20
    ||| v == 0x85
    ||| v == 0xa0
    ||| v == 0x1680
    ||| 0x2000 <= v <= 0x200a
    ||| v == 0x2028
    ||| v == 0x2029
    ||| v == 0x202f
    ||| v == 0x205f
    ||| v == 0x3000
}

/// `s` without its leading white space.
pub open spec fn trim_start(s: Seq<char>) -> Seq<char>
    decreases s.len(),
{
    if s.len() > 0 && white_space(s[0]) {
        trim_start(s.drop_first())
    } else {
        s
    }
}

/// `s` without its trailing white space.
pub open spec fn trim_end(s: Seq<char>) -> Seq<char>
    decreases s.len(),
{
    if s.len() > 0 && white_space(s.last()) {
        trim_end(s.drop_last())
    } else {
        s
    }
}

/// `s` without white space at either end.
pub open spec fn trim(s: Seq<char>) -> Seq<char> {
    trim_end(trim_start(s))
}

/// `s` without the copies of `c` at its end.
pub open spec fn trim_end_char(s: Seq<char>, c: char) -> Seq<char>
    decreases s.len(),
{
    if s.len() > 0 && s.last() == c {
        trim_end_char(s.drop_last(), c)
    } else {
        s
    }
}

/// `s` without the copies of `c` at its start.
pub open spec fn trim_start_char(s: Seq<char>, c: char) -> Seq<char>
    decreases s.len(),
{
    if s.len() > 0 && s[0] == c {
        trim_start_char(s.drop_first(), c)
    } else {
        s
    }
}

/// `s` without the copies of `c` at either end.
pub open spec fn trim_char(s: Seq<char>, c: char) -> Seq<char> {
    trim_end_char(trim_start_char(s, c), c)
}

/// The pieces of `s` between the separators `sep`: one more than there are
/// separators.
pub open spec fn split(s: Seq<char>, sep: char) -> Seq<Seq<char>>
    decreases s.len(),
{
    if s.len() == 0 {
        seq![Seq::empty()]
    } else {
        let before = split(s.drop_last(), sep);
        if s.last() == sep {
            before.push(Seq::empty())
        } else {
            before.drop_last().push(before.last().push(s.last()))
        }
    }
}

/// The maximal runs of `s` that hold no white space.
pub open spec fn words(s: Seq<char>) -> Seq<Seq<char>>
    decreases s.len(),
{
    if s.len() == 0 {
        Seq::empty()
    } else {
        let before = words(s.drop_last());
        if white_space(s.last()) {
            before
        } else if s.len() >= 2 && !white_space(s[s.len() - 2]) {
            before.drop_last().push(before.last().push(s.last()))
        } else {
            before.push(seq![s.last()])
        }
    }
}

/// `s` without one carriage return at its end.
pub open spec fn strip_return(s: Seq<char>) -> Seq<char> {
    if s.len() > 0 && s.last() == '\r' {
        s.drop_last()
    } else {
        s
    }
}

/// The lines of `s`: a line ends at a line feed, which may follow a carriage
/// return, and neither belongs to it. Nothing follows the last line feed but a
/// line that holds something.
pub open spec fn lines(s: Seq<char>) -> Seq<Seq<char>> {
    let pieces = split(s, '\n');
    let ended = pieces.drop_last().map_values(|p: Seq<char>| strip_return(p));
    if pieces.last().len() == 0 {
        ended
    } else {
        ended.push(pieces.last())
    }
}

/// `parts` in order, with `sep` between neighbours.
pub open spec fn join(parts: Seq<Seq<char>>, sep: Seq<char>) -> Seq<char>
    decreases parts.len(),
{
    if parts.len() == 0 {
        Seq::empty()
    } else if parts.len() == 1 {
        parts[0]
    } else {
        join(parts.drop_last(), sep) + sep + parts.last()
    }
}

/// The lower-case letter of an upper-case ASCII letter, and any other
/// character as it is.
pub open spec fn lower_char(c: char) -> char {
    if 'A' <= c && c <= 'Z' {
        ((c as u32) + 32) as char
    } else {
        c
    }
}

/// `s` with its ASCII letters in lower case.
pub open spec fn lower(s: Seq<char>) -> Seq<char> {
    s.map_values(|c: char| lower_char(c))
}

/// The texts differ at most in the case of ASCII letters.
pub open spec fn same_ignoring_case(a: Seq<char>, b: Seq<char>) -> bool {
    lower(a) == lower(b)
}

/// `part` occurs somewhere in `s`.
pub open spec fn contains_text(s: Seq<char>, part: Seq<char>) -> bool {
    exists|i: int|
        0 <= i <= s.len() - part.len() && #[trigger] s.subrange(i, i + part.len()) == part
}

/// `part` stands at the start of `s`.
pub open spec fn starts_with(s: Seq<char>, part: Seq<char>) -> bool {
    part.len() <= s.len() && s.take(part.len() as int) == part
}

/// The value of `c` as a digit of the given radix.
pub open spec fn digit_value(c: char, radix: nat) -> Option<nat> {
    let v = c as u32;
    let d: int = if 0x30 <= v <= 0x39 {
        v - 0x30
    } else if 0x41 <= v <= 0x5a {
        v - 0x41 + 10
    } else if 0x61 <= v <= 0x7a {
        v - 0x61 + 10
    } else {
        radix as int
    };
    if d < radix {
        Some(d as nat)
    } else {
        None
    }
}

/// The number that the digits `s` denote, if each of them is one.
pub open spec fn digits_value(s: Seq<char>, radix: nat) -> Option<nat>
    decreases s.len(),
{
    if s.len() == 0 {
        Some(0)
    } else {
        match (digits_value(s.drop_last(), radix), digit_value(s.last(), radix)) {
            (Some(v), Some(d)) => Some(v * radix + d),
            _ => None,
        }
    }
}

/// What stands behind an optional plus sign.
pub open spec fn behind_plus(s: Seq<char>) -> Seq<char> {
    if s.len() > 0 && s[0] == '+' {
        s.drop_first()
    } else {
        s
    }
}

/// The number, at most `max`, that `s` denotes: an optional plus sign and then
/// one digit or more.
pub open spec fn number(s: Seq<char>, radix: nat, max: nat) -> Option<nat> {
    let body = behind_plus(s);
    if body.len() == 0 {
        None
    } else {
        match digits_value(body, radix) {
            Some(v) => if v <= max {
                Some(v)
            } else {
                None
            },
            None => None,
        }
    }
}

/// Why a text denotes no number.
#[derive(Clone, Copy, Debug, PartialEq, Eq, Structural)]
pub enum NumberFault {
    Empty,
    InvalidDigit,
    TooLarge,
}

/// What is wrong with a number, in words.
pub open spec fn number_fault_text(fault: NumberFault) -> Seq<char> {
    match fault {
        NumberFault::Empty => "cannot parse integer from empty string"@,
        NumberFault::InvalidDigit => "invalid digit found in string"@,
        NumberFault::TooLarge => "number too large to fit in target type"@,
    }
}

impl NumberFault {
    /// What is wrong, in words.
    pub fn message(self) -> (text: &'static str)
        ensures
            text@ == number_fault_text(self),
    {
        match self {
            NumberFault::Empty => "cannot parse integer from empty string",
            NumberFault::InvalidDigit => "invalid digit found in string",
            NumberFault::TooLarge => "number too large to fit in target type",
        }
    }
}

/// The digits at the start of `s` denote more than `max`, `n` of them already.
pub open spec fn too_large_at(s: Seq<char>, radix: nat, max: nat, n: int) -> bool {
    0 <= n <= s.len() && match digits_value(s.take(n), radix) {
        Some(v) => v > max,
        None => false,
    }
}

/// Why a text denotes no number of at most `max`. It is read from the front: a
/// number that is too large is noticed before a wrong digit behind it.
pub open spec fn number_fault(s: Seq<char>, radix: nat, max: nat) -> NumberFault {
    if s.len() == 0 {
        NumberFault::Empty
    } else if exists|n: int| #[trigger] too_large_at(behind_plus(s), radix, max, n) {
        NumberFault::TooLarge
    } else {
        NumberFault::InvalidDigit
    }
}

/// The character of a digit below sixteen, letters in lower case.
pub open spec fn digit_char(d: nat) -> char {
    if d < 10 {
        (0x30 + d) as char
    } else {
        (0x61 + (d - 10)) as char
    }
}

/// The decimal notation of `n`.
pub open spec fn decimal(n: nat) -> Seq<char>
    decreases n,
{
    if n < 10 {
        seq![digit_char(n)]
    } else {
        decimal(n / 10).push(digit_char(n % 10))
    }
}

/// The two hexadecimal digits of a byte.
pub open spec fn hex_pair(b: u8) -> Seq<char> {
    seq![digit_char(b as nat / 16), digit_char(b as nat % 16)]
}

/// The texts of a sequence of strings.
pub open spec fn texts(parts: Seq<String>) -> Seq<Seq<char>> {
    parts.map_values(|p: String| p@)
}

/// The text of an optional string.
pub open spec fn option_text(text: Option<String>) -> Option<Seq<char>> {
    match text {
        Some(t) => Some(t@),
        None => None,
    }
}

/// The text of an optional string slice.
pub open spec fn option_str(text: Option<&str>) -> Option<Seq<char>> {
    match text {
        Some(t) => Some(t@),
        None => None,
    }
}

// ---------------------------------------------------------------------------
// Characters and strings
// ---------------------------------------------------------------------------
/// The characters of a text.
pub fn chars_of(text: &str) -> (chars: Vec<char>)
    ensures
        chars@ == text@,
{
    let mut chars: Vec<char> = Vec::new();
    for c in it: text.chars()
        invariant
            chars@ == text@.take(it.index() as int),
            it.seq() == text@,
    {
        chars.push(c);
        assert(text@.take(it.index() as int + 1) =~= text@.take(it.index() as int).push(c));
    }
    assert(text@.take(text@.len() as int) =~= text@);
    chars
}

/// The text of some characters.
pub fn text_of(chars: &[char]) -> (text: String)
    ensures
        text@ == chars@,
{
    let mut text = String::new();
    let mut i: usize = 0;
    while i < chars.len()
        invariant
            i <= chars@.len(),
            text@ == chars@.take(i as int),
        decreases chars@.len() - i,
    {
        text.push(chars[i]);
        assert(chars@.take(i as int + 1) =~= chars@.take(i as int).push(chars@[i as int]));
        i = i + 1;
    }
    assert(chars@.take(chars@.len() as int) =~= chars@);
    text
}

/// Whether two character sequences are the same.
pub fn same_chars(a: &[char], b: &[char]) -> (same: bool)
    ensures
        same == (a@ == b@),
{
    if a.len() != b.len() {
        return false;
    }
    let mut i: usize = 0;
    while i < a.len()
        invariant
            i <= a@.len(),
            a@.len() == b@.len(),
            forall|j: int| 0 <= j < i ==> a@[j] == b@[j],
        decreases a@.len() - i,
    {
        if a[i] != b[i] {
            return false;
        }
        i = i + 1;
    }
    assert(a@ =~= b@);
    true
}

/// Whether two texts are the same.
pub fn same_text(a: &str, b: &str) -> (same: bool)
    ensures
        same == (a@ == b@),
{
    let a = chars_of(a);
    let b = chars_of(b);
    same_chars(a.as_slice(), b.as_slice())
}

/// The two texts one after the other.
pub fn joined(a: &str, b: &str) -> (text: String)
    ensures
        text@ == a@ + b@,
{
    let mut text = a.to_owned();
    text.append(b);
    text
}

/// The three texts one after the other.
pub fn joined3(a: &str, b: &str, c: &str) -> (text: String)
    ensures
        text@ == a@ + b@ + c@,
{
    let mut text = a.to_owned();
    text.append(b);
    text.append(c);
    text
}

/// The four texts one after the other.
pub fn joined4(a: &str, b: &str, c: &str, d: &str) -> (text: String)
    ensures
        text@ == a@ + b@ + c@ + d@,
{
    let mut text = a.to_owned();
    text.append(b);
    text.append(c);
    text.append(d);
    text
}

/// `parts` in order, with `sep` between neighbours.
pub fn join_texts(parts: &Vec<String>, sep: &str) -> (text: String)
    ensures
        text@ == join(texts(parts@), sep@),
{
    let mut text = String::new();
    let mut i: usize = 0;
    while i < parts.len()
        invariant
            i <= parts@.len(),
            text@ == join(texts(parts@).take(i as int), sep@),
        decreases parts@.len() - i,
    {
        let ghost upto = texts(parts@).take(i as int + 1);
        assert(upto.drop_last() =~= texts(parts@).take(i as int));
        if i > 0 {
            text.append(sep);
        }
        text.append(parts[i].as_str());
        assert(upto.last() == parts@[i as int]@);
        assert(text@ =~= join(upto, sep@));
        i = i + 1;
    }
    assert(texts(parts@).take(i as int) =~= texts(parts@));
    text
}

// ---------------------------------------------------------------------------
// Trimming
// ---------------------------------------------------------------------------
/// Whether `c` is white space.
pub fn is_white_space(c: char) -> (r: bool)
    ensures
        r == white_space(c),
{
    let v: u32 = c as u32;
    (0x9 <= v && v <= 0xd) || v == 0x20 || v == 0x85 || v == 0xa0 || v == 0x1680 || (0x2000 <= v
        && v <= 0x200a) || v == 0x2028 || v == 0x2029 || v == 0x202f || v == 0x205f || v == 0x3000
}

/// `s` without white space at either end.
pub fn trimmed(s: &[char]) -> (r: &[char])
    ensures
        r@ == trim(s@),
{
    let mut from: usize = 0;
    assert(s@.skip(0) =~= s@);
    while from < s.len() && is_white_space(s[from])
        invariant
            from <= s@.len(),
            trim_start(s@) == trim_start(s@.skip(from as int)),
        decreases s@.len() - from,
    {
        assert(s@.skip(from as int).drop_first() =~= s@.skip(from as int + 1));
        from = from + 1;
    }
    let ghost rest = s@.skip(from as int);
    assert(trim_start(s@) == rest);
    let mut to: usize = s.len();
    assert(s@.subrange(from as int, to as int) =~= rest);
    while to > from && is_white_space(s[to - 1])
        invariant
            from <= to <= s@.len(),
            trim_end(rest) == trim_end(s@.subrange(from as int, to as int)),
        decreases to,
    {
        assert(s@.subrange(from as int, to as int).drop_last() =~= s@.subrange(
            from as int,
            to as int - 1,
        ));
        to = to - 1;
    }
    slice_subrange(s, from, to)
}

/// `s` without the copies of `c` at its end.
pub fn trimmed_end_char(s: &[char], c: char) -> (r: &[char])
    ensures
        r@ == trim_end_char(s@, c),
{
    let mut to: usize = s.len();
    assert(s@.take(to as int) =~= s@);
    while to > 0 && s[to - 1] == c
        invariant
            to <= s@.len(),
            trim_end_char(s@, c) == trim_end_char(s@.take(to as int), c),
        decreases to,
    {
        assert(s@.take(to as int).drop_last() =~= s@.take(to as int - 1));
        to = to - 1;
    }
    assert(s@.subrange(0, to as int) =~= s@.take(to as int));
    slice_subrange(s, 0, to)
}

/// `s` without the copies of `c` at its start.
pub fn trimmed_start_char(s: &[char], c: char) -> (r: &[char])
    ensures
        r@ == trim_start_char(s@, c),
{
    let mut from: usize = 0;
    assert(s@.skip(0) =~= s@);
    while from < s.len() && s[from] == c
        invariant
            from <= s@.len(),
            trim_start_char(s@, c) == trim_start_char(s@.skip(from as int), c),
        decreases s@.len() - from,
    {
        assert(s@.skip(from as int).drop_first() =~= s@.skip(from as int + 1));
        from = from + 1;
    }
    assert(s@.subrange(from as int, s@.len() as int) =~= s@.skip(from as int));
    slice_subrange(s, from, s.len())
}

/// The text without white space at either end.
pub fn trimmed_text(s: &str) -> (r: String)
    ensures
        r@ == trim(s@),
{
    let chars = chars_of(s);
    text_of(trimmed(chars.as_slice()))
}

// ---------------------------------------------------------------------------
// Splitting
// ---------------------------------------------------------------------------
/// There is always a piece, if only an empty one.
pub proof fn split_is_never_empty(s: Seq<char>, sep: char)
    ensures
        split(s, sep).len() > 0,
    decreases s.len(),
{
    if s.len() > 0 {
        split_is_never_empty(s.drop_last(), sep);
    }
}

/// The pieces of `s` between the separators `sep`.
pub fn split_at_char(s: &[char], sep: char) -> (pieces: Vec<String>)
    ensures
        texts(pieces@) == split(s@, sep),
{
    let mut pieces: Vec<String> = Vec::new();
    let mut current = String::new();
    let mut i: usize = 0;
    assert(texts(pieces@).push(current@) =~= split(s@.take(0), sep));
    while i < s.len()
        invariant
            i <= s@.len(),
            texts(pieces@).push(current@) == split(s@.take(i as int), sep),
        decreases s@.len() - i,
    {
        let ghost upto = s@.take(i as int + 1);
        let ghost before = texts(pieces@).push(current@);
        assert(upto.drop_last() =~= s@.take(i as int));
        assert(upto.last() == s@[i as int]);
        assert(before.drop_last() =~= texts(pieces@));
        if s[i] == sep {
            pieces.push(current);
            current = String::new();
            assert(texts(pieces@) =~= before);
        } else {
            current.push(s[i]);
        }
        assert(texts(pieces@).push(current@) =~= split(upto, sep));
        i = i + 1;
    }
    assert(s@.take(i as int) =~= s@);
    let ghost before = texts(pieces@).push(current@);
    pieces.push(current);
    assert(texts(pieces@) =~= before);
    pieces
}

/// The maximal runs of `s` that hold no white space.
pub fn split_words(s: &[char]) -> (found: Vec<String>)
    ensures
        texts(found@) == words(s@),
{
    let mut found: Vec<String> = Vec::new();
    let mut current = String::new();
    let mut open = false;
    let mut i: usize = 0;
    assert(texts(found@) =~= words(s@.take(0)));
    while i < s.len()
        invariant
            i <= s@.len(),
            open == (i > 0 && !white_space(s@[i - 1])),
            open ==> texts(found@).push(current@) == words(s@.take(i as int)),
            !open ==> texts(found@) == words(s@.take(i as int)) && current@.len() == 0,
        decreases s@.len() - i,
    {
        let ghost upto = s@.take(i as int + 1);
        assert(upto.drop_last() =~= s@.take(i as int));
        assert(upto.last() == s@[i as int]);
        let ghost before = texts(found@).push(current@);
        assert(before.drop_last() =~= texts(found@));
        if is_white_space(s[i]) {
            if open {
                found.push(current);
                current = String::new();
                assert(texts(found@) =~= before);
            }
            open = false;
        } else {
            if i > 0 {
                assert(upto[upto.len() - 2] == s@[i - 1]);
            }
            current.push(s[i]);
            if !open {
                assert(current@ =~= seq![s@[i as int]]);
            }
            open = true;
        }
        i = i + 1;
    }
    assert(s@.take(i as int) =~= s@);
    if open {
        let ghost before = texts(found@).push(current@);
        found.push(current);
        assert(texts(found@) =~= before);
    }
    found
}

/// The lines of `s`.
pub fn split_lines(s: &[char]) -> (found: Vec<String>)
    ensures
        texts(found@) == lines(s@),
{
    let pieces = split_at_char(s, '\n');
    proof {
        split_is_never_empty(s@, '\n');
        assert(texts(pieces@).len() == pieces@.len());
    }
    let ghost all = split(s@, '\n');
    let count: usize = pieces.len() - 1;
    let mut found: Vec<String> = Vec::new();
    let mut i: usize = 0;
    let ghost ended = all.drop_last().map_values(|p: Seq<char>| strip_return(p));
    while i < count
        invariant
            i <= count,
            count + 1 == pieces@.len(),
            texts(pieces@) == all,
            ended == all.drop_last().map_values(|p: Seq<char>| strip_return(p)),
            texts(found@) == ended.take(i as int),
        decreases count - i,
    {
        let piece = chars_of(pieces[i].as_str());
        assert(all[i as int] == pieces@[i as int]@);
        let ghost before = texts(found@);
        if piece.len() > 0 && piece[piece.len() - 1] == '\r' {
            let line = text_of(slice_subrange(piece.as_slice(), 0, piece.len() - 1));
            assert(line@ =~= strip_return(piece@));
            found.push(line);
        } else {
            found.push(text_of(piece.as_slice()));
        }
        assert(texts(found@) =~= before.push(strip_return(all[i as int])));
        assert(ended.take(i as int + 1) =~= ended.take(i as int).push(ended[i as int]));
        i = i + 1;
    }
    assert(ended.take(count as int) =~= ended);
    assert(all.last() == pieces@[count as int]@);
    if !pieces[count].as_str().is_empty() {
        let ghost before = texts(found@);
        let last = pieces[count].clone();
        found.push(last);
        assert(texts(found@) =~= before.push(all.last()));
    }
    found
}

/// The position of the first `c` in `s`.
pub fn find_char(s: &[char], c: char) -> (at: Option<usize>)
    ensures
        match at {
            Some(i) => i < s@.len() && s@[i as int] == c && forall|j: int| 0 <= j < i ==> s@[j] != c,
            None => forall|j: int| 0 <= j < s@.len() ==> s@[j] != c,
        },
{
    let mut i: usize = 0;
    while i < s.len()
        invariant
            i <= s@.len(),
            forall|j: int| 0 <= j < i ==> s@[j] != c,
        decreases s@.len() - i,
    {
        if s[i] == c {
            return Some(i);
        }
        i = i + 1;
    }
    None
}

/// Whether `part` stands at the start of `s`.
pub fn has_prefix(s: &[char], part: &[char]) -> (r: bool)
    ensures
        r == starts_with(s@, part@),
{
    if part.len() > s.len() {
        return false;
    }
    let head = slice_subrange(s, 0, part.len());
    assert(head@ =~= s@.take(part@.len() as int));
    same_chars(head, part)
}

/// Whether `part` occurs somewhere in `s`.
pub fn has_part(s: &[char], part: &[char]) -> (r: bool)
    ensures
        r == contains_text(s@, part@),
{
    if part.len() > s.len() {
        return false;
    }
    let size: usize = part.len();
    let last: usize = s.len() - size;
    let mut i: usize = 0;
    while i <= last
        invariant
            i <= last + 1,
            size == part@.len(),
            last + size == s@.len(),
            last + size <= usize::MAX,
            forall|j: int| 0 <= j < i ==> #[trigger] s@.subrange(j, j + part@.len()) != part@,
        decreases last + 1 - i,
    {
        if same_chars(slice_subrange(s, i, i + size), part) {
            return true;
        }
        if i == last {
            return false;
        }
        i = i + 1;
    }
    false
}

// ---------------------------------------------------------------------------
// Letter case
// ---------------------------------------------------------------------------
/// The lower-case letter of an upper-case ASCII letter, and any other
/// character as it is.
pub fn lowered_char(c: char) -> (r: char)
    ensures
        r == lower_char(c),
{
    if 'A' <= c && c <= 'Z' {
        let v: u8 = c as u8;
        (v + 32u8) as char
    } else {
        c
    }
}

/// The text with its ASCII letters in lower case.
pub fn lowered(text: &str) -> (r: String)
    ensures
        r@ == lower(text@),
{
    let chars = chars_of(text);
    let mut r = String::new();
    let mut i: usize = 0;
    while i < chars.len()
        invariant
            i <= chars@.len(),
            r@ == lower(chars@.take(i as int)),
        decreases chars@.len() - i,
    {
        r.push(lowered_char(chars[i]));
        assert(r@ =~= lower(chars@.take(i as int + 1)));
        i = i + 1;
    }
    assert(chars@.take(i as int) =~= chars@);
    r
}

/// Whether the texts differ at most in the case of ASCII letters.
pub fn equal_ignoring_case(a: &str, b: &str) -> (r: bool)
    ensures
        r == same_ignoring_case(a@, b@),
{
    let a = lowered(a);
    let b = lowered(b);
    same_text(a.as_str(), b.as_str())
}

// ---------------------------------------------------------------------------
// Numbers
// ---------------------------------------------------------------------------
/// The value of `c` as a digit of the given radix.
pub fn digit_of(c: char, radix: u64) -> (d: Option<u64>)
    requires
        radix <= 36,
    ensures
        d is Some <==> digit_value(c, radix as nat) is Some,
        d is Some ==> d->0 == digit_value(c, radix as nat)->0,
{
    let v: u32 = c as u32;
    let d: u64 = if 0x30 <= v && v <= 0x39 {
        (v - 0x30) as u64
    } else if 0x41 <= v && v <= 0x5a {
        (v - 0x41 + 10) as u64
    } else if 0x61 <= v && v <= 0x7a {
        (v - 0x61 + 10) as u64
    } else {
        radix
    };
    if d < radix {
        Some(d)
    } else {
        None
    }
}

proof fn digits_value_grows(s: Seq<char>, radix: nat, n: int)
    requires
        0 <= n <= s.len(),
        radix >= 1,
        digits_value(s, radix) is Some,
    ensures
        digits_value(s.take(n), radix) is Some,
        digits_value(s.take(n), radix)->0 <= digits_value(s, radix)->0,
    decreases s.len() - n,
{
    if n < s.len() {
        assert(s.drop_last().take(n) =~= s.take(n));
        digits_value_grows(s.drop_last(), radix, n);
        let v = digits_value(s.drop_last(), radix)->0;
        assert(v * radix >= v) by (nonlinear_arith)
            requires
                radix >= 1,
        ;
    } else {
        assert(s.take(n) =~= s);
    }
}

proof fn digits_stay_small(s: Seq<char>, radix: nat, max: nat, n: int)
    requires
        0 <= n <= s.len(),
        radix >= 1,
        digits_value(s.take(n), radix) matches Some(v) && v <= max,
        n < s.len() ==> digits_value(s.take(n + 1), radix) is None,
    ensures
        forall|k: int| !(#[trigger] too_large_at(s, radix, max, k)),
        digits_value(s, radix) matches Some(v) ==> n == s.len() && v <= max,
{
    assert forall|k: int| !(#[trigger] too_large_at(s, radix, max, k)) by {
        if 0 <= k <= n {
            digits_value_grows(s.take(n), radix, k);
            assert(s.take(n).take(k) =~= s.take(k));
        } else if n < k <= s.len() {
            if digits_value(s.take(k), radix) is Some {
                digits_value_grows(s.take(k), radix, n + 1);
                assert(s.take(k).take(n + 1) =~= s.take(n + 1));
            }
        }
    }
    assert(s.take(s.len() as int) =~= s);
    if n < s.len() && digits_value(s, radix) is Some {
        digits_value_grows(s, radix, n + 1);
    }
}

/// The number, at most `max`, that `s` denotes in the given radix, or why it
/// denotes none.
pub fn read_number(s: &[char], radix: u64, max: u64) -> (n: Result<u64, NumberFault>)
    requires
        2 <= radix <= 36,
    ensures
        match n {
            Ok(v) => number(s@, radix as nat, max as nat) == Some(v as nat),
            Err(fault) => {
                &&& number(s@, radix as nat, max as nat) is None
                &&& fault == number_fault(s@, radix as nat, max as nat)
            },
        },
{
    if s.len() == 0 {
        return Err(NumberFault::Empty);
    }
    let start: usize = if s[0] == '+' {
        1
    } else {
        0
    };
    let body = slice_subrange(s, start, s.len());
    assert(body@ =~= behind_plus(s@));
    let mut v: u128 = 0;
    let mut i: usize = 0;
    assert(body@.take(0) =~= Seq::<char>::empty());
    while i < body.len()
        invariant
            i <= body@.len(),
            s@.len() > 0,
            body@ == behind_plus(s@),
            2 <= radix <= 36,
            v <= max,
            digits_value(body@.take(i as int), radix as nat) == Some(v as nat),
        decreases body@.len() - i,
    {
        let ghost upto = body@.take(i as int + 1);
        assert(upto.drop_last() =~= body@.take(i as int));
        assert(upto.last() == body@[i as int]);
        match digit_of(body[i], radix) {
            Some(d) => {
                assert(v * radix <= max * 36) by (nonlinear_arith)
                    requires
                        v <= max,
                        radix <= 36,
                ;
                v = v * (radix as u128) + (d as u128);
                assert(digits_value(upto, radix as nat) == Some(v as nat));
                if v > max as u128 {
                    proof {
                        assert(too_large_at(body@, radix as nat, max as nat, i as int + 1));
                        if digits_value(body@, radix as nat) is Some {
                            digits_value_grows(body@, radix as nat, i as int + 1);
                        }
                    }
                    return Err(NumberFault::TooLarge);
                }
            },
            None => {
                proof {
                    assert(digits_value(upto, radix as nat) is None);
                    digits_stay_small(body@, radix as nat, max as nat, i as int);
                }
                return Err(NumberFault::InvalidDigit);
            },
        }
        i = i + 1;
    }
    proof {
        digits_stay_small(body@, radix as nat, max as nat, i as int);
        assert(body@.take(i as int) =~= body@);
    }
    if body.len() == 0 {
        return Err(NumberFault::InvalidDigit);
    }
    Ok(v as u64)
}

/// The number, at most `max`, that `s` denotes in the given radix.
pub fn parse_number(s: &[char], radix: u64, max: u64) -> (n: Option<u64>)
    requires
        2 <= radix <= 36,
    ensures
        n is Some <==> number(s@, radix as nat, max as nat) is Some,
        n is Some ==> n->0 == number(s@, radix as nat, max as nat)->0,
{
    match read_number(s, radix, max) {
        Ok(v) => Some(v),
        Err(_) => None,
    }
}

/// The character of a digit below sixteen.
pub fn char_of_digit(d: u8) -> (c: char)
    requires
        d < 16,
    ensures
        c == digit_char(d as nat),
{
    if d < 10 {
        (0x30u8 + d) as char
    } else {
        (0x61u8 + (d - 10)) as char
    }
}

fn push_decimal(n: u64, text: &mut String)
    ensures
        final(text)@ == old(text)@ + decimal(n as nat),
    decreases n,
{
    if n >= 10 {
        push_decimal(n / 10, text);
    }
    text.push(char_of_digit((n % 10) as u8));
    assert(text@ =~= old(text)@ + decimal(n as nat));
}

/// The decimal notation of `n`.
pub fn decimal_text(n: u64) -> (text: String)
    ensures
        text@ == decimal(n as nat),
{
    let mut text = String::new();
    push_decimal(n, &mut text);
    assert(text@ =~= decimal(n as nat));
    text
}

/// The two hexadecimal digits of a byte.
pub fn hex_text(b: u8) -> (text: String)
    ensures
        text@ == hex_pair(b),
{
    let mut text = String::new();
    text.push(char_of_digit(b / 16));
    text.push(char_of_digit(b % 16));
    assert(text@ =~= hex_pair(b));
    text
}

} // verus!
