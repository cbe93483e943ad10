//! Base64 (RFC 4648): what the encodings are, and the calls that encode and
//! decode them.
use base64::Engine;
use vstd::prelude::*;

verus! {

/// The symbol of a number below sixty-four. The URL alphabet differs in the
/// last two.
pub open spec fn symbol(d: nat, url: bool) -> char {
    if d < 26 {
        (0x41 + d) as char
    } else if d < 52 {
        (0x61 + (d - 26)) as char
    } else if d < 62 {
        (0x30 + (d - 52)) as char
    } else if d == 62 {
        if url {
            '-'
        } else {
            '+'
        }
    } else {
        if url {
            '_'
        } else {
            '/'
        }
    }
}

/// The base64 text of some octets: four symbols for three octets, six bits
/// each. With `pad`, equals signs fill up the last four.
pub open spec fn base64_text(b: Seq<u8>, url: bool, pad: bool) -> Seq<char>
    decreases b.len(),
{
    if b.len() == 0 {
        Seq::empty()
    } else if b.len() == 1 {
        seq![symbol(b[0] as nat / 4, url), symbol(b[0] as nat % 4 * 16, url)] + if pad {
            seq!['=', '=']
        } else {
            Seq::empty()
        }
    } else if b.len() == 2 {
        seq![
            symbol(b[0] as nat / 4, url),
            symbol(b[0] as nat % 4 * 16 + b[1] as nat / 16, url),
            symbol(b[1] as nat % 16 * 4, url),
        ] + if pad {
            seq!['=']
        } else {
            Seq::empty()
        }
    } else {
        seq![
            symbol(b[0] as nat / 4, url),
            symbol(b[0] as nat % 4 * 16 + b[1] as nat / 16, url),
            symbol(b[1] as nat % 16 * 4 + b[2] as nat / 64, url),
            symbol(b[2] as nat % 64, url),
        ] + base64_text(b.skip(3), url, pad)
    }
}

/// The octets whose base64 text, in the standard alphabet, is `t`.
pub open spec fn base64_octets(t: Seq<char>, pad: bool) -> Option<Seq<u8>> {
    if exists|b: Seq<u8>| #[trigger] base64_text(b, false, pad) == t {
        Some(choose|b: Seq<u8>| #[trigger] base64_text(b, false, pad) == t)
    } else {
        None
    }
}

proof fn symbols_differ(x: nat, y: nat, url: bool)
    requires
        x < 64,
        y < 64,
        symbol(x, url) == symbol(y, url),
    ensures
        x == y,
{
}

proof fn symbol_is_no_padding(x: nat, url: bool)
    requires
        x < 64,
    ensures
        symbol(x, url) != '=',
{
}

proof fn base64_text_len(b: Seq<u8>, url: bool, pad: bool)
    ensures
        b.len() == 0 <==> base64_text(b, url, pad).len() == 0,
        b.len() > 0 ==> base64_text(b, url, pad).len() >= 2,
        b.len() > 1 ==> base64_text(b, url, pad).len() >= 3,
        b.len() > 2 ==> base64_text(b, url, pad).len() >= 4,
        b.len() > 3 ==> base64_text(b, url, pad).len() > 4,
    decreases b.len(),
{
    if b.len() > 2 {
        base64_text_len(b.skip(3), url, pad);
    }
}

/// The octet at `i`, and zero behind the last.
spec fn octet_at(b: Seq<u8>, i: int) -> nat {
    if i < b.len() {
        b[i] as nat
    } else {
        0
    }
}

proof fn base64_text_symbols(b: Seq<u8>, url: bool, pad: bool)
    requires
        b.len() > 0,
    ensures
        ({
            let s = base64_text(b, url, pad);
            &&& s[0] == symbol(octet_at(b, 0) / 4, url)
            &&& s[1] == symbol(octet_at(b, 0) % 4 * 16 + octet_at(b, 1) / 16, url)
            &&& b.len() > 1 ==> s[2] == symbol(octet_at(b, 1) % 16 * 4 + octet_at(b, 2) / 64, url)
            &&& b.len() > 2 ==> s[3] == symbol(octet_at(b, 2) % 64, url)
            &&& b.len() > 2 ==> s.skip(4) == base64_text(b.skip(3), url, pad)
            &&& b.len() == 1 && pad ==> s[2] == '='
            &&& b.len() == 1 && !pad ==> s.len() == 2
            &&& b.len() == 2 && pad ==> s[3] == '=' && s.len() == 4
            &&& b.len() == 2 && !pad ==> s.len() == 3
        }),
{
    base64_text_len(b, url, pad);
    if b.len() > 2 {
        assert(base64_text(b, url, pad).skip(4) =~= base64_text(b.skip(3), url, pad));
    }
}

/// No two sequences of octets have the same base64 text.
pub proof fn base64_text_is_injective(a: Seq<u8>, b: Seq<u8>, url: bool, pad: bool)
    requires
        base64_text(a, url, pad) == base64_text(b, url, pad),
    ensures
        a == b,
    decreases a.len() + b.len(),
{
    let s = base64_text(a, url, pad);
    let t = base64_text(b, url, pad);
    base64_text_len(a, url, pad);
    base64_text_len(b, url, pad);
    if a.len() == 0 {
        assert(a =~= b);
    } else {
        base64_text_symbols(a, url, pad);
        base64_text_symbols(b, url, pad);
        let a0 = octet_at(a, 0);
        let b0 = octet_at(b, 0);
        let a1 = octet_at(a, 1);
        let b1 = octet_at(b, 1);
        let a2 = octet_at(a, 2);
        let b2 = octet_at(b, 2);
        symbols_differ(a0 / 4, b0 / 4, url);
        symbols_differ(a0 % 4 * 16 + a1 / 16, b0 % 4 * 16 + b1 / 16, url);
        // Padding, or the end, stands in the third place exactly for one
        // octet, and in the fourth exactly for two.
        symbol_is_no_padding(a1 % 16 * 4 + a2 / 64, url);
        symbol_is_no_padding(b1 % 16 * 4 + b2 / 64, url);
        symbol_is_no_padding(a2 % 64, url);
        symbol_is_no_padding(b2 % 64, url);
        assert(a.len() == 1 <==> b.len() == 1);
        if a.len() > 1 {
            symbols_differ(a1 % 16 * 4 + a2 / 64, b1 % 16 * 4 + b2 / 64, url);
            assert(a.len() == 2 <==> b.len() == 2);
            if a.len() > 2 {
                symbols_differ(a2 % 64, b2 % 64, url);
                base64_text_is_injective(a.skip(3), b.skip(3), url, pad);
                assert(a =~= seq![a[0], a[1], a[2]] + a.skip(3));
                assert(b =~= seq![b[0], b[1], b[2]] + b.skip(3));
            } else {
                assert(a =~= b);
            }
        } else {
            assert(a =~= b);
        }
    }
}

/// What the decoding of an encoding is.
pub proof fn base64_octets_of_text(b: Seq<u8>, pad: bool)
    ensures
        base64_octets(base64_text(b, false, pad), pad) == Some(b),
{
    let t = base64_text(b, false, pad);
    let c = choose|c: Seq<u8>| #[trigger] base64_text(c, false, pad) == t;
    base64_text_is_injective(c, b, false, pad);
}

/// `encode` of the engine `URL_SAFE_NO_PAD`: the base64 text in the URL
/// alphabet, without padding. The bound keeps the length of the text within
/// what one allocation can hold.
#[verifier::external_body]
pub(crate) fn encode_url(octets: &Vec<u8>) -> (text: String)
    requires
        octets@.len() <= usize::MAX / 4,
    ensures
        text@ == base64_text(octets@, true, false),
{
    base64::engine::general_purpose::URL_SAFE_NO_PAD.encode(octets)
}

/// `decode` of the engine `STANDARD`: it accepts the texts that encoding with
/// padding gives, and gives back what was encoded.
#[verifier::external_body]
fn decode_padded(text: &str) -> (octets: Option<Vec<u8>>)
    ensures
        match octets {
            Some(b) => base64_text(b@, false, true) == text@,
            None => forall|b: Seq<u8>| #[trigger] base64_text(b, false, true) != text@,
        },
{
    base64::engine::general_purpose::STANDARD.decode(text).ok()
}

/// What the engine `STANDARD_NO_PAD` says of a text that it refuses.
pub uninterp spec fn base64_failure(t: Seq<char>) -> Seq<char>;

/// `decode` of the engine `STANDARD_NO_PAD`: it accepts the texts that encoding
/// without padding gives, and gives back what was encoded. Of the error of any
/// other text nothing more is claimed than that the text determines it.
#[verifier::external_body]
fn decode_unpadded(text: &str) -> (octets: Result<Vec<u8>, String>)
    ensures
        match octets {
            Ok(b) => base64_text(b@, false, false) == text@,
            Err(error) => {
                &&& forall|b: Seq<u8>| #[trigger] base64_text(b, false, false) != text@
                &&& error@ == base64_failure(text@)
            },
        },
{
    base64::engine::general_purpose::STANDARD_NO_PAD.decode(text).map_err(|e| e.to_string())
}

/// The octets that a base64 text stands for, padded or not.
pub open spec fn base64_either(t: Seq<char>) -> Option<Seq<u8>> {
    match base64_octets(t, true) {
        Some(b) => Some(b),
        None => base64_octets(t, false),
    }
}

/// The octets that a base64 text stands for. Padding may be left out.
pub fn decode_base64(text: &str) -> (octets: Result<Vec<u8>, String>)
    ensures
        match octets {
            Ok(b) => base64_either(text@) == Some(b@),
            Err(error) => base64_either(text@) is None && error@ == base64_failure(text@),
        },
{
    match decode_padded(text) {
        Some(b) => {
            proof {
                base64_octets_of_text(b@, true);
            }
            Ok(b)
        },
        None => match decode_unpadded(text) {
            Ok(b) => {
                proof {
                    base64_octets_of_text(b@, false);
                }
                Ok(b)
            },
            Err(error) => Err(error),
        },
    }
}

// ---------------------------------------------------------------------------
// Tolerant decoding
// ---------------------------------------------------------------------------
/// The number whose symbol, in the standard alphabet, is `c`.
pub open spec fn symbol_value(c: char) -> Option<nat> {
    let v = c as u32;
    if 0x41 <= v <= 0x5a {
        Some((v - 0x41) as nat)
    } else if 0x61 <= v <= 0x7a {
        Some((v - 0x61 + 26) as nat)
    } else if 0x30 <= v <= 0x39 {
        Some((v - 0x30 + 52) as nat)
    } else if c == '+' {
        Some(62)
    } else if c == '/' {
        Some(63)
    } else {
        None
    }
}

/// What may stand anywhere between symbols: padding and ASCII white space.
pub open spec fn passed_over(c: char) -> bool {
    let v = c as u32;
    c == '=' || v == 0x20 || v == 0x9 || v == 0xa || v == 0xc || v == 0xd
}

/// The numbers of the symbols in a text, unless something else is in it.
pub open spec fn sextets(t: Seq<char>) -> Option<Seq<nat>>
    decreases t.len(),
{
    if t.len() == 0 {
        Some(Seq::empty())
    } else {
        match sextets(t.drop_last()) {
            None => None,
            Some(before) => if passed_over(t.last()) {
                Some(before)
            } else {
                match symbol_value(t.last()) {
                    Some(v) => Some(before.push(v)),
                    None => None,
                }
            },
        }
    }
}

/// The octets that six-bit numbers make: the bits that are left over at the end
/// do not count.
pub open spec fn octets_of_sextets(v: Seq<nat>) -> Seq<u8>
    decreases v.len(),
{
    if v.len() == 0 {
        Seq::empty()
    } else {
        let before = octets_of_sextets(v.drop_last());
        let last = v.last();
        let n = v.len() as int;
        if n % 4 == 1 {
            before
        } else if n % 4 == 2 {
            before.push((v[n - 2] % 64 * 4 + last / 16) as u8)
        } else if n % 4 == 3 {
            before.push((v[n - 2] % 16 * 16 + last / 4) as u8)
        } else {
            before.push((v[n - 2] % 4 * 64 + last) as u8)
        }
    }
}

/// The octets that a base64 text stands for, whatever white space and padding
/// is in it.
pub open spec fn tolerant_octets(t: Seq<char>) -> Option<Seq<u8>> {
    match sextets(t) {
        Some(v) => Some(octets_of_sextets(v)),
        None => None,
    }
}

fn value_of_symbol(c: char) -> (v: Option<u8>)
    ensures
        v is Some <==> symbol_value(c) is Some,
        v matches Some(x) ==> symbol_value(c) == Some(x as nat) && x < 64,
{
    let v: u32 = c as u32;
    if 0x41 <= v && v <= 0x5a {
        Some((v - 0x41) as u8)
    } else if 0x61 <= v && v <= 0x7a {
        Some((v - 0x61 + 26) as u8)
    } else if 0x30 <= v && v <= 0x39 {
        Some((v - 0x30 + 52) as u8)
    } else if c == '+' {
        Some(62)
    } else if c == '/' {
        Some(63)
    } else {
        None
    }
}

fn is_passed_over(c: char) -> (r: bool)
    ensures
        r == passed_over(c),
{
    let v: u32 = c as u32;
    c == '=' || v == 0x20 || v == 0x9 || v == 0xa || v == 0xc || v == 0xd
}

proof fn sextets_of_prefix(t: Seq<char>, n: int)
    requires
        0 <= n <= t.len(),
        sextets(t) is Some,
    ensures
        sextets(t.take(n)) is Some,
    decreases t.len() - n,
{
    if n < t.len() {
        sextets_of_prefix(t, n + 1);
        assert(t.take(n + 1).drop_last() =~= t.take(n));
    } else {
        assert(t.take(n) =~= t);
    }
}

proof fn next_in_group(n: int)
    ensures
        n % 4 == 0 ==> (n + 1) % 4 == 1,
        n % 4 == 1 ==> (n + 1) % 4 == 2,
        n % 4 == 2 ==> (n + 1) % 4 == 3,
        n % 4 == 3 ==> (n + 1) % 4 == 0,
{
}

/// The octets that a base64 text stands for, whatever white space and padding
/// is in it.
pub fn base64_decode(input: &str) -> (octets: Option<Vec<u8>>)
    ensures
        match octets {
            Some(b) => tolerant_octets(input@) == Some(b@),
            None => tolerant_octets(input@) is None,
        },
{
    let chars = crate::text::chars_of(input);
    let mut out: Vec<u8> = Vec::new();
    let ghost mut seen: Seq<nat> = Seq::empty();
    let mut last: u8 = 0;
    let mut count: u8 = 0;
    let mut i: usize = 0;
    while i < chars.len()
        invariant
            i <= chars@.len(),
            chars@ == input@,
            sextets(chars@.take(i as int)) == Some(seen),
            out@ == octets_of_sextets(seen),
            count < 4,
            count as int == seen.len() as int % 4,
            last < 64,
            seen.len() > 0 ==> last as nat == seen.last(),
        decreases chars@.len() - i,
    {
        let ghost upto = chars@.take(i as int + 1);
        assert(upto.drop_last() =~= chars@.take(i as int));
        let c = chars[i];
        assert(upto.last() == c);
        i = i + 1;
        if !is_passed_over(c) {
            match value_of_symbol(c) {
                None => {
                    proof {
                        assert(sextets(upto) is None);
                        if sextets(chars@) is Some {
                            sextets_of_prefix(chars@, i as int);
                        }
                    }
                    return None;
                },
                Some(v) => {
                    let ghost more = seen.push(v as nat);
                    assert(more.drop_last() =~= seen);
                    assert(more.last() == v as nat);
                    assert(more.len() as int == seen.len() as int + 1);
                    proof {
                        next_in_group(seen.len() as int);
                    }
                    if count == 0 {
                        count = 1;
                    } else if count == 1 {
                        assert(more[more.len() - 2] == last as nat);
                        out.push(last * 4 + v / 16);
                        count = 2;
                    } else if count == 2 {
                        assert(more[more.len() - 2] == last as nat);
                        out.push(last % 16 * 16 + v / 4);
                        count = 3;
                    } else {
                        assert(more[more.len() - 2] == last as nat);
                        out.push(last % 4 * 64 + v);
                        count = 0;
                    }
                    last = v;
                    proof {
                        seen = more;
                    }
                },
            }
        }
    }
    assert(chars@.take(i as int) =~= chars@);
    Some(out)
}

proof fn symbol_has_its_value(d: nat)
    requires
        d < 64,
    ensures
        symbol_value(symbol(d, false)) == Some(d),
        !passed_over(symbol(d, false)),
{
}

/// The characters of which base64 texts in the standard alphabet are made.
pub open spec fn base64_char(c: char) -> bool {
    symbol_value(c) is Some || c == '='
}

/// A base64 text is made of symbols and padding alone.
pub proof fn base64_text_is_plain(b: Seq<u8>, pad: bool)
    ensures
        forall|i: int|
            0 <= i < base64_text(b, false, pad).len() ==> base64_char(
                #[trigger] base64_text(b, false, pad)[i],
            ),
    decreases b.len(),
{
    let t = base64_text(b, false, pad);
    if b.len() > 0 {
        base64_text_symbols(b, false, pad);
        let b0 = octet_at(b, 0);
        let b1 = octet_at(b, 1);
        let b2 = octet_at(b, 2);
        symbol_has_its_value(b0 / 4);
        symbol_has_its_value(b0 % 4 * 16 + b1 / 16);
        symbol_has_its_value(b1 % 16 * 4 + b2 / 64);
        symbol_has_its_value(b2 % 64);
        if b.len() > 2 {
            let rest = base64_text(b.skip(3), false, pad);
            base64_text_is_plain(b.skip(3), pad);
            assert forall|i: int| 0 <= i < t.len() implies base64_char(#[trigger] t[i]) by {
                if i >= 4 {
                    assert(t.skip(4)[i - 4] == t[i]);
                    assert(base64_char(rest[i - 4]));
                }
            }
        }
    }
}

proof fn sextets_of_both(a: Seq<char>, b: Seq<char>)
    requires
        sextets(a) is Some,
        sextets(b) is Some,
    ensures
        sextets(a + b) == Some(sextets(a)->0 + sextets(b)->0),
    decreases b.len(),
{
    if b.len() == 0 {
        assert(a + b =~= a);
        assert(sextets(a)->0 + sextets(b)->0 =~= sextets(a)->0);
    } else {
        assert((a + b).drop_last() =~= a + b.drop_last());
        assert((a + b).last() == b.last());
        sextets_of_both(a, b.drop_last());
        assert(sextets(a)->0 + sextets(b)->0 =~= if passed_over(b.last()) {
            sextets(a)->0 + sextets(b.drop_last())->0
        } else {
            (sextets(a)->0 + sextets(b.drop_last())->0).push(symbol_value(b.last())->0)
        });
    }
}

proof fn octets_of_both(a: Seq<nat>, b: Seq<nat>)
    requires
        a.len() == 4,
    ensures
        octets_of_sextets(a + b) == octets_of_sextets(a) + octets_of_sextets(b),
    decreases b.len(),
{
    if b.len() == 0 {
        assert(a + b =~= a);
        assert(octets_of_sextets(a) + octets_of_sextets(b) =~= octets_of_sextets(a));
    } else {
        let ab = a + b;
        assert(ab.drop_last() =~= a + b.drop_last());
        assert(ab.last() == b.last());
        octets_of_both(a, b.drop_last());
        let n = b.len() as int;
        assert(ab.len() == n + 4);
        assert((n + 4) % 4 == n % 4);
        let first = octets_of_sextets(a);
        let before = octets_of_sextets(b.drop_last());
        if n % 4 == 1 {
            assert(octets_of_sextets(b) == before);
            assert(octets_of_sextets(ab) == octets_of_sextets(ab.drop_last()));
        } else {
            assert(ab[n + 2] == b[n - 2]);
            let octet = octets_of_sextets(b).last();
            assert(octets_of_sextets(b) == before.push(octet));
            assert(octets_of_sextets(ab) == octets_of_sextets(ab.drop_last()).push(octet));
            assert((first + before).push(octet) =~= first + before.push(octet));
        }
    }
}

proof fn sextets_of_symbols(v: Seq<nat>)
    requires
        forall|i: int| 0 <= i < v.len() ==> #[trigger] v[i] < 64,
    ensures
        sextets(v.map_values(|d: nat| symbol(d, false))) == Some(v),
    decreases v.len(),
{
    let t = v.map_values(|d: nat| symbol(d, false));
    if v.len() > 0 {
        let fewer = v.drop_last();
        assert(t.drop_last() =~= fewer.map_values(|d: nat| symbol(d, false)));
        assert forall|i: int| 0 <= i < fewer.len() implies #[trigger] fewer[i] < 64 by {
            assert(fewer[i] == v[i]);
        }
        sextets_of_symbols(fewer);
        assert(v.last() == v[v.len() - 1]);
        symbol_has_its_value(v.last());
        assert(t.last() == symbol(v.last(), false));
        assert(fewer.push(v.last()) =~= v);
    } else {
        assert(t =~= Seq::empty());
        assert(v =~= Seq::empty());
    }
}

proof fn sextets_of_padding(t: Seq<char>)
    requires
        forall|i: int| 0 <= i < t.len() ==> #[trigger] t[i] == '=',
    ensures
        sextets(t) == Some(Seq::<nat>::empty()),
    decreases t.len(),
{
    if t.len() > 0 {
        assert(t.last() == t[t.len() - 1]);
        assert forall|i: int| 0 <= i < t.drop_last().len() implies #[trigger] t.drop_last()[i]
            == '=' by {
            assert(t.drop_last()[i] == t[i]);
        }
        sextets_of_padding(t.drop_last());
    }
}

/// The six-bit numbers of at most three octets.
spec fn group(b: Seq<u8>) -> Seq<nat> {
    if b.len() == 1 {
        seq![b[0] as nat / 4, b[0] as nat % 4 * 16]
    } else if b.len() == 2 {
        seq![b[0] as nat / 4, b[0] as nat % 4 * 16 + b[1] as nat / 16, b[1] as nat % 16 * 4]
    } else {
        seq![
            b[0] as nat / 4,
            b[0] as nat % 4 * 16 + b[1] as nat / 16,
            b[1] as nat % 16 * 4 + b[2] as nat / 64,
            b[2] as nat % 64,
        ]
    }
}

proof fn group_is_read_back(b: Seq<u8>)
    requires
        1 <= b.len() <= 3,
    ensures
        octets_of_sextets(group(b)) == b,
        forall|i: int| 0 <= i < group(b).len() ==> #[trigger] group(b)[i] < 64,
{
    reveal_with_fuel(octets_of_sextets, 6);
    let g = group(b);
    let one = seq![g[0]];
    let two = seq![g[0], g[1]];
    assert(two.drop_last() =~= one);
    assert(one.drop_last() =~= Seq::empty());
    assert(octets_of_sextets(one) =~= Seq::empty());
    let b0 = b[0] as nat;
    assert(b0 / 4 % 64 * 4 + b0 % 4 * 16 / 16 == b0);
    if b.len() == 1 {
        assert(g =~= two);
        assert(octets_of_sextets(g) =~= b);
    } else {
        let b1 = b[1] as nat;
        let three = seq![g[0], g[1], g[2]];
        assert(three.drop_last() =~= two);
        assert(octets_of_sextets(two) =~= seq![b[0]]) by {
            assert((b0 % 4 * 16 + b1 / 16) / 16 == b0 % 4);
        }
        if b.len() == 2 {
            assert(g =~= three);
            assert((b0 % 4 * 16 + b1 / 16) % 16 * 16 + b1 % 16 * 4 / 4 == b1);
            assert(octets_of_sextets(g) =~= b);
        } else {
            let b2 = b[2] as nat;
            assert(g.drop_last() =~= three);
            assert((b0 % 4 * 16 + b1 / 16) % 16 * 16 + (b1 % 16 * 4 + b2 / 64) / 4 == b1);
            assert(octets_of_sextets(three) =~= seq![b[0], b[1]]);
            assert((b1 % 16 * 4 + b2 / 64) % 4 * 64 + b2 % 64 == b2);
            assert(octets_of_sextets(g) =~= b);
        }
    }
}

proof fn short_octets_are_decoded(b: Seq<u8>, pad: bool)
    requires
        1 <= b.len() <= 2,
    ensures
        tolerant_octets(base64_text(b, false, pad)) == Some(b),
{
    let t = base64_text(b, false, pad);
    group_is_read_back(b);
    let g = group(b);
    sextets_of_symbols(g);
    let body = g.map_values(|d: nat| symbol(d, false));
    let end: Seq<char> = if !pad {
        Seq::empty()
    } else if b.len() == 1 {
        seq!['=', '=']
    } else {
        seq!['=']
    };
    sextets_of_padding(end);
    sextets_of_both(body, end);
    assert(t =~= body + end);
    assert(g + Seq::<nat>::empty() =~= g);
}

proof fn text_of_group(b: Seq<u8>, pad: bool)
    requires
        b.len() > 2,
    ensures
        base64_text(b, false, pad) == group(b.take(3)).map_values(|d: nat| symbol(d, false))
            + base64_text(b.skip(3), false, pad),
        group(b.take(3)).len() == 4,
{
    assert(base64_text(b, false, pad) =~= group(b.take(3)).map_values(|d: nat| symbol(d, false))
        + base64_text(b.skip(3), false, pad));
}

/// Tolerant decoding gives back what was encoded, padded or not.
pub proof fn encoded_octets_are_decoded(b: Seq<u8>, pad: bool)
    ensures
        tolerant_octets(base64_text(b, false, pad)) == Some(b),
    decreases b.len(),
{
    if b.len() == 0 {
        assert(b =~= Seq::empty());
    } else if b.len() <= 2 {
        short_octets_are_decoded(b, pad);
    } else {
        let first = b.take(3);
        let g = group(first);
        let body = g.map_values(|d: nat| symbol(d, false));
        let rest = base64_text(b.skip(3), false, pad);
        text_of_group(b, pad);
        group_is_read_back(first);
        sextets_of_symbols(g);
        encoded_octets_are_decoded(b.skip(3), pad);
        sextets_of_both(body, rest);
        octets_of_both(g, sextets(rest)->0);
        assert(first + b.skip(3) =~= b);
    }
}

/// White space between the lines of a base64 text does not matter.
pub proof fn white_space_is_passed_over(a: Seq<char>, gap: Seq<char>, b: Seq<char>)
    requires
        forall|i: int| 0 <= i < gap.len() ==> passed_over(#[trigger] gap[i]),
    ensures
        tolerant_octets(a + gap + b) == tolerant_octets(a + b),
{
    same_sextets(a, gap, b);
}

proof fn same_sextets(a: Seq<char>, gap: Seq<char>, b: Seq<char>)
    requires
        forall|i: int| 0 <= i < gap.len() ==> passed_over(#[trigger] gap[i]),
    ensures
        sextets(a + gap + b) == sextets(a + b),
    decreases gap.len() + b.len(),
{
    if b.len() > 0 {
        assert((a + gap + b).drop_last() =~= a + gap + b.drop_last());
        assert((a + b).drop_last() =~= a + b.drop_last());
        same_sextets(a, gap, b.drop_last());
    } else {
        assert(a + gap + b =~= a + gap);
        assert(a + b =~= a);
        if gap.len() > 0 {
            let fewer = gap.drop_last();
            assert((a + gap).drop_last() =~= a + fewer);
            assert((a + gap).last() == gap[gap.len() - 1]);
            assert forall|i: int| 0 <= i < fewer.len() implies passed_over(#[trigger] fewer[i]) by {
                assert(fewer[i] == gap[i]);
            }
            same_sextets(a, fewer, b);
            assert(a + fewer + b =~= a + fewer);
        } else {
            assert(a + gap =~= a);
        }
    }
}

} // verus!
