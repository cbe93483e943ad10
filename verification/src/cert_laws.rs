//! When certificates are made anew, what they say, and how their forms are read, for
//! every configuration and every text.
use vstd::arithmetic::power::pow;
use vstd::arithmetic::div_mod::lemma_fundamental_div_mod_converse;
use vstd::prelude::*;
use crate::certs::{
    bundle_below, bundle_steps, bundle_text, der_of_pem, encodable, hex_digits, key_outcome,
    pem_body, pem_error_text, root_profile, server_profile, window, BundlePresence, BundleStep,
    PemError, PrivateKey, ProfileView,
};
use crate::paths::path_join;
use crate::radix64::{
    base64_either, base64_octets_of_text, base64_text, passed_over, symbol, symbol_value,
    tolerant_octets,
};
use crate::text::{digit_char, lines, starts_with, trim};

verus! {

// ---------------------------------------------------------------------------
// When new certificates are due
// ---------------------------------------------------------------------------
/// Nothing is done for the certificates if and only if all three files are there, a
/// fingerprint was noted, and it is that of the hosts.
pub proof fn only_good_certificates_are_kept(
    root: Seq<char>,
    presence: BundlePresence,
    saved_hash: Option<Seq<char>>,
    current_hash: Seq<char>,
)
    ensures
        bundle_steps(root, presence, saved_hash, current_hash).len() == 0 <==> presence.ca_cert
            && presence.server_cert && presence.server_key && saved_hash is Some && trim(
            saved_hash->0,
        ) == current_hash,
{
}

/// If the hosts are others than those that the fingerprint was noted for, whatever it
/// is, or a file is missing, the old files are removed, both certificates are issued
/// anew, their files are given to the user, and the new fingerprint is noted, in this
/// order.
pub proof fn other_hosts_need_other_certificates(
    root: Seq<char>,
    presence: BundlePresence,
    saved_hash: Option<Seq<char>>,
    current_hash: Seq<char>,
)
    requires
        !presence.ca_cert || !presence.server_cert || !presence.server_key || saved_hash is None
            || trim(saved_hash->0) != current_hash,
    ensures
        ({
            let ca = path_join(root, "linuxdo-accelerator-root-ca.crt"@);
            let cert = path_join(root, "linuxdo-accelerator-server.crt"@);
            let key = path_join(root, "linuxdo-accelerator-server.key"@);
            let steps = bundle_steps(root, presence, saved_hash, current_hash);
            &&& steps.len() == 9
            &&& steps[0] == BundleStep::Remove(ca)
            &&& steps[1] == BundleStep::Remove(cert)
            &&& steps[2] == BundleStep::Remove(key)
            &&& steps[3] == BundleStep::IssueRoot(ca)
            &&& steps[4] == BundleStep::GiveToUser(ca)
            &&& steps[5] == (BundleStep::IssueServer { cert_path: cert, key_path: key })
            &&& steps[6] == BundleStep::GiveToUser(cert)
            &&& steps[7] == BundleStep::GiveToUser(key)
            &&& steps[8] == (BundleStep::NoteHash {
                path: path_join(root, "linuxdo-accelerator-domains.sha256"@),
                hash: current_hash,
            })
        }),
{
}

/// The files of a bundle have these names.
pub proof fn the_files_of_a_bundle(root: Seq<char>)
    ensures
        bundle_below(root).ca_cert_path == path_join(root, "linuxdo-accelerator-root-ca.crt"@),
        bundle_below(root).server_cert_path == path_join(root, "linuxdo-accelerator-server.crt"@),
        bundle_below(root).server_key_path == path_join(root, "linuxdo-accelerator-server.key"@),
{
}

proof fn digits_differ(a: nat, b: nat)
    requires
        a < 16,
        b < 16,
        digit_char(a) == digit_char(b),
    ensures
        a == b,
{
}

proof fn hex_digits_differ(a: nat, b: nat, n: nat)
    requires
        a < pow(16, n),
        b < pow(16, n),
        hex_digits(a, n) == hex_digits(b, n),
    ensures
        a == b,
    decreases n,
{
    reveal(pow);
    if n > 0 {
        let x = hex_digits(a, n);
        let y = hex_digits(b, n);
        let m = (n - 1) as nat;
        assert(x.drop_last() =~= hex_digits(a / 16, m));
        assert(y.drop_last() =~= hex_digits(b / 16, m));
        assert(x.last() == digit_char(a % 16));
        assert(y.last() == digit_char(b % 16));
        digits_differ(a % 16, b % 16);
        assert(pow(16, n) == 16 * pow(16, m));
        assert(a / 16 < pow(16, m));
        assert(b / 16 < pow(16, m));
        hex_digits_differ(a / 16, b / 16, m);
    }
}

/// A fingerprint tells hashes apart: no two have the same sixteen digits.
pub proof fn a_fingerprint_tells_hashes_apart(a: u64, b: u64)
    ensures
        hex_digits(a as nat, 16) == hex_digits(b as nat, 16) <==> a == b,
{
    assert(pow(16, 16) == 0x1_0000_0000_0000_0000) by {
        reveal_with_fuel(pow, 17);
    }
    if hex_digits(a as nat, 16) == hex_digits(b as nat, 16) {
        hex_digits_differ(a as nat, b as nat, 16);
    }
}

/// A fingerprint has sixteen hexadecimal digits, in lower case, the last of them for the
/// lowest four bits.
pub proof fn a_fingerprint_has_hexadecimal_digits(value: nat, n: nat)
    ensures
        hex_digits(value, n).len() == n,
        n > 0 ==> hex_digits(value, n) == hex_digits(value / 16, (n - 1) as nat).push(
            if value % 16 < 10 {
                ((0x30 + value % 16) as u32) as char
            } else {
                ((0x61 + value % 16 - 10) as u32) as char
            },
        ),
    decreases n,
{
    if n > 0 {
        a_fingerprint_has_hexadecimal_digits(value / 16, (n - 1) as nat);
    }
}

// ---------------------------------------------------------------------------
// What certificates say
// ---------------------------------------------------------------------------
/// A certificate is valid from the day before it is made, for as many days as wanted; it
/// is not made only if one of these days is beyond the years from -9999 to 9999.
pub proof fn a_certificate_is_valid_from_yesterday(now: int, days: int)
    ensures
        window(now, days) is Ok <==> -377_705_116_800 <= now - 86_400 <= 253_402_300_799
            && -377_705_116_800 <= now + days * 86_400 <= 253_402_300_799,
        window(now, days) matches Ok(valid) ==> valid.0 == now - 86_400 && valid.1 == now + days
            * 86_400,
        !(-377_705_116_800 <= now - 86_400 <= 253_402_300_799) ==> window(now, days) == Err::<
            (int, int),
            Seq<char>,
        >("failed to compute certificate not_before"@),
        -377_705_116_800 <= now - 86_400 <= 253_402_300_799 && window(now, days) is Err ==> window(
            now,
            days,
        ) == Err::<(int, int), Seq<char>>("failed to compute certificate not_after"@),
{
}

/// The root certificate is for signing others and lists of revoked ones; it is for no
/// host.
pub proof fn the_root_certificate_signs(name: Seq<char>, valid: (int, int))
    ensures
        ({
            let root = root_profile(name, valid);
            &&& root.common_name == name
            &&& root.domains.len() == 0
            &&& root.not_before == valid.0
            &&& root.not_after == valid.1
            &&& root.role is Authority
            &&& root.key_usages.len() == 3
            &&& root.key_usages[0] is DigitalSignature
            &&& root.key_usages[1] is KeyCertSign
            &&& root.key_usages[2] is CrlSign
            &&& root.extended_key_usages.len() == 0
            &&& !root.names_issuer_key
        }),
{
}

/// The server certificate is for the hosts that it is given, all of them and no others,
/// for servers alone, and may sign no other.
pub proof fn the_server_certificate_serves(
    name: Seq<char>,
    domains: Seq<Seq<char>>,
    valid: (int, int),
)
    ensures
        ({
            let server = server_profile(name, domains, valid);
            &&& server.common_name == name
            &&& server.domains == domains
            &&& server.not_before == valid.0
            &&& server.not_after == valid.1
            &&& server.role is Server
            &&& server.key_usages.len() == 1
            &&& server.key_usages[0] is DigitalSignature
            &&& server.extended_key_usages.len() == 1
            &&& server.extended_key_usages[0] is ServerAuth
            &&& server.names_issuer_key
        }),
{
}

// ---------------------------------------------------------------------------
// Reading PEM
// ---------------------------------------------------------------------------
/// What stands before the first block does not count.
pub proof fn what_stands_before_a_block_does_not_count(line: Seq<char>, ls: Seq<Seq<char>>)
    requires
        !starts_with(trim(line), "-----BEGIN"@),
        !starts_with(trim(line), "-----END"@),
    ensures
        pem_body(seq![line] + ls, false) == pem_body(ls, false),
{
    let all = seq![line] + ls;
    assert(all[0] == line);
    assert(all.drop_first() =~= ls);
}

/// What stands behind the end of a block does not count, and neither does a block that
/// ends before one begins.
pub proof fn what_stands_behind_a_block_does_not_count(
    line: Seq<char>,
    ls: Seq<Seq<char>>,
    inside: bool,
)
    requires
        starts_with(trim(line), "-----END"@),
        !starts_with(trim(line), "-----BEGIN"@),
    ensures
        pem_body(seq![line] + ls, inside).len() == 0,
{
    let all = seq![line] + ls;
    assert(all[0] == line);
    assert(all.drop_first() =~= ls);
}

/// A line that begins a block opens it; each line inside counts, without the white space
/// around it.
pub proof fn the_lines_of_a_block_count(line: Seq<char>, ls: Seq<Seq<char>>, inside: bool)
    ensures
        starts_with(trim(line), "-----BEGIN"@) ==> pem_body(seq![line] + ls, inside) == pem_body(
            ls,
            true,
        ),
        !starts_with(trim(line), "-----BEGIN"@) && !starts_with(trim(line), "-----END"@)
            ==> pem_body(seq![line] + ls, true) == trim(line) + pem_body(ls, true),
        pem_body(Seq::empty(), inside).len() == 0,
{
    let all = seq![line] + ls;
    assert(all[0] == line);
    assert(all.drop_first() =~= ls);
}

/// A PEM text without a body is refused, and so is one whose body holds anything but
/// base64 symbols, padding and white space; any other is read.
pub proof fn a_pem_text_is_read_or_refused(pem: Seq<char>)
    ensures
        ({
            let body = pem_body(lines(pem), false);
            &&& body.len() == 0 ==> der_of_pem(pem) == Err::<Seq<u8>, PemError>(PemError::NoBody)
            &&& body.len() > 0 && tolerant_octets(body) is None ==> der_of_pem(pem) == Err::<
                Seq<u8>,
                PemError,
            >(PemError::InvalidCharacter)
            &&& body.len() > 0 && tolerant_octets(body) is Some ==> der_of_pem(pem) == Ok::<
                Seq<u8>,
                PemError,
            >(tolerant_octets(body)->0)
        }),
{
}

/// A base64 text is read if and only if it holds nothing but letters, digits, `+`, `/`,
/// `=` and ASCII white space.
pub proof fn only_base64_is_read(t: Seq<char>)
    ensures
        tolerant_octets(t) is Some <==> forall|i: int|
            0 <= i < t.len() ==> {
                let v = (#[trigger] t[i]) as u32;
                (0x41 <= v <= 0x5a) || (0x61 <= v <= 0x7a) || (0x30 <= v <= 0x39) || t[i] == '+'
                    || t[i] == '/' || t[i] == '=' || v == 0x20 || v == 0x9 || v == 0xa || v == 0xc
                    || v == 0xd
            },
    decreases t.len(),
{
    if t.len() > 0 {
        let fewer = t.drop_last();
        only_base64_is_read(fewer);
        assert(forall|i: int| 0 <= i < fewer.len() ==> #[trigger] fewer[i] == t[i]);
        let v = t.last() as u32;
        let good = (0x41 <= v <= 0x5a) || (0x61 <= v <= 0x7a) || (0x30 <= v <= 0x39) || t.last()
            == '+' || t.last() == '/' || t.last() == '=' || v == 0x20 || v == 0x9 || v == 0xa || v
            == 0xc || v == 0xd;
        assert(good <==> passed_over(t.last()) || symbol_value(t.last()) is Some);
        assert(t.last() == t[t.len() - 1]);
        if tolerant_octets(t) is Some {
            assert(tolerant_octets(fewer) is Some);
            assert forall|i: int| 0 <= i < t.len() implies {
                let v = (#[trigger] t[i]) as u32;
                (0x41 <= v <= 0x5a) || (0x61 <= v <= 0x7a) || (0x30 <= v <= 0x39) || t[i] == '+'
                    || t[i] == '/' || t[i] == '=' || v == 0x20 || v == 0x9 || v == 0xa || v == 0xc
                    || v == 0xd
            } by {
                if i < fewer.len() {
                    assert(fewer[i] == t[i]);
                }
            }
        }
    }
}

/// The symbols of base64: the large letters, the small ones, the digits, and two more.
pub proof fn the_symbols_of_base64(d: nat)
    requires
        d < 64,
    ensures
        d < 26 ==> symbol(d, false) as u32 == 0x41 + d,
        26 <= d < 52 ==> symbol(d, false) as u32 == 0x61 + d - 26,
        52 <= d < 62 ==> symbol(d, false) as u32 == 0x30 + d - 52,
        d == 62 ==> symbol(d, false) == '+' && symbol(d, true) == '-',
        d == 63 ==> symbol(d, false) == '/' && symbol(d, true) == '_',
        d < 62 ==> symbol(d, true) == symbol(d, false),
{
}

proof fn first_six_bits(a: nat, b: nat, c: nat)
    requires
        a < 256,
        b < 256,
        c < 256,
    ensures
        (a * 0x1_0000 + b * 0x100 + c) / 0x4_0000 == a / 4,
{
    lemma_fundamental_div_mod_converse(
        (a * 0x1_0000 + b * 0x100 + c) as int,
        0x4_0000,
        a as int / 4,
        (a % 4 * 0x1_0000 + b * 0x100 + c) as int,
    );
}

proof fn second_six_bits(a: nat, b: nat, c: nat)
    requires
        a < 256,
        b < 256,
        c < 256,
    ensures
        (a * 0x1_0000 + b * 0x100 + c) / 0x1000 % 64 == a % 4 * 16 + b / 16,
{
    lemma_fundamental_div_mod_converse(
        (a * 0x1_0000 + b * 0x100 + c) as int,
        0x1000,
        a * 16 + b as int / 16,
        (b % 16 * 0x100 + c) as int,
    );
    lemma_fundamental_div_mod_converse(
        a * 16 + b as int / 16,
        64,
        a as int / 4,
        a % 4 * 16 + b as int / 16,
    );
}

proof fn third_six_bits(a: nat, b: nat, c: nat)
    requires
        a < 256,
        b < 256,
        c < 256,
    ensures
        (a * 0x1_0000 + b * 0x100 + c) / 64 % 64 == b % 16 * 4 + c / 64,
{
    lemma_fundamental_div_mod_converse(
        (a * 0x1_0000 + b * 0x100 + c) as int,
        64,
        a * 1024 + b * 4 + c as int / 64,
        c as int % 64,
    );
    lemma_fundamental_div_mod_converse(
        a * 1024 + b * 4 + c as int / 64,
        64,
        a * 16 + b as int / 16,
        b % 16 * 4 + c as int / 64,
    );
}

proof fn fourth_six_bits(a: nat, b: nat, c: nat)
    ensures
        (a * 0x1_0000 + b * 0x100 + c) % 64 == c % 64,
{
    lemma_fundamental_div_mod_converse(
        (a * 0x1_0000 + b * 0x100 + c) as int,
        64,
        a * 1024 + b * 4 + c as int / 64,
        c as int % 64,
    );
}

/// Four symbols stand for three octets, the bits in their order; groups follow one
/// another.
pub proof fn four_symbols_stand_for_three_octets(
    a: u8,
    b: u8,
    c: u8,
    rest: Seq<u8>,
    url: bool,
    pad: bool,
)
    ensures
        ({
            let bits = a as nat * 0x1_0000 + b as nat * 0x100 + c as nat;
            base64_text(seq![a, b, c] + rest, url, pad) == seq![
                symbol(bits / 0x4_0000, url),
                symbol(bits / 0x1000 % 64, url),
                symbol(bits / 64 % 64, url),
                symbol(bits % 64, url),
            ] + base64_text(rest, url, pad)
        }),
{
    let all = seq![a, b, c] + rest;
    assert(all.skip(3) =~= rest);
    first_six_bits(a as nat, b as nat, c as nat);
    second_six_bits(a as nat, b as nat, c as nat);
    third_six_bits(a as nat, b as nat, c as nat);
    fourth_six_bits(a as nat, b as nat, c as nat);
}

/// One octet that is left takes two symbols, and two take three; padding fills up to
/// four.
pub proof fn what_is_left_takes_fewer_symbols(a: u8, b: u8, url: bool, pad: bool)
    ensures
        base64_text(seq![a], url, pad) == seq![
            symbol(a as nat / 4, url),
            symbol(a as nat * 16 % 64, url),
        ] + (if pad {
            seq!['=', '=']
        } else {
            Seq::empty()
        }),
        base64_text(seq![a, b], url, pad) == seq![
            symbol(a as nat / 4, url),
            symbol((a as nat * 16 + b as nat / 16) % 64, url),
            symbol(b as nat * 4 % 64, url),
        ] + (if pad {
            seq!['=']
        } else {
            Seq::empty()
        }),
        base64_text(Seq::empty(), url, pad).len() == 0,
{
    assert(a as nat * 16 % 64 == a as nat % 4 * 16);
    assert((a as nat * 16 + b as nat / 16) % 64 == a as nat % 4 * 16 + b as nat / 16);
    assert(b as nat * 4 % 64 == b as nat % 16 * 4);
}

proof fn padded_text_len(b: Seq<u8>)
    ensures
        base64_text(b, false, true).len() % 4 == 0,
        b.len() % 3 != 0 ==> base64_text(b, false, false).len() % 4 != 0,
        b.len() % 3 == 0 ==> base64_text(b, false, false) == base64_text(b, false, true),
    decreases b.len(),
{
    if b.len() > 2 {
        padded_text_len(b.skip(3));
    }
}

/// Octets are read back from base64, and padding may be left out.
pub proof fn padding_may_be_left_out(b: Seq<u8>, pad: bool)
    ensures
        base64_either(base64_text(b, false, pad)) == Some(b),
{
    base64_octets_of_text(b, pad);
    padded_text_len(b);
    if !pad {
        let t = base64_text(b, false, false);
        if b.len() % 3 == 0 {
            base64_octets_of_text(b, true);
        } else {
            assert forall|c: Seq<u8>| #[trigger] base64_text(c, false, true) != t by {
                padded_text_len(c);
            }
        }
    }
}

// ---------------------------------------------------------------------------
// Keys and bundles
// ---------------------------------------------------------------------------
/// A key that is found is given as it is; that there is none, or that it could not be
/// read, is told.
pub proof fn a_key_is_given_as_it_is(
    key: PrivateKey<Seq<u8>>,
    error: Seq<char>,
    path: Seq<char>,
)
    ensures
        key_outcome(Ok(Some(key)), path) == Ok::<PrivateKey<Seq<u8>>, Seq<char>>(key),
        key_outcome(Ok(None), path) == Err::<PrivateKey<Seq<u8>>, Seq<char>>(
            "private key not found in "@ + path,
        ),
        key_outcome(Err(error), path) == Err::<PrivateKey<Seq<u8>>, Seq<char>>(
            "failed to parse private key: "@ + error,
        ),
{
}

/// A bundle is handed over as its three texts, each behind its mark and without the white
/// space around it.
pub proof fn a_bundle_is_handed_over_whole(
    ca: Seq<char>,
    cert: Seq<char>,
    key: Seq<char>,
)
    ensures
        bundle_text(ca, cert, key) == "-----LDA-CA-----\n"@ + trim(ca) + "\n-----LDA-CERT-----\n"@
            + trim(cert) + "\n-----LDA-KEY-----\n"@ + trim(key),
{
}

/// A profile can be written if and only if each host is in ASCII and the years are those
/// from 0 to 9999.
pub proof fn which_profiles_can_be_written(profile: ProfileView)
    ensures
        encodable(profile) <==> (forall|i: int, j: int|
            0 <= i < profile.domains.len() && 0 <= j < profile.domains[i].len() ==> (
            #[trigger] profile.domains[i][j]) as u32 <= 0x7f) && -62_167_219_200
            <= profile.not_before <= 253_402_300_799 && -62_167_219_200 <= profile.not_after
            <= 253_402_300_799,
        pem_error_text(PemError::NoBody) == "no PEM body found"@,
        pem_error_text(PemError::InvalidCharacter) == "invalid base64 character"@,
{
}

} // verus!
