//! The certificates of the proxy: a root certificate, a server certificate
//! that it signs, and the files that they are kept in.
use core::hash::BuildHasher;
use core::hash::BuildHasherDefault;
use rcgen::BasicConstraints::Unconstrained;
use rcgen::DnType::CommonName;
use rcgen::ExtendedKeyUsagePurpose::ServerAuth;
use rcgen::IsCa::{Ca, ExplicitNoCa};
use rcgen::KeyUsagePurpose::{CrlSign, DigitalSignature, KeyCertSign};
use rcgen::{Certificate, CertificateParams, DistinguishedName, PKCS_ECDSA_P256_SHA256};
use rustls::pki_types::PrivateKeyDer;
use std::collections::hash_map::DefaultHasher;
use time::{Duration, OffsetDateTime};
use vstd::prelude::*;
use crate::certs::Role::{Authority, Server};
use crate::config::AppConfig;
use crate::paths::{join_path, path_join};
use crate::radix64::{
    base64_char, base64_decode, base64_text, base64_text_is_plain, encoded_octets_are_decoded,
    tolerant_octets,
};
use crate::text::{
    char_of_digit, chars_of, digit_char, has_prefix, joined, joined3, joined4, lines, option_str,
    same_text, split, split_is_never_empty, split_lines, starts_with, strip_return, texts, trim,
    trim_end, trim_start, trimmed_text, white_space,
};

verus! {

// ---------------------------------------------------------------------------
// Files
// ---------------------------------------------------------------------------
/// Where the certificates and the key of the server are kept.
#[derive(Debug, Clone)]
pub struct CertificateBundle {
    pub ca_cert_path: String,
    pub server_cert_path: String,
    pub server_key_path: String,
}

/// What a [`CertificateBundle`] holds.
#[verifier::ext_equal]
pub struct BundleView {
    pub ca_cert_path: Seq<char>,
    pub server_cert_path: Seq<char>,
    pub server_key_path: Seq<char>,
}

impl View for CertificateBundle {
    type V = BundleView;

    open spec fn view(&self) -> BundleView {
        BundleView {
            ca_cert_path: self.ca_cert_path@,
            server_cert_path: self.server_cert_path@,
            server_key_path: self.server_key_path@,
        }
    }
}

/// The files below a directory.
pub open spec fn bundle_below(root: Seq<char>) -> BundleView {
    BundleView {
        ca_cert_path: path_join(root, "linuxdo-accelerator-root-ca.crt"@),
        server_cert_path: path_join(root, "linuxdo-accelerator-server.crt"@),
        server_key_path: path_join(root, "linuxdo-accelerator-server.key"@),
    }
}

/// The files below a directory.
pub fn bundle_paths(root: &str) -> (bundle: CertificateBundle)
    ensures
        bundle@ == bundle_below(root@),
{
    CertificateBundle {
        ca_cert_path: join_path(root, "linuxdo-accelerator-root-ca.crt"),
        server_cert_path: join_path(root, "linuxdo-accelerator-server.crt"),
        server_key_path: join_path(root, "linuxdo-accelerator-server.key"),
    }
}

/// Which of the files of a bundle are there.
#[derive(Clone, Copy, Debug, PartialEq, Eq, Structural)]
pub struct BundlePresence {
    pub ca_cert: bool,
    pub server_cert: bool,
    pub server_key: bool,
}

/// All of them are there.
pub open spec fn complete(presence: BundlePresence) -> bool {
    presence.ca_cert && presence.server_cert && presence.server_key
}

/// Whether all of the files are there.
pub fn bundle_all_exist(presence: BundlePresence) -> (all: bool)
    ensures
        all == complete(presence),
{
    presence.ca_cert && presence.server_cert && presence.server_key
}

/// The bundle below a directory, if all of its files are there.
pub fn load_bundle(root: &str, presence: BundlePresence) -> (r: Result<CertificateBundle, String>)
    ensures
        r is Ok <==> complete(presence),
        match r {
            Ok(bundle) => bundle@ == bundle_below(root@),
            Err(error) => error@ == "certificate files not found in "@ + root@
                + "; run setup first"@,
        },
{
    if !bundle_all_exist(presence) {
        return Err(joined3("certificate files not found in ", root, "; run setup first"));
    }
    Ok(bundle_paths(root))
}

// ---------------------------------------------------------------------------
// When new certificates are due
// ---------------------------------------------------------------------------
/// The hash of some texts that a `DefaultHasher` gives that was made by its
/// `default`, with the standard library and for the kind of processor that the
/// crate is built with.
pub uninterp spec fn default_hash(parts: Seq<Seq<char>>) -> u64;

/// `BuildHasher::hash_one` of `BuildHasherDefault<DefaultHasher>`, whose
/// hashers are all alike. Nothing more is claimed of the hash than that the
/// texts determine it.
#[verifier::external_body]
fn hash_texts(parts: &Vec<String>) -> (hash: u64)
    ensures
        hash == default_hash(texts(parts@)),
{
    BuildHasherDefault::<DefaultHasher>::default().hash_one(parts)
}

/// The last `n` hexadecimal digits of a number.
pub open spec fn hex_digits(value: nat, n: nat) -> Seq<char>
    decreases n,
{
    if n == 0 {
        Seq::empty()
    } else {
        hex_digits(value / 16, (n - 1) as nat).push(digit_char(value % 16))
    }
}

fn push_hex_digits(value: u64, n: u8, text: &mut String)
    ensures
        final(text)@ == old(text)@ + hex_digits(value as nat, n as nat),
    decreases n,
{
    if n > 0 {
        push_hex_digits(value / 16, n - 1, text);
        text.push(char_of_digit((value % 16) as u8));
    }
    assert(text@ =~= old(text)@ + hex_digits(value as nat, n as nat));
}

/// A fingerprint of the hosts that a certificate is for: sixteen hexadecimal
/// digits.
pub fn domains_hash(domains: &Vec<String>) -> (text: String)
    ensures
        text@ == hex_digits(default_hash(texts(domains@)) as nat, 16),
{
    hex_text16(hash_texts(domains))
}

/// Sixteen hexadecimal digits.
pub fn hex_text16(value: u64) -> (text: String)
    ensures
        text@ == hex_digits(value as nat, 16),
{
    let mut text = String::new();
    push_hex_digits(value, 16, &mut text);
    text
}

/// The certificates are still good: all files are there, and the fingerprint
/// that was noted beside them is that of the hosts.
pub open spec fn still_good(
    presence: BundlePresence,
    saved_hash: Option<Seq<char>>,
    current_hash: Seq<char>,
) -> bool {
    complete(presence) && match saved_hash {
        Some(saved) => trim(saved) == current_hash,
        None => false,
    }
}

/// One step of making new certificates.
pub enum BundleStep<S> {
    /// Remove the file, if it is there.
    Remove(S),
    /// Make a root certificate, and write it to the file.
    IssueRoot(S),
    /// Make a server certificate, and write it and its key to the files.
    IssueServer { cert_path: S, key_path: S },
    /// Make the user the owner of the file.
    GiveToUser(S),
    /// Note the fingerprint in the file.
    NoteHash { path: S, hash: S },
}

impl View for BundleStep<String> {
    type V = BundleStep<Seq<char>>;

    open spec fn view(&self) -> BundleStep<Seq<char>> {
        match *self {
            BundleStep::Remove(path) => BundleStep::Remove(path@),
            BundleStep::IssueRoot(path) => BundleStep::IssueRoot(path@),
            BundleStep::IssueServer { cert_path, key_path } => BundleStep::IssueServer {
                cert_path: cert_path@,
                key_path: key_path@,
            },
            BundleStep::GiveToUser(path) => BundleStep::GiveToUser(path@),
            BundleStep::NoteHash { path, hash } => BundleStep::NoteHash {
                path: path@,
                hash: hash@,
            },
        }
    }
}

/// What some steps say.
pub open spec fn step_views(steps: Seq<BundleStep<String>>) -> Seq<BundleStep<Seq<char>>> {
    steps.map_values(|s: BundleStep<String>| s@)
}

/// What is done for the certificates below a directory: nothing if they are
/// still good. Else the old ones go first, and the fingerprint is noted last.
pub open spec fn bundle_steps(
    root: Seq<char>,
    presence: BundlePresence,
    saved_hash: Option<Seq<char>>,
    current_hash: Seq<char>,
) -> Seq<BundleStep<Seq<char>>> {
    let bundle = bundle_below(root);
    if still_good(presence, saved_hash, current_hash) {
        Seq::empty()
    } else {
        seq![
            BundleStep::Remove(bundle.ca_cert_path),
            BundleStep::Remove(bundle.server_cert_path),
            BundleStep::Remove(bundle.server_key_path),
            BundleStep::IssueRoot(bundle.ca_cert_path),
            BundleStep::GiveToUser(bundle.ca_cert_path),
            BundleStep::IssueServer {
                cert_path: bundle.server_cert_path,
                key_path: bundle.server_key_path,
            },
            BundleStep::GiveToUser(bundle.server_cert_path),
            BundleStep::GiveToUser(bundle.server_key_path),
            BundleStep::NoteHash {
                path: path_join(root, "linuxdo-accelerator-domains.sha256"@),
                hash: current_hash,
            },
        ]
    }
}

/// The file in which the fingerprint is noted.
pub fn domains_hash_path(root: &str) -> (path: String)
    ensures
        path@ == path_join(root@, "linuxdo-accelerator-domains.sha256"@),
{
    join_path(root, "linuxdo-accelerator-domains.sha256")
}

/// What is done for the certificates below a directory, with the fingerprint
/// of the hosts that they are for.
pub fn bundle_steps_for(
    root: &str,
    presence: BundlePresence,
    saved_hash: Option<&str>,
    current_hash: String,
) -> (steps: Vec<BundleStep<String>>)
    ensures
        step_views(steps@) == bundle_steps(
            root@,
            presence,
            option_str(saved_hash),
            current_hash@,
        ),
{
    let mut steps: Vec<BundleStep<String>> = Vec::new();
    if bundle_all_exist(presence) {
        if let Some(saved) = saved_hash {
            let saved = trimmed_text(saved);
            if same_text(saved.as_str(), current_hash.as_str()) {
                assert(step_views(steps@) =~= Seq::empty());
                return steps;
            }
        }
    }
    let bundle = bundle_paths(root);
    let path = domains_hash_path(root);
    steps.push(BundleStep::Remove(bundle.ca_cert_path.clone()));
    steps.push(BundleStep::Remove(bundle.server_cert_path.clone()));
    steps.push(BundleStep::Remove(bundle.server_key_path.clone()));
    steps.push(BundleStep::IssueRoot(bundle.ca_cert_path.clone()));
    steps.push(BundleStep::GiveToUser(bundle.ca_cert_path.clone()));
    steps.push(
        BundleStep::IssueServer {
            cert_path: bundle.server_cert_path.clone(),
            key_path: bundle.server_key_path.clone(),
        },
    );
    steps.push(BundleStep::GiveToUser(bundle.server_cert_path.clone()));
    steps.push(BundleStep::GiveToUser(bundle.server_key_path.clone()));
    steps.push(BundleStep::NoteHash { path, hash: current_hash });
    assert(step_views(steps@) =~= bundle_steps(
        root@,
        presence,
        option_str(saved_hash),
        current_hash@,
    ));
    steps
}

/// The bundle below a directory, and what is done so that it is good for the
/// configured hosts.
pub fn ensure_bundle(
    config: &AppConfig,
    root: &str,
    presence: BundlePresence,
    saved_hash: Option<&str>,
) -> (r: (CertificateBundle, Vec<BundleStep<String>>))
    ensures
        r.0@ == bundle_below(root@),
        step_views(r.1@) == bundle_steps(
            root@,
            presence,
            option_str(saved_hash),
            hex_digits(default_hash(texts(config.certificate_domains@)) as nat, 16),
        ),
{
    let hash = domains_hash(&config.certificate_domains);
    (bundle_paths(root), bundle_steps_for(root, presence, saved_hash, hash))
}

/// Certificates that are still good are left alone.
pub proof fn good_certificates_are_kept(
    root: Seq<char>,
    saved_hash: Seq<char>,
    current_hash: Seq<char>,
)
    requires
        trim(saved_hash) == current_hash,
    ensures
        bundle_steps(
            root,
            BundlePresence { ca_cert: true, server_cert: true, server_key: true },
            Some(saved_hash),
            current_hash,
        ).len() == 0,
{
}

/// If a file is missing, or the hosts are others, both certificates are made
/// anew, the old files are removed before anything is written, and the
/// fingerprint is noted only after all of that.
pub proof fn bad_certificates_are_replaced(
    root: Seq<char>,
    presence: BundlePresence,
    saved_hash: Option<Seq<char>>,
    current_hash: Seq<char>,
)
    requires
        !still_good(presence, saved_hash, current_hash),
    ensures
        ({
            let steps = bundle_steps(root, presence, saved_hash, current_hash);
            let bundle = bundle_below(root);
            &&& forall|i: int| 0 <= i < 3 ==> (#[trigger] steps[i]) is Remove
            &&& forall|i: int| 3 <= i < steps.len() ==> !((#[trigger] steps[i]) is Remove)
            &&& steps.contains(BundleStep::IssueRoot(bundle.ca_cert_path))
            &&& steps.contains(
                BundleStep::IssueServer {
                    cert_path: bundle.server_cert_path,
                    key_path: bundle.server_key_path,
                },
            )
            &&& forall|i: int|
                0 <= i < steps.len() ==> ((#[trigger] steps[i]) is NoteHash <==> i == steps.len()
                    - 1)
        }),
{
    let steps = bundle_steps(root, presence, saved_hash, current_hash);
    assert(steps[3] == BundleStep::IssueRoot(bundle_below(root).ca_cert_path));
    assert(steps[5] is IssueServer);
}

// ---------------------------------------------------------------------------
// Validity
// ---------------------------------------------------------------------------
/// For how many days a root certificate is valid.
pub const CA_VALIDITY_DAYS: i64 = 365;

/// For how many days a server certificate is valid.
pub const SERVER_VALIDITY_DAYS: i64 = 365;

/// The moment, in seconds since 1970, is one that the calendar of `time` has:
/// the years are those from -9999 to 9999.
pub open spec fn in_calendar(moment: int) -> bool {
    -377_705_116_800 <= moment <= 253_402_300_799
}

/// The seconds in so many days can be counted: `Duration::days` panics on a
/// number of days whose seconds are beyond 64 bits.
pub open spec fn countable(days: int) -> bool {
    i64::MIN <= days * 86_400 <= i64::MAX
}

/// `OffsetDateTime::checked_sub` with `Duration::days`: the moment so many days
/// of 86400 seconds before, unless the calendar does not go that far.
#[verifier::external_body]
fn days_before(moment: i64, days: i64) -> (earlier: Option<i64>)
    requires
        in_calendar(moment as int),
        countable(days as int),
    ensures
        earlier is Some <==> in_calendar(moment - days * 86_400),
        earlier matches Some(t) ==> t == moment - days * 86_400,
{
    match OffsetDateTime::from_unix_timestamp(moment) {
        Ok(start) => start.checked_sub(Duration::days(days)).map(OffsetDateTime::unix_timestamp),
        Err(_) => None,
    }
}

/// `OffsetDateTime::checked_add` with `Duration::days`: the moment so many days
/// of 86400 seconds after, unless the calendar does not go that far.
#[verifier::external_body]
fn days_after(moment: i64, days: i64) -> (later: Option<i64>)
    requires
        in_calendar(moment as int),
        countable(days as int),
    ensures
        later is Some <==> in_calendar(moment + days * 86_400),
        later matches Some(t) ==> t == moment + days * 86_400,
{
    match OffsetDateTime::from_unix_timestamp(moment) {
        Ok(start) => start.checked_add(Duration::days(days)).map(OffsetDateTime::unix_timestamp),
        Err(_) => None,
    }
}

/// From when to when a certificate is valid that is made now: from the day
/// before, for so many days.
pub open spec fn window(now: int, valid_days: int) -> Result<(int, int), Seq<char>> {
    if !in_calendar(now - 86_400) {
        Err("failed to compute certificate not_before"@)
    } else if !in_calendar(now + valid_days * 86_400) {
        Err("failed to compute certificate not_after"@)
    } else {
        Ok((now - 86_400, now + valid_days * 86_400))
    }
}

/// From when to when a certificate is valid that is made now.
pub fn validity_window(now: i64, valid_days: i64) -> (r: Result<(i64, i64), String>)
    requires
        in_calendar(now as int),
        countable(valid_days as int),
    ensures
        match r {
            Ok((from, to)) => window(now as int, valid_days as int) == Ok::<
                (int, int),
                Seq<char>,
            >((from as int, to as int)),
            Err(error) => window(now as int, valid_days as int) == Err::<(int, int), Seq<char>>(
                error@,
            ),
        },
{
    match days_before(now, 1) {
        None => Err("failed to compute certificate not_before".to_owned()),
        Some(not_before) => match days_after(now, valid_days) {
            None => Err("failed to compute certificate not_after".to_owned()),
            Some(not_after) => Ok((not_before, not_after)),
        },
    }
}

// ---------------------------------------------------------------------------
// Issuing
// ---------------------------------------------------------------------------
/// Whether a certificate may sign others.
#[derive(Clone, Copy, Debug, PartialEq, Eq, Structural)]
pub enum Role {
    Authority,
    Server,
}

/// What the key of a certificate is for.
#[derive(Clone, Copy, Debug, PartialEq, Eq, Structural)]
pub enum KeyUsage {
    DigitalSignature,
    KeyCertSign,
    CrlSign,
}

/// What a certificate says.
pub struct CertificateProfile {
    pub common_name: String,
    /// The hosts that it is for.
    pub domains: Vec<String>,
    /// From when it is valid, in seconds since 1970.
    pub not_before: i64,
    /// Until when it is valid, in seconds since 1970.
    pub not_after: i64,
    pub role: Role,
    pub key_usages: Vec<KeyUsage>,
    /// Whether it names the key that signed it.
    pub names_issuer_key: bool,
    pub extended_key_usages: Vec<ExtendedKeyUsage>,
}

/// What a certificate is for.
#[derive(Clone, Copy, Debug, PartialEq, Eq, Structural)]
pub enum ExtendedKeyUsage {
    ServerAuth,
}

/// What a [`CertificateProfile`] holds.
#[verifier::ext_equal]
pub struct ProfileView {
    pub common_name: Seq<char>,
    pub domains: Seq<Seq<char>>,
    pub not_before: int,
    pub not_after: int,
    pub role: Role,
    pub key_usages: Seq<KeyUsage>,
    pub names_issuer_key: bool,
    pub extended_key_usages: Seq<ExtendedKeyUsage>,
}

impl View for CertificateProfile {
    type V = ProfileView;

    open spec fn view(&self) -> ProfileView {
        ProfileView {
            common_name: self.common_name@,
            domains: texts(self.domains@),
            not_before: self.not_before as int,
            not_after: self.not_after as int,
            role: self.role,
            key_usages: self.key_usages@,
            names_issuer_key: self.names_issuer_key,
            extended_key_usages: self.extended_key_usages@,
        }
    }
}

/// A certificate of `rcgen`, with its key.
#[verifier::external_type_specification]
#[verifier::external_body]
pub struct ExCertificate(rcgen::Certificate);

/// What a certificate of `rcgen` says.
pub uninterp spec fn certified(certificate: rcgen::Certificate) -> ProfileView;

/// The certificate of `rcgen` was made of a profile: its names are in UTF-8, and
/// its key was made with it and is at hand.
pub uninterp spec fn well_made(certificate: rcgen::Certificate) -> bool;

/// The octets are the DER form of this very certificate, with its public key,
/// signed by its own key.
pub uninterp spec fn certifies_itself(der: Seq<u8>, subject: rcgen::Certificate) -> bool;

/// The octets are the DER form of the certificate `subject`, with its public
/// key, signed by the key of the certificate `issuer`.
pub uninterp spec fn certifies(
    der: Seq<u8>,
    subject: rcgen::Certificate,
    issuer: rcgen::Certificate,
) -> bool;

/// The text is a PEM block with these octets: their base64 text, cut into
/// lines, between the line that begins a certificate and the one that ends it.
pub open spec fn certificate_block(pem: Seq<char>, der: Seq<u8>) -> bool {
    &&& der.len() > 0
    &&& exists|chunks: Seq<Seq<char>>|
        lines(pem) == seq!["-----BEGIN CERTIFICATE-----"@] + chunks
            + seq!["-----END CERTIFICATE-----"@] && #[trigger] chunks.flatten() == base64_text(
            der,
            false,
            true,
        )
}

/// The PEM form of the key of a certificate of `rcgen`.
pub uninterp spec fn key_pem(certificate: rcgen::Certificate) -> Seq<char>;

/// `rcgen::Certificate::from_params`: a certificate that says what the profile
/// says, with a new key for ECDSA with P-256 and SHA-256.
/// Which key it is depends on chance, and so may whether there is one.
#[verifier::external_body]
fn make_certificate(profile: &CertificateProfile) -> (r: Result<Certificate, String>)
    requires
        in_calendar(profile.not_before as int),
        in_calendar(profile.not_after as int),
    ensures
        r matches Ok(certificate) ==> certified(certificate) == profile@ && well_made(
            certificate,
        ),
{
    let mut params = CertificateParams::new(profile.domains.clone());
    params.not_before = OffsetDateTime::UNIX_EPOCH + Duration::seconds(profile.not_before);
    params.not_after = OffsetDateTime::UNIX_EPOCH + Duration::seconds(profile.not_after);
    params.alg = &PKCS_ECDSA_P256_SHA256;
    params.distinguished_name = DistinguishedName::new();
    params.distinguished_name.push(CommonName, &profile.common_name);
    params.is_ca = match profile.role {
        Authority => Ca(Unconstrained), Server => ExplicitNoCa };
    params.use_authority_key_identifier_extension = profile.names_issuer_key;
    params.key_usages = profile.key_usages.iter().map(|usage| match usage {
        KeyUsage::DigitalSignature => DigitalSignature,
        KeyUsage::KeyCertSign => KeyCertSign, KeyUsage::CrlSign => CrlSign }).collect();
    params.extended_key_usages =
        profile.extended_key_usages.iter().map(|_| ServerAuth).collect();
    Certificate::from_params(params).map_err(|e| e.to_string())
}

/// The profile can be written: the hosts are in ASCII, and the years are those
/// from 0 to 9999.
pub open spec fn encodable(profile: ProfileView) -> bool {
    &&& forall|i: int, j: int|
        0 <= i < profile.domains.len() && 0 <= j < profile.domains[i].len() ==> (
        #[trigger] profile.domains[i][j]) as u32 <= 0x7f
    &&& -62_167_219_200 <= profile.not_before <= 253_402_300_799
    &&& -62_167_219_200 <= profile.not_after <= 253_402_300_799
}

/// `rcgen::Certificate::serialize_pem`: the PEM form, signed with the
/// certificate's own key. It is one block, and its octets are the DER form.
#[verifier::external_body]
fn self_signed_pem(certificate: &Certificate) -> (r: Result<String, String>)
    requires
        well_made(*certificate),
        encodable(certified(*certificate)),
    ensures
        r matches Ok(pem) ==> exists|der: Seq<u8>|
            certificate_block(pem@, der) && #[trigger] certifies_itself(der, *certificate),
{
    certificate.serialize_pem().map_err(|e| e.to_string())
}

/// `rcgen::Certificate::serialize_pem_with_signer`: the PEM form, signed with
/// the key of `issuer`. It is one block, and its octets are the DER form.
#[verifier::external_body]
fn signed_pem(certificate: &Certificate, issuer: &Certificate) -> (r: Result<String, String>)
    requires
        well_made(*certificate),
        well_made(*issuer),
        encodable(certified(*certificate)),
    ensures
        r matches Ok(pem) ==> exists|der: Seq<u8>|
            certificate_block(pem@, der) && #[trigger] certifies(der, *certificate, *issuer),
{
    certificate.serialize_pem_with_signer(issuer).map_err(|e| e.to_string())
}

/// `rcgen::Certificate::serialize_private_key_pem`: the PEM form of the key.
#[verifier::external_body]
fn private_key_pem(certificate: &Certificate) -> (pem: String)
    requires
        well_made(*certificate),
    ensures
        pem@ == key_pem(*certificate),
{
    certificate.serialize_private_key_pem()
}

/// What the root certificate says.
pub open spec fn root_profile(common_name: Seq<char>, valid: (int, int)) -> ProfileView {
    ProfileView {
        common_name,
        domains: Seq::empty(),
        not_before: valid.0,
        not_after: valid.1,
        role: Role::Authority,
        key_usages: seq![KeyUsage::DigitalSignature, KeyUsage::KeyCertSign, KeyUsage::CrlSign],
        names_issuer_key: false,
        extended_key_usages: Seq::empty(),
    }
}

/// What the server certificate says.
pub open spec fn server_profile(
    common_name: Seq<char>,
    domains: Seq<Seq<char>>,
    valid: (int, int),
) -> ProfileView {
    ProfileView {
        common_name,
        domains,
        not_before: valid.0,
        not_after: valid.1,
        role: Role::Server,
        key_usages: seq![KeyUsage::DigitalSignature],
        names_issuer_key: true,
        extended_key_usages: seq![ExtendedKeyUsage::ServerAuth],
    }
}

/// The profile of the root certificate.
pub fn make_root_profile(config: &AppConfig, not_before: i64, not_after: i64) -> (
    profile: CertificateProfile)
    ensures
        profile@ == root_profile(
            config.ca_common_name@,
            (not_before as int, not_after as int),
        ),
{
    let domains: Vec<String> = Vec::new();
    let mut key_usages: Vec<KeyUsage> = Vec::new();
    key_usages.push(KeyUsage::DigitalSignature);
    key_usages.push(KeyUsage::KeyCertSign);
    key_usages.push(KeyUsage::CrlSign);
    let extended_key_usages: Vec<ExtendedKeyUsage> = Vec::new();
    let profile = CertificateProfile {
        common_name: config.ca_common_name.clone(),
        domains,
        not_before,
        not_after,
        role: Role::Authority,
        key_usages,
        names_issuer_key: false,
        extended_key_usages,
    };
    assert(profile@ =~= root_profile(
        config.ca_common_name@,
        (not_before as int, not_after as int),
    ));
    profile
}

fn duplicate_texts(parts: &Vec<String>) -> (copy: Vec<String>)
    ensures
        texts(copy@) == texts(parts@),
{
    let mut copy: Vec<String> = Vec::new();
    let mut i: usize = 0;
    while i < parts.len()
        invariant
            i <= parts@.len(),
            texts(copy@) == texts(parts@).take(i as int),
        decreases parts@.len() - i,
    {
        let ghost before = copy@;
        copy.push(parts[i].clone());
        assert(texts(copy@) =~= texts(before).push(parts@[i as int]@));
        assert(texts(parts@).take(i as int + 1) =~= texts(parts@).take(i as int).push(
            parts@[i as int]@,
        ));
        i = i + 1;
    }
    assert(texts(parts@).take(i as int) =~= texts(parts@));
    copy
}

/// The profile of the server certificate.
pub fn make_server_profile(config: &AppConfig, not_before: i64, not_after: i64) -> (
    profile: CertificateProfile)
    ensures
        profile@ == server_profile(
            config.server_common_name@,
            texts(config.certificate_domains@),
            (not_before as int, not_after as int),
        ),
{
    let mut key_usages: Vec<KeyUsage> = Vec::new();
    key_usages.push(KeyUsage::DigitalSignature);
    let mut extended_key_usages: Vec<ExtendedKeyUsage> = Vec::new();
    extended_key_usages.push(ExtendedKeyUsage::ServerAuth);
    let profile = CertificateProfile {
        common_name: config.server_common_name.clone(),
        domains: duplicate_texts(&config.certificate_domains),
        not_before,
        not_after,
        role: Role::Server,
        key_usages,
        names_issuer_key: true,
        extended_key_usages,
    };
    assert(profile@ =~= server_profile(
        config.server_common_name@,
        texts(config.certificate_domains@),
        (not_before as int, not_after as int),
    ));
    profile
}

/// Makes a root certificate, and gives it with the PEM form of that very one.
/// Only making or signing it can fail, apart from the calendar.
pub fn generate_ca(config: &AppConfig, now: i64) -> (r: Result<(Certificate, String), String>)
    requires
        -62_167_219_200 + 86_400 <= now <= 253_402_300_799,
    ensures
        match r {
            Ok((certificate, pem)) => {
                let valid = window(now as int, CA_VALIDITY_DAYS as int);
                &&& valid is Ok
                &&& certified(certificate) == root_profile(config.ca_common_name@, valid->Ok_0)
                &&& well_made(certificate)
                &&& der_of_pem(pem@) matches Ok(der) && certifies_itself(der, certificate)
            },
            Err(error) => match window(now as int, CA_VALIDITY_DAYS as int) {
                Err(e) => error@ == e,
                Ok(_) => starts_with(error@, "failed to generate root CA: "@) || starts_with(
                    error@,
                    "failed to serialize root CA: "@,
                ),
            },
        },
{
    match validity_window(now, CA_VALIDITY_DAYS) {
        Err(error) => Err(error),
        Ok((not_before, not_after)) => {
            let profile = make_root_profile(config, not_before, not_after);
            match make_certificate(&profile) {
                Err(error) => Err(with_context("failed to generate root CA: ", error.as_str())),
                Ok(certificate) => match self_signed_pem(&certificate) {
                    Err(error) => Err(
                        with_context("failed to serialize root CA: ", error.as_str()),
                    ),
                    Ok(pem) => {
                        proof {
                            let der = choose|der: Seq<u8>|
                                certificate_block(pem@, der) && #[trigger] certifies_itself(
                                    der,
                                    certificate,
                                );
                            a_written_certificate_is_exported(pem@, der);
                        }
                        Ok((certificate, pem))
                    },
                },
            }
        },
    }
}

fn with_context(context: &str, error: &str) -> (text: String)
    ensures
        text@ == context@ + error@,
        starts_with(text@, context@),
{
    let text = joined(context, error);
    assert(text@.take(context@.len() as int) =~= context@);
    text
}

/// The hosts are in ASCII.
pub open spec fn ascii_domains(domains: Seq<Seq<char>>) -> bool {
    forall|i: int, j: int|
        0 <= i < domains.len() && 0 <= j < domains[i].len() ==> (#[trigger] domains[i][j]) as u32
            <= 0x7f
}

/// The octets and the key are those of one certificate, which says what the
/// profile says, and is signed by the key of `issuer`.
pub open spec fn issued(
    der: Seq<u8>,
    key: Seq<char>,
    profile: ProfileView,
    issuer: rcgen::Certificate,
) -> bool {
    exists|c: rcgen::Certificate|
        certified(c) == profile && key == key_pem(c) && #[trigger] certifies(der, c, issuer)
}

/// Makes a server certificate that the root certificate signs, and gives the
/// PEM forms of it and of the key that belongs to it. Only making or signing it
/// can fail, apart from the calendar.
pub fn generate_server_cert(config: &AppConfig, ca_cert: &Certificate, now: i64) -> (r: Result<
    (String, String),
    String,
>)
    requires
        well_made(*ca_cert),
        -62_167_219_200 + 86_400 <= now <= 253_402_300_799,
        ascii_domains(texts(config.certificate_domains@)),
    ensures
        match r {
            Ok((cert, key)) => {
                let valid = window(now as int, SERVER_VALIDITY_DAYS as int);
                let profile = server_profile(
                    config.server_common_name@,
                    texts(config.certificate_domains@),
                    valid->Ok_0,
                );
                &&& valid is Ok
                &&& der_of_pem(cert@) matches Ok(der) && issued(der, key@, profile, *ca_cert)
            },
            Err(error) => match window(now as int, SERVER_VALIDITY_DAYS as int) {
                Err(e) => error@ == e,
                Ok(_) => starts_with(error@, "failed to generate server cert: "@) || starts_with(
                    error@,
                    "failed to sign server cert: "@,
                ),
            },
        },
{
    match validity_window(now, SERVER_VALIDITY_DAYS) {
        Err(error) => Err(error),
        Ok((not_before, not_after)) => {
            let profile = make_server_profile(config, not_before, not_after);
            match make_certificate(&profile) {
                Err(error) => Err(
                    with_context("failed to generate server cert: ", error.as_str()),
                ),
                Ok(certificate) => match signed_pem(&certificate, ca_cert) {
                    Err(error) => Err(
                        with_context("failed to sign server cert: ", error.as_str()),
                    ),
                    Ok(cert) => {
                        proof {
                            let der = choose|der: Seq<u8>|
                                certificate_block(cert@, der) && #[trigger] certifies(
                                    der,
                                    certificate,
                                    *ca_cert,
                                );
                            a_written_certificate_is_exported(cert@, der);
                        }
                        let key = private_key_pem(&certificate);
                        assert(certifies(der_of_pem(cert@)->Ok_0, certificate, *ca_cert));
                        Ok((cert, key))
                    },
                },
            }
        },
    }
}

/// The server certificate is for the configured hosts and for servers alone;
/// the root certificate may sign it. Both are valid now, and for a year.
pub proof fn certificates_serve_their_purpose(
    ca_name: Seq<char>,
    server_name: Seq<char>,
    domains: Seq<Seq<char>>,
    now: int,
    valid: (int, int),
)
    requires
        window(now, CA_VALIDITY_DAYS as int) == Ok::<(int, int), Seq<char>>(valid),
    ensures
        ({
            let root = root_profile(ca_name, valid);
            let server = server_profile(server_name, domains, valid);
            &&& root.role is Authority
            &&& root.key_usages.contains(KeyUsage::KeyCertSign)
            &&& server.role is Server
            &&& !server.key_usages.contains(KeyUsage::KeyCertSign)
            &&& server.extended_key_usages == seq![ExtendedKeyUsage::ServerAuth]
            &&& server.domains == domains
            &&& root.not_before < now < root.not_after == now + 365 * 86_400
            &&& server.not_before < now < server.not_after == now + 365 * 86_400
        }),
{
    let root = root_profile(ca_name, valid);
    assert(root.key_usages[1] == KeyUsage::KeyCertSign);
}

// ---------------------------------------------------------------------------
// PEM
// ---------------------------------------------------------------------------
/// The body of the first PEM block in some lines: what stands between the line
/// that begins the block and the first that ends one, without the white space
/// around each line.
pub open spec fn pem_body(ls: Seq<Seq<char>>, inside: bool) -> Seq<char>
    decreases ls.len(),
{
    if ls.len() == 0 {
        Seq::empty()
    } else {
        let line = trim(ls[0]);
        if starts_with(line, "-----BEGIN"@) {
            pem_body(ls.drop_first(), true)
        } else if starts_with(line, "-----END"@) {
            Seq::empty()
        } else if inside {
            line + pem_body(ls.drop_first(), true)
        } else {
            pem_body(ls.drop_first(), false)
        }
    }
}

/// Why a PEM text was refused.
#[derive(Clone, Copy, Debug, PartialEq, Eq, Structural)]
pub enum PemError {
    NoBody,
    InvalidCharacter,
}

/// What is wrong with a PEM text, in words.
pub open spec fn pem_error_text(error: PemError) -> Seq<char> {
    match error {
        PemError::NoBody => "no PEM body found"@,
        PemError::InvalidCharacter => "invalid base64 character"@,
    }
}

/// The octets in the first PEM block of a text.
pub open spec fn der_of_pem(pem: Seq<char>) -> Result<Seq<u8>, PemError> {
    let body = pem_body(lines(pem), false);
    if body.len() == 0 {
        Err(PemError::NoBody)
    } else {
        match tolerant_octets(body) {
            Some(octets) => Ok(octets),
            None => Err(PemError::InvalidCharacter),
        }
    }
}

/// The octets in the first PEM block of a text.
pub fn pem_to_der(pem: &str) -> (r: Result<Vec<u8>, PemError>)
    ensures
        match r {
            Ok(der) => der_of_pem(pem@) == Ok::<Seq<u8>, PemError>(der@),
            Err(e) => der_of_pem(pem@) == Err::<Seq<u8>, PemError>(e),
        },
{
    let found = split_lines(chars_of(pem).as_slice());
    let begin = chars_of("-----BEGIN");
    let end = chars_of("-----END");
    let ghost all = lines(pem@);
    let mut body = String::new();
    let mut inside = false;
    let mut i: usize = 0;
    assert(all.skip(0) =~= all);
    assert(body@ + pem_body(all, false) =~= pem_body(all, false));
    while i < found.len()
        invariant_except_break
            i <= found@.len(),
            body@ + pem_body(all.skip(i as int), inside) == pem_body(all, false),
        invariant
            texts(found@) == all,
            begin@ == "-----BEGIN"@,
            end@ == "-----END"@,
        ensures
            body@ == pem_body(all, false),
        decreases found@.len() - i,
    {
        assert(all.skip(i as int)[0] == found@[i as int]@);
        assert(all.skip(i as int).drop_first() =~= all.skip(i as int + 1));
        let line = trimmed_text(found[i].as_str());
        let chars = chars_of(line.as_str());
        if has_prefix(chars.as_slice(), begin.as_slice()) {
            inside = true;
        } else if has_prefix(chars.as_slice(), end.as_slice()) {
            assert(body@ + Seq::<char>::empty() =~= body@);
            break;
        } else if inside {
            let ghost before = body@;
            body.append(line.as_str());
            assert(before + (line@ + pem_body(all.skip(i as int + 1), true)) =~= body@ + pem_body(
                all.skip(i as int + 1),
                true,
            ));
        }
        i = i + 1;
        if i == found.len() {
            assert(all.skip(i as int) =~= Seq::empty());
            assert(body@ + Seq::<char>::empty() =~= body@);
        }
    }
    if body.as_str().is_empty() {
        return Err(PemError::NoBody);
    }
    match base64_decode(body.as_str()) {
        Some(der) => Ok(der),
        None => Err(PemError::InvalidCharacter),
    }
}

/// The root certificate in DER form, of its PEM form.
pub fn export_ca_der(pem: &str) -> (r: Result<Vec<u8>, String>)
    ensures
        match r {
            Ok(der) => der_of_pem(pem@) == Ok::<Seq<u8>, PemError>(der@),
            Err(error) => der_of_pem(pem@) matches Err(e) && error@
                == "failed to decode CA PEM to DER: "@ + pem_error_text(e),
        },
{
    match pem_to_der(pem) {
        Ok(der) => Ok(der),
        Err(PemError::NoBody) => Err(
            joined("failed to decode CA PEM to DER: ", "no PEM body found"),
        ),
        Err(PemError::InvalidCharacter) => Err(
            joined("failed to decode CA PEM to DER: ", "invalid base64 character"),
        ),
    }
}

proof fn body_of_chunks(chunks: Seq<Seq<char>>, end: Seq<char>)
    requires
        starts_with(trim(end), "-----END"@),
        !starts_with(trim(end), "-----BEGIN"@),
        forall|i: int|
            0 <= i < chunks.len() ==> trim(#[trigger] chunks[i]) == chunks[i] && !starts_with(
                chunks[i],
                "-----BEGIN"@,
            ) && !starts_with(chunks[i], "-----END"@),
    ensures
        pem_body(chunks.push(end), true) == chunks.flatten(),
    decreases chunks.len(),
{
    let ls = chunks.push(end);
    if chunks.len() > 0 {
        let fewer = chunks.drop_first();
        assert(ls.drop_first() =~= fewer.push(end));
        assert(ls[0] == chunks[0]);
        assert forall|i: int| 0 <= i < fewer.len() implies trim(#[trigger] fewer[i]) == fewer[i]
            && !starts_with(fewer[i], "-----BEGIN"@) && !starts_with(fewer[i], "-----END"@) by {
            assert(fewer[i] == chunks[i + 1]);
        }
        body_of_chunks(fewer, end);
    } else {
        assert(ls[0] == end);
    }
}

/// The octets that a PEM block wraps are found again: if the lines between the
/// one that begins it and the one that ends it make up the base64 text of some
/// octets, those are the ones.
pub proof fn wrapped_octets_are_unwrapped(
    pem: Seq<char>,
    begin: Seq<char>,
    chunks: Seq<Seq<char>>,
    end: Seq<char>,
    octets: Seq<u8>,
)
    requires
        lines(pem) == seq![begin] + chunks + seq![end],
        starts_with(trim(begin), "-----BEGIN"@),
        starts_with(trim(end), "-----END"@),
        !starts_with(trim(end), "-----BEGIN"@),
        forall|i: int|
            0 <= i < chunks.len() ==> trim(#[trigger] chunks[i]) == chunks[i] && !starts_with(
                chunks[i],
                "-----BEGIN"@,
            ) && !starts_with(chunks[i], "-----END"@),
        chunks.flatten() == base64_text(octets, false, true),
        octets.len() > 0,
    ensures
        der_of_pem(pem) == Ok::<Seq<u8>, PemError>(octets),
{
    let ls = lines(pem);
    assert(ls[0] == begin);
    assert(ls.drop_first() =~= chunks.push(end));
    body_of_chunks(chunks, end);
    encoded_octets_are_decoded(octets, true);
    let body = base64_text(octets, false, true);
    assert(body.len() > 0);
}

proof fn chunks_are_from_the_whole(chunks: Seq<Seq<char>>, i: int, j: int)
    requires
        0 <= i < chunks.len(),
        0 <= j < chunks[i].len(),
    ensures
        chunks.flatten().contains(chunks[i][j]),
    decreases chunks.len(),
{
    let fewer = chunks.drop_first();
    let whole = chunks.flatten();
    assert(whole == chunks[0] + fewer.flatten());
    if i == 0 {
        assert(whole[j] == chunks[0][j]);
    } else {
        chunks_are_from_the_whole(fewer, i - 1, j);
        assert(fewer[i - 1] == chunks[i]);
        let k = choose|k: int|
            0 <= k < fewer.flatten().len() && fewer.flatten()[k] == chunks[i][j];
        assert(whole[chunks[0].len() + k] == chunks[i][j]);
    }
}

/// A certificate that was written in PEM form is exported in the DER form that
/// it has.
pub proof fn a_written_certificate_is_exported(pem: Seq<char>, der: Seq<u8>)
    requires
        certificate_block(pem, der),
    ensures
        der_of_pem(pem) == Ok::<Seq<u8>, PemError>(der),
{
    let begin = "-----BEGIN CERTIFICATE-----"@;
    let end = "-----END CERTIFICATE-----"@;
    let chunks = choose|chunks: Seq<Seq<char>>|
        lines(pem) == seq![begin] + chunks + seq![end] && #[trigger] chunks.flatten()
            == base64_text(der, false, true);
    reveal_strlit("-----BEGIN CERTIFICATE-----");
    reveal_strlit("-----END CERTIFICATE-----");
    reveal_strlit("-----BEGIN");
    reveal_strlit("-----END");
    assert(trim(begin) == begin);
    assert(trim(end) == end);
    assert(begin.take(10) =~= "-----BEGIN"@);
    assert(end.take(8) =~= "-----END"@);
    assert(!starts_with(end, "-----BEGIN"@)) by {
        assert(end.take(10)[5] != "-----BEGIN"@[5]);
    }
    base64_text_is_plain(der, true);
    assert forall|i: int| 0 <= i < chunks.len() implies trim(#[trigger] chunks[i]) == chunks[i]
        && !starts_with(chunks[i], "-----BEGIN"@) && !starts_with(chunks[i], "-----END"@) by {
        let chunk = chunks[i];
        if chunk.len() > 0 {
            let first = chunk[0];
            let last = chunk[chunk.len() - 1];
            chunks_are_from_the_whole(chunks, i, 0);
            chunks_are_from_the_whole(chunks, i, chunk.len() - 1);
            assert(base64_char(first));
            assert(base64_char(last));
            assert(trim(chunk) == chunk);
            if starts_with(chunk, "-----BEGIN"@) {
                assert(chunk.take(10)[0] == first);
            }
            if starts_with(chunk, "-----END"@) {
                assert(chunk.take(8)[0] == first);
            }
        }
    }
    wrapped_octets_are_unwrapped(pem, begin, chunks, end, der);
}

/// The certificates in a PEM text, or the error, that `rustls_pemfile::certs`
/// gives.
pub uninterp spec fn pem_certificates(pem: Seq<u8>) -> Result<Seq<Seq<u8>>, Seq<char>>;

/// A private key in DER form, by the standard that it follows, with octets as
/// `O`.
#[derive(Clone, Debug, PartialEq, Eq)]
pub enum PrivateKey<O> {
    /// PKCS#1: an RSA key.
    Pkcs1(O),
    /// SEC1: an elliptic curve key.
    Sec1(O),
    /// PKCS#8: a key of any kind.
    Pkcs8(O),
}

impl View for PrivateKey<Vec<u8>> {
    type V = PrivateKey<Seq<u8>>;

    open spec fn view(&self) -> PrivateKey<Seq<u8>> {
        match *self {
            PrivateKey::Pkcs1(der) => PrivateKey::Pkcs1(der@),
            PrivateKey::Sec1(der) => PrivateKey::Sec1(der@),
            PrivateKey::Pkcs8(der) => PrivateKey::Pkcs8(der@),
        }
    }
}

/// The key in a PEM text, if there is one, or the error, that
/// `rustls_pemfile::private_key` gives.
pub uninterp spec fn pem_private_key(pem: Seq<u8>) -> Result<
    Option<PrivateKey<Seq<u8>>>,
    Seq<char>,
>;

/// The octets of some vectors.
pub open spec fn octet_views(parts: Seq<Vec<u8>>) -> Seq<Seq<u8>> {
    parts.map_values(|p: Vec<u8>| p@)
}

/// `rustls_pemfile::certs`, all of them. Nothing more is claimed of the outcome
/// than that the octets determine it.
#[verifier::external_body]
fn read_pem_certificates(pem: &Vec<u8>) -> (r: Result<Vec<Vec<u8>>, String>)
    ensures
        match r {
            Ok(certificates) => pem_certificates(pem@) == Ok::<Seq<Seq<u8>>, Seq<char>>(
                octet_views(certificates@),
            ),
            Err(error) => pem_certificates(pem@) == Err::<Seq<Seq<u8>>, Seq<char>>(error@),
        },
{
    rustls_pemfile::certs(&mut pem.as_slice())
        .map(|certificate| certificate.map(|der| der.to_vec()).map_err(|error| error.to_string()))
        .collect()
}

/// `rustls_pemfile::private_key`, in DER form. It gives keys of these three
/// kinds and no others. Nothing more is claimed of the outcome than that the
/// octets determine it.
#[verifier::external_body]
fn read_pem_private_key(pem: &Vec<u8>) -> (r: Result<Option<PrivateKey<Vec<u8>>>, String>)
    ensures
        found_view(r) == pem_private_key(pem@),
{
    match rustls_pemfile::private_key(&mut pem.as_slice()) {
        Ok(Some(PrivateKeyDer::Pkcs1(key))) => {
            Ok(Some(PrivateKey::Pkcs1(key.secret_pkcs1_der().to_vec())))
        }
        Ok(Some(PrivateKeyDer::Sec1(key))) => {
            Ok(Some(PrivateKey::Sec1(key.secret_sec1_der().to_vec())))
        }
        Ok(Some(PrivateKeyDer::Pkcs8(key))) => {
            Ok(Some(PrivateKey::Pkcs8(key.secret_pkcs8_der().to_vec())))
        }
        Ok(_) => Ok(None),
        Err(error) => Err(error.to_string()),
    }
}

/// What was found of a key.
pub open spec fn found_view(found: Result<Option<PrivateKey<Vec<u8>>>, String>) -> Result<
    Option<PrivateKey<Seq<u8>>>,
    Seq<char>,
> {
    match found {
        Ok(Some(key)) => Ok(Some(key@)),
        Ok(None) => Ok(None),
        Err(error) => Err(error@),
    }
}

/// The certificates in the contents of a PEM file, in DER form.
pub fn load_certificates(contents: &Vec<u8>) -> (r: Result<Vec<Vec<u8>>, String>)
    ensures
        match r {
            Ok(certificates) => pem_certificates(contents@) == Ok::<Seq<Seq<u8>>, Seq<char>>(
                octet_views(certificates@),
            ),
            Err(error) => pem_certificates(contents@) matches Err(e) && error@
                == "failed to load certificate chain: "@ + e,
        },
{
    match read_pem_certificates(contents) {
        Ok(certificates) => Ok(certificates),
        Err(error) => Err(joined("failed to load certificate chain: ", error.as_str())),
    }
}

/// The outcome of looking for a key in a file.
pub open spec fn key_outcome(
    found: Result<Option<PrivateKey<Seq<u8>>>, Seq<char>>,
    path: Seq<char>,
) -> Result<PrivateKey<Seq<u8>>, Seq<char>> {
    match found {
        Ok(Some(key)) => Ok(key),
        Ok(None) => Err("private key not found in "@ + path),
        Err(error) => Err("failed to parse private key: "@ + error),
    }
}

/// The key, or the error, that was found in the file at `path`.
pub fn found_key(found: Result<Option<PrivateKey<Vec<u8>>>, String>, path: &str) -> (r: Result<
    PrivateKey<Vec<u8>>,
    String,
>)
    ensures
        match r {
            Ok(key) => key_outcome(found_view(found), path@) == Ok::<
                PrivateKey<Seq<u8>>,
                Seq<char>,
            >(key@),
            Err(error) => key_outcome(found_view(found), path@) == Err::<
                PrivateKey<Seq<u8>>,
                Seq<char>,
            >(error@),
        },
{
    match found {
        Ok(Some(key)) => Ok(key),
        Ok(None) => Err(joined("private key not found in ", path)),
        Err(error) => Err(joined("failed to parse private key: ", error.as_str())),
    }
}

/// The first key in the contents of the PEM file at `path`, in DER form.
pub fn load_private_key(contents: &Vec<u8>, path: &str) -> (r: Result<PrivateKey<Vec<u8>>, String>)
    ensures
        match r {
            Ok(key) => key_outcome(pem_private_key(contents@), path@) == Ok::<
                PrivateKey<Seq<u8>>,
                Seq<char>,
            >(key@),
            Err(error) => key_outcome(pem_private_key(contents@), path@) == Err::<
                PrivateKey<Seq<u8>>,
                Seq<char>,
            >(error@),
        },
{
    found_key(read_pem_private_key(contents), path)
}

// ---------------------------------------------------------------------------
// Handing a bundle over
// ---------------------------------------------------------------------------
/// The three texts of a bundle in one: each behind a line that marks it, and
/// without the white space around it.
pub open spec fn bundle_text(
    ca_pem: Seq<char>,
    server_cert_pem: Seq<char>,
    server_key_pem: Seq<char>,
) -> Seq<char> {
    "-----LDA-CA-----\n"@ + trim(ca_pem) + "\n-----LDA-CERT-----\n"@ + trim(server_cert_pem)
        + "\n-----LDA-KEY-----\n"@ + trim(server_key_pem)
}

/// The three texts of a bundle in one.
pub fn export_bundle_text(ca_pem: &str, server_cert_pem: &str, server_key_pem: &str) -> (
    text: String)
    ensures
        text@ == bundle_text(ca_pem@, server_cert_pem@, server_key_pem@),
{
    let ca = trimmed_text(ca_pem);
    let cert = trimmed_text(server_cert_pem);
    let key = trimmed_text(server_key_pem);
    let mut text = joined4(
        "-----LDA-CA-----\n",
        ca.as_str(),
        "\n-----LDA-CERT-----\n",
        cert.as_str(),
    );
    text.append("\n-----LDA-KEY-----\n");
    text.append(key.as_str());
    text
}

proof fn split_of_both(a: Seq<char>, b: Seq<char>, sep: char)
    ensures
        split(a.push(sep) + b, sep) == split(a, sep) + split(b, sep),
    decreases b.len(),
{
    let both = a.push(sep) + b;
    split_is_never_empty(b, sep);
    if b.len() == 0 {
        assert(both =~= a.push(sep));
        assert(both.drop_last() =~= a);
        assert(b =~= Seq::empty());
        assert(split(both, sep) =~= split(a, sep) + split(b, sep));
    } else {
        let fewer = b.drop_last();
        assert(both.drop_last() =~= a.push(sep) + fewer);
        assert(both.last() == b.last());
        split_of_both(a, fewer, sep);
        split_is_never_empty(fewer, sep);
        let before = split(a, sep) + split(fewer, sep);
        assert(before.last() == split(fewer, sep).last());
        assert(before.drop_last() =~= split(a, sep) + split(fewer, sep).drop_last());
        assert(split(both, sep) =~= split(a, sep) + split(b, sep));
    }
}

proof fn split_of_one(s: Seq<char>, sep: char)
    requires
        forall|i: int| 0 <= i < s.len() ==> #[trigger] s[i] != sep,
    ensures
        split(s, sep) == seq![s],
    decreases s.len(),
{
    if s.len() > 0 {
        let fewer = s.drop_last();
        assert forall|i: int| 0 <= i < fewer.len() implies #[trigger] fewer[i] != sep by {
            assert(fewer[i] == s[i]);
        }
        split_of_one(fewer, sep);
        assert(s.last() == s[s.len() - 1]);
        assert(fewer.push(s.last()) =~= s);
        assert(split(s, sep) =~= seq![s]);
    } else {
        assert(s =~= Seq::empty());
    }
}

proof fn lines_of_both(a: Seq<char>, b: Seq<char>)
    requires
        a.len() > 0,
        a.last() != '\n',
        a.last() != '\r',
    ensures
        lines(a.push('\n') + b) == lines(a) + lines(b),
{
    let first = split(a, '\n');
    let second = split(b, '\n');
    split_of_both(a, b, '\n');
    split_is_never_empty(a, '\n');
    split_is_never_empty(b, '\n');
    let all = first + second;
    let strip = |p: Seq<char>| strip_return(p);
    assert(first.last().len() > 0 && first.last().last() == a.last());
    assert(all.last() == second.last());
    assert(all.drop_last() =~= first + second.drop_last());
    assert(first.map_values(strip) =~= first.drop_last().map_values(strip).push(first.last()));
    assert(all.drop_last().map_values(strip) =~= first.map_values(strip)
        + second.drop_last().map_values(strip));
    assert(lines(a.push('\n') + b) =~= lines(a) + lines(b));
}

proof fn lines_of_one(s: Seq<char>)
    requires
        s.len() > 0,
        forall|i: int| 0 <= i < s.len() ==> #[trigger] s[i] != '\n',
    ensures
        lines(s) == seq![s],
{
    split_of_one(s, '\n');
    assert(lines(s) =~= seq![s]);
}

proof fn trimmed_ends_visibly(s: Seq<char>)
    requires
        trim_end(s).len() > 0,
    ensures
        !white_space(trim_end(s).last()),
    decreases s.len(),
{
    if s.len() > 0 && white_space(s.last()) {
        trimmed_ends_visibly(s.drop_last());
    }
}

/// The lines of a bundle text are those of the three texts, each behind the
/// line that marks it.
pub proof fn a_bundle_text_can_be_taken_apart(
    ca_pem: Seq<char>,
    server_cert_pem: Seq<char>,
    server_key_pem: Seq<char>,
)
    requires
        trim(ca_pem).len() > 0,
        trim(server_cert_pem).len() > 0,
        trim(server_key_pem).len() > 0,
    ensures
        lines(bundle_text(ca_pem, server_cert_pem, server_key_pem)) == seq!["-----LDA-CA-----"@]
            + lines(trim(ca_pem)) + seq!["-----LDA-CERT-----"@] + lines(trim(server_cert_pem))
            + seq!["-----LDA-KEY-----"@] + lines(trim(server_key_pem)),
{
    let ca = trim(ca_pem);
    let cert = trim(server_cert_pem);
    let key = trim(server_key_pem);
    let m1 = "-----LDA-CA-----"@;
    let m2 = "-----LDA-CERT-----"@;
    let m3 = "-----LDA-KEY-----"@;
    reveal_strlit("-----LDA-CA-----");
    reveal_strlit("-----LDA-CERT-----");
    reveal_strlit("-----LDA-KEY-----");
    reveal_strlit("-----LDA-CA-----\n");
    reveal_strlit("\n-----LDA-CERT-----\n");
    reveal_strlit("\n-----LDA-KEY-----\n");
    assert("-----LDA-CA-----\n"@ =~= m1.push('\n'));
    assert("\n-----LDA-CERT-----\n"@ =~= seq!['\n'] + m2.push('\n'));
    assert("\n-----LDA-KEY-----\n"@ =~= seq!['\n'] + m3.push('\n'));
    trimmed_ends_visibly(trim_start(ca_pem));
    trimmed_ends_visibly(trim_start(server_cert_pem));
    let after_m3 = m3.push('\n') + key;
    let after_cert = cert.push('\n') + after_m3;
    let after_m2 = m2.push('\n') + after_cert;
    let after_ca = ca.push('\n') + after_m2;
    assert(bundle_text(ca_pem, server_cert_pem, server_key_pem) =~= m1.push('\n') + after_ca);
    lines_of_one(m1);
    lines_of_one(m2);
    lines_of_one(m3);
    lines_of_both(m3, key);
    lines_of_both(cert, after_m3);
    lines_of_both(m2, after_cert);
    lines_of_both(ca, after_m2);
    lines_of_both(m1, after_ca);
    assert(lines(m1.push('\n') + after_ca) =~= seq![m1] + lines(ca) + seq![m2] + lines(cert)
        + seq![m3] + lines(key));
}

} // verus!
