//! What the hub decides about its certificate: where a certificate that was
//! given by hand is read from, and which of the items of a key file is the
//! private key. Reading the files and talking to the issuer are the caller's.

use vstd::prelude::*;
use crate::gateway::TlsAcceptor;
use crate::text::{append_bytes, text, text_bytes};

verus! {

/// The pattern of the characters that are taken out of a host name before
/// it names a file: every character but ASCII letters, digits, the hyphen
/// and the full stop.
pub const UNSAFE_HOSTNAME_CHARACTERS: &'static str = "[^a-zA-Z0-9-\\.]";

/// The file name extension of a certificate.
pub const CERT_EXTENSION: &'static str = ".crt";

/// The file name extension of a private key.
pub const KEY_EXTENSION: &'static str = ".key";

/// What stands before the contact address in the account of the issuer.
pub const CONTACT_SCHEME: &'static str = "mailto:";

/// The text that results when every match of the regular expression
/// `pattern` in `haystack`, from left to right and without overlap, is
/// replaced by `replacement`, in which `$` refers to capture groups.
pub uninterp spec fn regex_replace_all(
    pattern: Seq<char>,
    haystack: Seq<char>,
    replacement: Seq<char>,
) -> Seq<char>;

/// Calls `regex::Regex::replace_all` on the regular expression that
/// `regex::Regex::new` makes of `pattern`. `None` means that the pattern was
/// refused. A pattern near the size limit may be refused on one machine and
/// not on another, so nothing is claimed about when that happens, but for
/// this: the pattern of unsafe host name characters, one small character
/// class, is never refused. Where the pattern is not refused, the result is
/// a function of the three texts; nothing is proved of the matching.
#[verifier::external_body]
fn replace_all(pattern: &str, haystack: &str, replacement: &str) -> (r: Option<String>)
    ensures
        r matches Some(s) ==> s@ == regex_replace_all(pattern@, haystack@, replacement@),
        pattern@ == UNSAFE_HOSTNAME_CHARACTERS@ ==> r is Some,
{
    match regex::Regex::new(pattern) {
        Ok(re) => Some(re.replace_all(haystack, replacement).into_owned()),
        Err(_) => None,
    }
}

/// Takes the characters out of a host name that are unsafe in a file name.
pub fn escape_hostname(hostname: &str) -> (r: String)
    ensures
        r@ == regex_replace_all(UNSAFE_HOSTNAME_CHARACTERS@, hostname@, ""@),
{
    match replace_all(UNSAFE_HOSTNAME_CHARACTERS, hostname, "") {
        Some(escaped) => escaped,
        None => {
            proof {
                assert(false);
            }
            String::new()
        },
    }
}

/// The two ways of getting a certificate.
#[derive(Clone, Copy, Debug, PartialEq, Eq, Structural)]
pub enum CertMode {
    /// The certificate and its key are read from files.
    Manual,
    /// The certificate is issued by Let's Encrypt.
    LetsEncrypt,
}

/// What is to be done to get the certificate.
#[derive(Clone, Debug, PartialEq, Eq)]
pub enum CertPlan {
    /// Read the certificate and the key from these two files of the
    /// certificate directory.
    Manual { cert_file: Vec<u8>, key_file: Vec<u8> },
    /// Ask the issuer, in production or in staging, with this contact.
    LetsEncrypt { contact: Vec<u8>, production: bool },
}

/// The mathematical content of a [`CertPlan`].
pub enum CertPlanView {
    Manual { cert_file: Seq<u8>, key_file: Seq<u8> },
    LetsEncrypt { contact: Seq<u8>, production: bool },
}

impl View for CertPlan {
    type V = CertPlanView;

    open spec fn view(&self) -> CertPlanView {
        match *self {
            CertPlan::Manual { cert_file, key_file } => CertPlanView::Manual {
                cert_file: cert_file@,
                key_file: key_file@,
            },
            CertPlan::LetsEncrypt { contact, production } => CertPlanView::LetsEncrypt {
                contact: contact@,
                production,
            },
        }
    }
}

impl CertPlan {
    /// The acceptor that the hub serves TLS with under this plan.
    pub fn acceptor(&self) -> (a: TlsAcceptor)
        ensures
            a == match self@ {
                CertPlanView::Manual { .. } => TlsAcceptor::Manual,
                CertPlanView::LetsEncrypt { .. } => TlsAcceptor::LetsEncrypt,
            },
    {
        match self {
            CertPlan::Manual { .. } => TlsAcceptor::Manual,
            CertPlan::LetsEncrypt { .. } => TlsAcceptor::LetsEncrypt,
        }
    }
}

/// The plan for a certificate mode, given the host name with its unsafe
/// characters taken out.
pub open spec fn spec_cert_plan(
    mode: CertMode,
    keyname: Seq<u8>,
    contact: Seq<u8>,
    production: bool,
) -> CertPlanView {
    match mode {
        CertMode::Manual => CertPlanView::Manual {
            cert_file: keyname + text(CERT_EXTENSION),
            key_file: keyname + text(KEY_EXTENSION),
        },
        CertMode::LetsEncrypt => CertPlanView::LetsEncrypt {
            contact: text(CONTACT_SCHEME) + contact,
            production,
        },
    }
}

/// Makes the plan from the escaped host name.
pub fn cert_plan(mode: CertMode, keyname: &[u8], contact: &[u8], production: bool) -> (r: CertPlan)
    ensures
        r@ == spec_cert_plan(mode, keyname@, contact@, production),
{
    match mode {
        CertMode::Manual => {
            let mut cert_file: Vec<u8> = Vec::new();
            append_bytes(&mut cert_file, keyname);
            append_bytes(&mut cert_file, CERT_EXTENSION.as_bytes());
            let mut key_file: Vec<u8> = Vec::new();
            append_bytes(&mut key_file, keyname);
            append_bytes(&mut key_file, KEY_EXTENSION.as_bytes());
            assert(cert_file@ =~= keyname@ + text(CERT_EXTENSION));
            assert(key_file@ =~= keyname@ + text(KEY_EXTENSION));
            CertPlan::Manual { cert_file, key_file }
        },
        CertMode::LetsEncrypt => {
            let mut uri = text_bytes(CONTACT_SCHEME);
            append_bytes(&mut uri, contact);
            CertPlan::LetsEncrypt { contact: uri, production }
        },
    }
}

/// Plans how the hub gets its certificate: by hand, from the files named
/// after the escaped host name, or from the issuer.
pub fn gen_server_config(mode: CertMode, hostname: &str, contact: &str, is_production: bool) -> (r:
    CertPlan)
    ensures
        r@ == spec_cert_plan(
            mode,
            vstd::utf8::encode_utf8(
                regex_replace_all(UNSAFE_HOSTNAME_CHARACTERS@, hostname@, ""@),
            ),
            text(contact),
            is_production,
        ),
{
    match mode {
        CertMode::LetsEncrypt => cert_plan(mode, "".as_bytes(), contact.as_bytes(), is_production),
        CertMode::Manual => {
            let keyname = escape_hostname(hostname);
            cert_plan(mode, keyname.as_str().as_bytes(), contact.as_bytes(), is_production)
        },
    }
}

/// The kinds of item in a PEM file.
#[derive(Clone, Copy, Debug, PartialEq, Eq, Structural)]
pub enum PemItem {
    Certificate,
    RsaKey,
    Pkcs8Key,
    EcKey,
    /// Anything else, such as a revocation list.
    Other,
}

impl PemItem {
    /// The three kinds of private key.
    pub open spec fn is_private_key(self) -> bool {
        self is RsaKey || self is Pkcs8Key || self is EcKey
    }
}

/// The place of the first private key among the items of a key file. Items
/// of other kinds are passed over; `None` means that the file holds no
/// private key.
pub fn load_private_key(items: &[PemItem]) -> (r: Option<usize>)
    ensures
        match r {
            Some(i) => {
                &&& i < items@.len()
                &&& items@[i as int].is_private_key()
                &&& forall|j: int| 0 <= j < i ==> !(#[trigger] items@[j]).is_private_key()
            },
            None => forall|j: int| 0 <= j < items@.len() ==> !(#[trigger] items@[j]).is_private_key(),
        },
{
    let mut i: usize = 0;
    while i < items.len()
        invariant
            i <= items.len(),
            forall|j: int| 0 <= j < i ==> !(#[trigger] items@[j]).is_private_key(),
        decreases items.len() - i,
    {
        match items[i] {
            PemItem::RsaKey => {
                return Some(i);
            },
            PemItem::Pkcs8Key => {
                return Some(i);
            },
            PemItem::EcKey => {
                return Some(i);
            },
            _ => {},
        }
        i = i + 1;
    }
    None
}

} // verus!
