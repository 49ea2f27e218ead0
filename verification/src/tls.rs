//! The certificate that the server shows: browsers decode media only on pages that came over HTTPS.

use crate::ffmpeg::texts;
use crate::text;
use vstd::prelude::*;

verus! {

/// The file of the certificate.
pub const CERT_FILE: &'static str = "cert.pem";

/// The file of the key.
pub const KEY_FILE: &'static str = "key.pem";

/// The directory of the two files.
pub const DIRECTORY: &'static str = "Newfoundsync";

/// What is said when no certificate can be made.
pub const NO_CERTIFICATE: &'static str = "generate self-signed certificate";

/// What the directory of the certificate lies below.
#[derive(Clone, Copy, Debug, PartialEq, Eq, Structural)]
pub enum CertBase {
    /// `LOCALAPPDATA`.
    LocalAppData,
    /// `XDG_DATA_HOME`.
    XdgDataHome,
    /// `.local/share` below `HOME`.
    HomeShare,
    /// The directory for temporary files.
    Temporary,
}

/// What the directory of the certificate lies below.
pub open spec fn base_of(local_app_data: bool, xdg_data_home: bool, home: bool) -> CertBase {
    if local_app_data {
        CertBase::LocalAppData
    } else if xdg_data_home {
        CertBase::XdgDataHome
    } else if home {
        CertBase::HomeShare
    } else {
        CertBase::Temporary
    }
}

/// What the directory of the certificate lies below, given which environment variables are set.
pub fn cert_base(local_app_data: bool, xdg_data_home: bool, home: bool) -> (r: CertBase)
    ensures
        r == base_of(local_app_data, xdg_data_home, home),
{
    if local_app_data {
        CertBase::LocalAppData
    } else if xdg_data_home {
        CertBase::XdgDataHome
    } else if home {
        CertBase::HomeShare
    } else {
        CertBase::Temporary
    }
}

/// The names that the certificate is made for: this machine by itself, by its address in the local
/// network, and by its host name.
pub open spec fn names_for(ip: Option<Seq<char>>, host: Option<Seq<char>>) -> Seq<Seq<char>> {
    let own = seq!["localhost"@, "127.0.0.1"@];
    let with_ip = match ip {
        Some(a) => own.push(a),
        None => own,
    };
    match host {
        Some(h) => if h.len() > 0 {
            with_ip.push(h).push(h + ".local"@)
        } else {
            with_ip
        },
        None => with_ip,
    }
}

/// The text of an optional string.
pub open spec fn text_of(s: Option<&str>) -> Option<Seq<char>> {
    match s {
        Some(t) => Some(t@),
        None => None,
    }
}

fn push_name(v: &mut Vec<String>, s: &str)
    ensures
        texts(final(v)@) == texts(old(v)@).push(s@),
{
    v.push(s.to_string());
    assert(texts(v@) =~= texts(old(v)@).push(s@));
}

/// The names that the certificate is made for.
pub fn subject_names(ip: Option<&str>, host: Option<&str>) -> (v: Vec<String>)
    ensures
        texts(v@) == names_for(text_of(ip), text_of(host)),
{
    let mut v: Vec<String> = Vec::new();
    push_name(&mut v, "localhost");
    push_name(&mut v, "127.0.0.1");
    assert(texts(v@) =~= seq!["localhost"@, "127.0.0.1"@]);
    match ip {
        Some(a) => {
            push_name(&mut v, a);
        },
        None => {},
    }
    match host {
        Some(h) => {
            if text::chars_of(h).len() > 0 {
                push_name(&mut v, h);
                let mut local = h.to_string();
                local.append(".local");
                push_name(&mut v, local.as_str());
            }
        },
        None => {},
    }
    v
}

/// The certificate is made for this machine by itself, whatever else is known of it.
pub proof fn law_local_names_are_served(ip: Option<Seq<char>>, host: Option<Seq<char>>)
    ensures
        names_for(ip, host)[0] == "localhost"@,
        names_for(ip, host)[1] == "127.0.0.1"@,
        ip matches Some(a) ==> names_for(ip, host)[2] == a,
{
}

/// A certificate and its key, in PEM.
pub struct CertPair {
    /// The certificate.
    pub cert: Vec<u8>,
    /// The key.
    pub key: Vec<u8>,
}

/// Whether a certificate and a key can be used again.
pub open spec fn is_usable(cert: Seq<u8>, key: Seq<u8>) -> bool {
    cert.len() > 0 && key.len() > 0
}

/// The certificate and key that were saved, if both were and neither is empty.
pub fn saved_pair(cert: Option<Vec<u8>>, key: Option<Vec<u8>>) -> (r: Option<CertPair>)
    ensures
        match r {
            Some(p) => cert matches Some(c) && key matches Some(k) && p.cert == c && p.key == k
                && is_usable(c@, k@),
            None => !(cert matches Some(c) && key matches Some(k) && is_usable(c@, k@)),
        },
{
    match (cert, key) {
        (Some(c), Some(k)) => {
            if c.len() > 0 && k.len() > 0 {
                Some(CertPair { cert: c, key: k })
            } else {
                None
            }
        },
        _ => None,
    }
}

/// Why `rcgen` made no certificate.
#[verifier::external_type_specification]
#[verifier::external_body]
pub struct ExRcgenError(rcgen::Error);

/// Whether every character of every text is in ASCII.
pub open spec fn all_ascii(s: Seq<Seq<char>>) -> bool {
    forall|i: int, j: int|
        0 <= i < s.len() && 0 <= j < s[i].len() ==> #[trigger] s[i][j] <= '\u{7F}'
}

/// Whether a certificate was issued by `rcgen::generate_simple_self_signed` for these subject
/// names.
pub uninterp spec fn issued_for(cert: Seq<u8>, names: Seq<Seq<char>>) -> bool;

/// `rcgen::generate_simple_self_signed`, with the certificate and the key written out by
/// `Certificate::pem` and `KeyPair::serialize_pem`: makes a new key and a certificate for these
/// names that is signed with it. A name outside ASCII is refused, and neither text is ever empty.
/// The key is drawn at random, so of what the two hold only the names are said.
#[verifier::external_body]
fn self_signed(names: Vec<String>) -> (r: Result<CertPair, rcgen::Error>)
    ensures
        r is Ok ==> all_ascii(texts(names@)),
        r matches Ok(p) ==> is_usable(p.cert@, p.key@) && issued_for(p.cert@, texts(names@)),
{
    let made = rcgen::generate_simple_self_signed(names)?;
    Ok(
        CertPair {
            cert: made.cert.pem().into_bytes(),
            key: made.signing_key.serialize_pem().into_bytes(),
        },
    )
}

/// Where a certificate came from.
pub enum CertSource {
    /// It was saved before.
    Saved(CertPair),
    /// It was made now, and is to be saved.
    Made(CertPair),
}

/// The certificate that was saved, or a new one for the names of this machine.
pub fn load_or_create_cert(
    cert: Option<Vec<u8>>,
    key: Option<Vec<u8>>,
    ip: Option<&str>,
    host: Option<&str>,
) -> (r: Result<CertSource, String>)
    ensures
        match r {
            Ok(CertSource::Saved(p)) => cert matches Some(c) && key matches Some(k) && p.cert == c
                && p.key == k && is_usable(c@, k@),
            Ok(CertSource::Made(p)) => {
                &&& !(cert matches Some(c) && key matches Some(k) && is_usable(c@, k@))
                &&& all_ascii(names_for(text_of(ip), text_of(host)))
                &&& is_usable(p.cert@, p.key@)
                &&& issued_for(p.cert@, names_for(text_of(ip), text_of(host)))
            },
            Err(e) => {
                &&& !(cert matches Some(c) && key matches Some(k) && is_usable(c@, k@))
                &&& e@ == NO_CERTIFICATE@
            },
        },
        !(cert matches Some(c) && key matches Some(k) && is_usable(c@, k@)) && !all_ascii(
            names_for(text_of(ip), text_of(host)),
        ) ==> r is Err,
{
    match saved_pair(cert, key) {
        Some(p) => Ok(CertSource::Saved(p)),
        None => match self_signed(subject_names(ip, host)) {
            Ok(p) => Ok(CertSource::Made(p)),
            Err(_) => Err(NO_CERTIFICATE.to_string()),
        },
    }
}

/// A machine with a host name is served by it, and by it in the local domain; an empty one is no
/// name. Nothing else is named.
pub proof fn law_host_is_served(ip: Option<Seq<char>>, host: Seq<char>)
    ensures
        host.len() > 0 ==> names_for(ip, Some(host)).contains(host) && names_for(
            ip,
            Some(host),
        ).contains(host + ".local"@),
        names_for(ip, Some(Seq::empty())) == names_for(ip, None),
        names_for(ip, Some(host)).len() == 2 + (if ip is Some {
            1int
        } else {
            0
        }) + (if host.len() > 0 {
            2int
        } else {
            0
        }),
        names_for(None, None).len() == 2,
{
    let v = names_for(ip, Some(host));
    if host.len() > 0 {
        assert(v[v.len() - 2] == host);
        assert(v[v.len() - 1] == host + ".local"@);
    }
}

/// A certificate is used again only together with its key, and only if there is something in both.
pub proof fn law_half_a_pair_is_useless(cert: Seq<u8>, key: Seq<u8>)
    ensures
        cert.len() == 0 || key.len() == 0 ==> !is_usable(cert, key),
        cert.len() > 0 && key.len() > 0 ==> is_usable(cert, key),
{
}

/// There is always a place for the certificate: the user's own data before the home directory, and
/// the temporary one where there is neither.
pub proof fn law_certificate_place(xdg: bool, home: bool)
    ensures
        base_of(true, xdg, home) == CertBase::LocalAppData,
        base_of(false, true, home) == CertBase::XdgDataHome,
        base_of(false, false, true) == CertBase::HomeShare,
        base_of(false, false, false) == CertBase::Temporary,
{
}

} // verus!
