//! The user a client certificate names: its one e-mail address among the
//! subject alternative names, read with `x509-parser`.

use crate::auth::{
    emails, get_username_from_principal, principal_user, select_subject_alt_name, AltName,
    AltNameError, AuthError,
};
use x509_parser::extensions::{GeneralName, ParsedExtension};
use vstd::prelude::*;

verus! {

/// An extension of a certificate, as far as the user is concerned.
pub enum CertExtension {
    /// A subject alternative name extension, with its names in order.
    SubjectAltName(Vec<AltName>),
    /// Any other extension.
    Other,
}

/// A name as a value: the address of an e-mail name, nothing for another
/// kind.
pub open spec fn alt_view(a: AltName) -> Option<Seq<char>> {
    match a {
        AltName::Email(e) => Some(e@),
        AltName::Other => None,
    }
}

/// An extension as a value: the names of a subject alternative name
/// extension, nothing for another one.
pub open spec fn ext_view(e: CertExtension) -> Option<Seq<Option<Seq<char>>>> {
    match e {
        CertExtension::SubjectAltName(v) => Some(v@.map_values(|a: AltName| alt_view(a))),
        CertExtension::Other => None,
    }
}

/// The extensions of the DER certificate `der`, in order, as values;
/// nothing when `der` does not start with a certificate.
pub uninterp spec fn der_extensions(der: Seq<u8>) -> Option<Seq<Option<Seq<Option<Seq<char>>>>>>;

/// Calls `x509_parser::parse_x509_certificate` on `der` and gives each
/// extension of the certificate, in order: the general names of a subject
/// alternative name extension (an RFC 822 name as its address, another kind
/// of name as `Other`), any other extension as `Other`. The result is
/// `der_extensions(der)`: parsing depends on the bytes alone.
#[verifier::external_body]
fn parse_certificate_extensions(der: &[u8]) -> (r: Option<Vec<CertExtension>>)
    ensures
        match der_extensions(der@) {
            None => r is None,
            Some(exts) => r matches Some(v) && v@.map_values(|e: CertExtension| ext_view(e)) == exts,
        },
{
    let (_, cert) = x509_parser::parse_x509_certificate(der).ok()?;
    Some(cert.extensions().iter().map(|ext| match ext.parsed_extension() {
        ParsedExtension::SubjectAlternativeName(san) => CertExtension::SubjectAltName(
            san.general_names.iter().map(|name| match name {
                GeneralName::RFC822Name(email) => AltName::Email(email.to_string()),
                _ => AltName::Other,
            }).collect(),
        ),
        _ => CertExtension::Other,
    }).collect())
}

/// The names of the subject alternative name extensions, in order.
pub open spec fn san_names(exts: Seq<Option<Seq<Option<Seq<char>>>>>) -> Seq<Option<Seq<char>>>
    decreases exts.len(),
{
    if exts.len() == 0 {
        Seq::empty()
    } else {
        san_names(exts.drop_last()) + match exts.last() {
            Some(names) => names,
            None => Seq::empty(),
        }
    }
}

/// The addresses among `names`, in order.
pub open spec fn view_emails(names: Seq<Option<Seq<char>>>) -> Seq<Seq<char>>
    decreases names.len(),
{
    if names.len() == 0 {
        Seq::empty()
    } else {
        view_emails(names.drop_last()) + match names.last() {
            Some(e) => seq![e],
            None => Seq::empty(),
        }
    }
}

proof fn lemma_emails_view(s: Seq<AltName>)
    ensures
        emails(s) == view_emails(s.map_values(|a: AltName| alt_view(a))),
    decreases s.len(),
{
    if s.len() > 0 {
        lemma_emails_view(s.drop_last());
        assert(s.drop_last().map_values(|a: AltName| alt_view(a)) =~= s.map_values(
            |a: AltName| alt_view(a),
        ).drop_last());
        match s.last() {
            AltName::Email(e) => {
                assert(emails(s) =~= emails(s.drop_last()).push(e@));
            },
            AltName::Other => {},
        }
    } else {
        assert(s.map_values(|a: AltName| alt_view(a)) =~= Seq::<Option<Seq<char>>>::empty());
    }
}

proof fn lemma_view_emails_append(a: Seq<Option<Seq<char>>>, b: Seq<Option<Seq<char>>>)
    ensures
        view_emails(a + b) == view_emails(a) + view_emails(b),
    decreases b.len(),
{
    if b.len() == 0 {
        assert(a + b =~= a);
        assert(view_emails(a) + view_emails(b) =~= view_emails(a));
    } else {
        lemma_view_emails_append(a, b.drop_last());
        assert((a + b).drop_last() =~= a + b.drop_last());
        assert((a + b).last() == b.last());
        let t = match b.last() {
            Some(e) => seq![e],
            None => Seq::<Seq<char>>::empty(),
        };
        assert(view_emails(a) + view_emails(b.drop_last()) + t =~= view_emails(a) + (view_emails(
            b.drop_last(),
        ) + t));
    }
}

/// Why no user is read from a client certificate.
#[derive(Debug, Clone, Copy, PartialEq, Eq)]
pub enum CertError {
    /// The bytes are not a certificate.
    Parse,
    /// The certificate has no e-mail name, or more than one.
    AltName(AltNameError),
}

fn copy_alt_name(a: &AltName) -> (b: AltName)
    ensures
        alt_view(b) == alt_view(*a),
{
    match a {
        AltName::Email(e) => AltName::Email(e.clone()),
        AltName::Other => AltName::Other,
    }
}

/// The principal a DER client certificate carries: its one e-mail address
/// among the names of its subject alternative name extensions.
pub fn get_subj_alt_names(der: &[u8]) -> (res: Result<String, CertError>)
    ensures
        der_extensions(der@) is None ==> res == Err::<String, CertError>(CertError::Parse),
        der_extensions(der@) matches Some(exts) ==> {
            let found = view_emails(san_names(exts));
            &&& found.len() == 0 ==> res == Err::<String, CertError>(
                CertError::AltName(AltNameError::Missing),
            )
            &&& found.len() > 1 ==> res == Err::<String, CertError>(
                CertError::AltName(AltNameError::Multiple),
            )
            &&& found.len() == 1 ==> (res matches Ok(e) && e@ == found[0])
        },
{
    let exts = match parse_certificate_extensions(der) {
        Some(exts) => exts,
        None => {
            return Err(CertError::Parse);
        },
    };
    let ghost ev = exts@.map_values(|e: CertExtension| ext_view(e));
    let mut names: Vec<AltName> = Vec::new();
    let mut i: usize = 0;
    assert(ev.subrange(0, 0).len() == 0);
    assert(san_names(ev.subrange(0, 0)) == Seq::<Option<Seq<char>>>::empty());
    proof {
        let m = names@.map_values(|a: AltName| alt_view(a));
        assert(m.len() == 0);
        assert(m =~= Seq::<Option<Seq<char>>>::empty());
    }
    while i < exts.len()
        invariant
            i <= exts@.len(),
            ev == exts@.map_values(|e: CertExtension| ext_view(e)),
            names@.map_values(|a: AltName| alt_view(a)) == san_names(ev.subrange(0, i as int)),
        decreases exts@.len() - i,
    {
        let ghost before = names@.map_values(|a: AltName| alt_view(a));
        proof {
            assert(ev.subrange(0, i as int + 1).drop_last() =~= ev.subrange(0, i as int));
            assert(ev.subrange(0, i as int + 1).last() == ext_view(exts@[i as int]));
        }
        match &exts[i] {
            CertExtension::SubjectAltName(list) => {
                let mut k: usize = 0;
                while k < list.len()
                    invariant
                        k <= list@.len(),
                        names@.map_values(|a: AltName| alt_view(a)) == before + list@.subrange(
                            0,
                            k as int,
                        ).map_values(|a: AltName| alt_view(a)),
                    decreases list@.len() - k,
                {
                    let ghost nb = names@;
                    let c = copy_alt_name(&list[k]);
                    let ghost cv = alt_view(c);
                    names.push(c);
                    proof {
                        let f = |a: AltName| alt_view(a);
                        let lhs = names@.map_values(f);
                        let rhs = before + list@.subrange(0, k as int + 1).map_values(f);
                        assert(nb.map_values(f) == before + list@.subrange(0, k as int).map_values(f));
                        assert(nb.map_values(f).len() == nb.len());
                        assert(names@ == nb.push(c));
                        assert(names@.len() == nb.len() + 1);
                        assert(list@.subrange(0, k as int).map_values(f).len() == k);
                        assert(list@.subrange(0, k as int + 1).map_values(f).len() == k + 1);
                        assert(lhs.len() == rhs.len());
                        assert forall|j: int| 0 <= j < lhs.len() implies lhs[j] == rhs[j] by {
                            if j < nb.len() {
                                assert(names@[j] == nb[j]);
                                assert(lhs[j] == nb.map_values(f)[j]);
                                if j >= before.len() {
                                    assert(list@.subrange(0, k as int + 1)[j - before.len()] == list@.subrange(
                                        0,
                                        k as int,
                                    )[j - before.len()]);
                                }
                            } else {
                                assert(lhs[j] == cv);
                                assert(rhs[j] == f(list@[k as int]));
                            }
                        }
                        assert(lhs =~= rhs);
                    }
                    k = k + 1;
                }
                assert(list@.subrange(0, list@.len() as int) =~= list@);
            },
            CertExtension::Other => {
                assert(before + Seq::<Option<Seq<char>>>::empty() =~= before);
            },
        }
        i = i + 1;
    }
    assert(ev.subrange(0, exts@.len() as int) =~= ev);
    proof {
        lemma_emails_view(names@);
    }
    match select_subject_alt_name(names.as_slice()) {
        Ok(e) => Ok(e),
        Err(e) => Err(CertError::AltName(e)),
    }
}

/// Why a client is refused by its certificate.
#[derive(Debug, Clone, Copy, PartialEq, Eq)]
pub enum ClientCertError {
    /// No principal is read from the certificate.
    Certificate(CertError),
    /// The principal belongs to none of the allowed domains.
    Realm(AuthError),
}

/// The user a client certificate authenticates: the principal it carries,
/// stripped of one of the allowed domains.
pub fn certificate_user(der: &[u8], allowed_client_domains: &[String]) -> (res: Result<
    String,
    ClientCertError,
>)
    ensures
        der_extensions(der@) is None ==> res == Err::<String, ClientCertError>(
            ClientCertError::Certificate(CertError::Parse),
        ),
        der_extensions(der@) matches Some(exts) ==> {
            let found = view_emails(san_names(exts));
            &&& found.len() == 0 ==> res == Err::<String, ClientCertError>(
                ClientCertError::Certificate(CertError::AltName(AltNameError::Missing)),
            )
            &&& found.len() > 1 ==> res == Err::<String, ClientCertError>(
                ClientCertError::Certificate(CertError::AltName(AltNameError::Multiple)),
            )
            &&& found.len() == 1 ==> match principal_user(found[0], allowed_client_domains@) {
                Some(u) => res matches Ok(user) && user@ == u,
                None => res == Err::<String, ClientCertError>(
                    ClientCertError::Realm(AuthError::InvalidRealm),
                ),
            }
        },
{
    match get_subj_alt_names(der) {
        Ok(principal) => match get_username_from_principal(principal.as_str(), allowed_client_domains) {
            Ok(user) => Ok(user),
            Err(e) => Err(ClientCertError::Realm(e)),
        },
        Err(e) => Err(ClientCertError::Certificate(e)),
    }
}

} // verus!
