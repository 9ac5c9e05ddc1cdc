//! Certificate and key material for the encrypting connection listener.
//!
//! The encrypting listener wraps an inner listener and layers a trust
//! handshake over the inner channel. Its construction-time work is here:
//! reading DER certificates and a PKCS#8 private key out of PEM bytes and
//! refusing to build when either is missing, which is startup-fatal. The
//! sockets, the handshake itself and the reading of the files belong to
//! the surrounding runtime, which hands this module the file contents.

use vstd::prelude::*;

verus! {

/// The DER certificates that rustls-pemfile reads out of one PEM file's
/// bytes, in file order.
pub uninterp spec fn pem_certs(pem: Seq<u8>) -> Seq<Seq<u8>>;

/// The PKCS#8 private keys that rustls-pemfile reads out of one PEM
/// file's bytes, in file order.
pub uninterp spec fn pem_pkcs8_keys(pem: Seq<u8>) -> Seq<Seq<u8>>;

/// Relies on rustls_pemfile::certs: it yields the DER encoding of every
/// certificate section of the input, in order, and yields nothing for
/// empty input; sections that fail to parse are skipped.
#[verifier::external_body]
fn parse_certs_pem(pem: &[u8]) -> (r: Vec<Vec<u8>>)
    ensures
        r.deep_view() == pem_certs(pem@),
        pem@.len() == 0 ==> r@.len() == 0,
{
    let mut rd: &[u8] = pem;
    rustls_pemfile::certs(&mut rd)
        .filter_map(|item| match item {
            Ok(cert) => Some(cert.as_ref().to_vec()),
            Err(_) => None,
        })
        .collect()
}

/// Relies on rustls_pemfile::pkcs8_private_keys: it yields the DER
/// encoding of every PKCS#8 private-key section of the input, in order,
/// and yields nothing for empty input; sections that fail to parse are
/// skipped.
#[verifier::external_body]
pub fn load_private_key(pem: &Vec<u8>) -> (r: Vec<Vec<u8>>)
    ensures
        r.deep_view() == pem_pkcs8_keys(pem@),
        pem@.len() == 0 ==> r@.len() == 0,
{
    let mut rd: &[u8] = pem.as_slice();
    rustls_pemfile::pkcs8_private_keys(&mut rd)
        .filter_map(|item| match item {
            Ok(key) => Some(key.secret_pkcs8_der().to_vec()),
            Err(_) => None,
        })
        .collect()
}

/// The certificates of a list of PEM files, concatenated in file order:
/// a chain may be split over several files.
pub open spec fn certs_of_files(files: Seq<Seq<u8>>) -> Seq<Seq<u8>>
    decreases files.len(),
{
    if files.len() == 0 {
        Seq::empty()
    } else {
        pem_certs(files[0]) + certs_of_files(files.drop_first())
    }
}

proof fn lemma_certs_of_files_snoc(files: Seq<Seq<u8>>, i: int)
    requires
        0 <= i < files.len(),
    ensures
        certs_of_files(files.subrange(0, i + 1)) == certs_of_files(files.subrange(0, i))
            + pem_certs(files[i]),
    decreases i,
{
    if i == 0 {
        assert(files.subrange(0, 1)[0] == files[0]);
        assert(files.subrange(0, 1).drop_first() =~= Seq::<Seq<u8>>::empty());
        assert(certs_of_files(files.subrange(0, 1)) == pem_certs(files[0]) + certs_of_files(
            Seq::<Seq<u8>>::empty(),
        ));
        assert(certs_of_files(files.subrange(0, 0)) + pem_certs(files[0]) =~= pem_certs(
            files[0],
        ) + certs_of_files(Seq::<Seq<u8>>::empty()));
    } else {
        let f1 = files.drop_first();
        lemma_certs_of_files_snoc(f1, i - 1);
        assert(files.subrange(0, i + 1)[0] == files[0]);
        assert(files.subrange(0, i)[0] == files[0]);
        assert(files.subrange(0, i + 1).drop_first() =~= f1.subrange(0, i));
        assert(files.subrange(0, i).drop_first() =~= f1.subrange(0, i - 1));
        assert(f1[i - 1] == files[i]);
        assert(pem_certs(files[0]) + (certs_of_files(f1.subrange(0, i - 1)) + pem_certs(
            files[i],
        )) =~= (pem_certs(files[0]) + certs_of_files(f1.subrange(0, i - 1))) + pem_certs(
            files[i],
        ));
    }
}

/// Read the certificates of every given PEM file, concatenated in file
/// order.
pub fn load_certs(pem_files: &Vec<Vec<u8>>) -> (r: Vec<Vec<u8>>)
    ensures
        r.deep_view() == certs_of_files(pem_files.deep_view()),
{
    let mut out: Vec<Vec<u8>> = Vec::new();
    let mut i: usize = 0;
    proof {
        assert(pem_files.deep_view().len() == pem_files@.len());
        assert(out.deep_view() =~= Seq::<Seq<u8>>::empty());
        assert(pem_files.deep_view().subrange(0, 0) =~= Seq::<Seq<u8>>::empty());
    }
    while i < pem_files.len()
        invariant
            0 <= i <= pem_files@.len(),
            pem_files.deep_view().len() == pem_files@.len(),
            out.deep_view() == certs_of_files(pem_files.deep_view().subrange(0, i as int)),
        decreases pem_files@.len() - i,
    {
        let ghost out0 = out.deep_view();
        let mut chunk = parse_certs_pem(pem_files[i].as_slice());
        let ghost chunk0 = chunk.deep_view();
        out.append(&mut chunk);
        proof {
            assert(pem_files@[i as int]@ == pem_files.deep_view()[i as int]);
            lemma_certs_of_files_snoc(pem_files.deep_view(), i as int);
            assert(out.deep_view() =~= out0 + chunk0);
        }
        i = i + 1;
    }
    proof {
        assert(pem_files.deep_view().subrange(0, pem_files@.len() as int) =~= pem_files
            .deep_view());
    }
    out
}

/// The startup-fatal ways the encrypting listener's construction fails.
#[derive(Clone, Copy, PartialEq, Eq, Structural, Debug)]
pub enum ListenerError {
    /// No certificate was found in the configured file or files.
    NoCertificate,
    /// No private key was found in the configured file.
    NoPrivateKey,
}

/// The validated trust material of an encrypting listener: the DER
/// certificate chain and the first DER PKCS#8 private key of the key
/// file.
pub struct TlsMaterial {
    pub certs: Vec<Vec<u8>>,
    pub key: Vec<u8>,
}

/// Build the encrypting listener's trust material from the configured
/// files' bytes. Construction fails — before any connection could be
/// accepted — when the certificate files hold no certificate or the key
/// file holds no private key.
pub fn build_tls_material(cert_files: &Vec<Vec<u8>>, key_file: &Vec<u8>) -> (r: Result<
    TlsMaterial,
    ListenerError,
>)
    ensures
        (match r {
            Ok(m) => certs_of_files(cert_files.deep_view()).len() > 0 && pem_pkcs8_keys(
                key_file@,
            ).len() > 0 && m.certs.deep_view() == certs_of_files(cert_files.deep_view())
                && m.key@ == pem_pkcs8_keys(key_file@)[0],
            Err(ListenerError::NoCertificate) => certs_of_files(
                cert_files.deep_view(),
            ).len() == 0,
            Err(ListenerError::NoPrivateKey) => certs_of_files(cert_files.deep_view()).len() > 0
                && pem_pkcs8_keys(key_file@).len() == 0,
        }),
{
    let certs = load_certs(cert_files);
    if certs.len() == 0 {
        return Err(ListenerError::NoCertificate);
    }
    let mut keys = load_private_key(key_file);
    if keys.len() == 0 {
        return Err(ListenerError::NoPrivateKey);
    }
    let key = keys.remove(0);
    proof {
        assert(key@ == pem_pkcs8_keys(key_file@)[0]);
    }
    Ok(TlsMaterial { certs, key })
}

} // verus!
