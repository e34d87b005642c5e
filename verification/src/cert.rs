//! Certificate bundles: where they are persisted, when they are reused and
//! when they are renewed.

use vstd::prelude::*;

verus! {

/// Number of days before expiry at which a certificate is renewed.
pub const RENEWAL_PERIOD_DAYS: i32 = 7;

pub const CERT_FILENAME: &'static str = ".spiderbutter/certificate_chain.pem";

pub const STAGING_CERT_FILENAME: &'static str = ".spiderbutter/staging_certificate_chain.pem";

pub const INTERMEDIATE_CERT_FILENAME: &'static str = ".spiderbutter/intermediate_cert.pem";

pub const STAGING_INTERMEDIATE_CERT_FILENAME: &'static str =
    ".spiderbutter/staging_intermediate_cert.pem";

pub const PRIV_CERT_FILENAME: &'static str = ".spiderbutter/private_key.pem";

pub const STAGING_PRIV_CERT_FILENAME: &'static str = ".spiderbutter/staging_private_key.pem";

/// Where the certificate chain is persisted. Staging and production
/// issuance never share a file.
pub fn certificate_filename(staging: bool) -> (name: &'static str)
    ensures
        name@ == if staging {
            STAGING_CERT_FILENAME@
        } else {
            CERT_FILENAME@
        },
{
    if staging {
        STAGING_CERT_FILENAME
    } else {
        CERT_FILENAME
    }
}

/// Where the intermediate certificate is persisted.
pub fn intermediate_cert_filename(staging: bool) -> (name: &'static str)
    ensures
        name@ == if staging {
            STAGING_INTERMEDIATE_CERT_FILENAME@
        } else {
            INTERMEDIATE_CERT_FILENAME@
        },
{
    if staging {
        STAGING_INTERMEDIATE_CERT_FILENAME
    } else {
        INTERMEDIATE_CERT_FILENAME
    }
}

/// Where the private key is persisted.
pub fn private_key_filename(staging: bool) -> (name: &'static str)
    ensures
        name@ == if staging {
            STAGING_PRIV_CERT_FILENAME@
        } else {
            PRIV_CERT_FILENAME@
        },
{
    if staging {
        STAGING_PRIV_CERT_FILENAME
    } else {
        PRIV_CERT_FILENAME
    }
}

/// Why no certificate bundle came out.
#[derive(Clone, Copy, Debug, PartialEq, Eq, Structural)]
pub enum CertError {
    /// One of the three PEM texts holds no section of the kind it is read
    /// for, or one that does not decode.
    Malformed,
    /// The certificate is within the renewal period or past its expiry.
    Expired,
}

/// The DER contents of the `CERTIFICATE` sections of the PEM text `pem`, in
/// order, as rustls reads them; `None` where a section does not decode.
pub uninterp spec fn pem_certificates(pem: Seq<u8>) -> Option<Seq<Seq<u8>>>;

/// The DER contents of the `PRIVATE KEY` sections of the PEM text `pem`, in
/// order, as rustls reads them; `None` where a section does not decode.
pub uninterp spec fn pem_private_keys(pem: Seq<u8>) -> Option<Seq<Seq<u8>>>;

/// The bytes of each section.
pub open spec fn sections_view(sections: Option<Vec<Vec<u8>>>) -> Option<Seq<Seq<u8>>> {
    match sections {
        Some(list) => Some(list.deep_view()),
        None => None,
    }
}

/// Calls `rustls::internal::pemfile::certs` on `pem`. It reads the text line
/// by line and decodes what stands between the `CERTIFICATE` markers; what
/// it returns depends on `pem` alone and is named `pem_certificates`.
#[verifier::external_body]
fn decode_certificates(pem: &[u8]) -> (sections: Option<Vec<Vec<u8>>>)
    ensures
        sections_view(sections) == pem_certificates(pem@),
{
    let mut reader = pem;
    match rustls::internal::pemfile::certs(&mut reader) {
        Ok(found) => Some(found.into_iter().map(|c| c.0).collect()),
        Err(()) => None,
    }
}

/// Calls `rustls::internal::pemfile::pkcs8_private_keys` on `pem`. It reads
/// the text line by line and decodes what stands between the `PRIVATE KEY`
/// markers; what it returns depends on `pem` alone and is named
/// `pem_private_keys`.
#[verifier::external_body]
fn decode_private_keys(pem: &[u8]) -> (sections: Option<Vec<Vec<u8>>>)
    ensures
        sections_view(sections) == pem_private_keys(pem@),
{
    let mut reader = pem;
    match rustls::internal::pemfile::pkcs8_private_keys(&mut reader) {
        Ok(found) => Some(found.into_iter().map(|k| k.0).collect()),
        Err(()) => None,
    }
}

/// Whether `sections` decoded and holds at least one section.
pub open spec fn some_section(sections: Option<Seq<Seq<u8>>>) -> bool {
    sections matches Some(list) && list.len() > 0
}

/// What a bundle holds.
pub struct CertificateView {
    /// The certificate, as PEM text.
    pub certificate: Seq<u8>,
    /// The intermediate certificate, as PEM text.
    pub intermediate: Seq<u8>,
    /// The PKCS#8 private key, as PEM text.
    pub private_key: Seq<u8>,
    /// Days until the certificate expires, counted when the bundle was made.
    pub days_till_expiry: i32,
}

impl CertificateView {
    /// Whether each of the three texts holds what it is read for: at least
    /// one certificate, at least one intermediate certificate, at least one
    /// PKCS#8 private key.
    pub open spec fn decodes(self) -> bool {
        &&& some_section(pem_certificates(self.certificate))
        &&& some_section(pem_certificates(self.intermediate))
        &&& some_section(pem_private_keys(self.private_key))
    }

    /// The certificate chain for the TLS listener: the certificates of the
    /// bundle followed by its intermediate certificates, each as DER.
    pub open spec fn chain(self) -> Seq<Seq<u8>> {
        pem_certificates(self.certificate)->0 + pem_certificates(self.intermediate)->0
    }

    /// The private key for the TLS listener: the first key of the bundle,
    /// as DER.
    pub open spec fn key(self) -> Seq<u8> {
        pem_private_keys(self.private_key)->0[0]
    }
}

/// A certificate, its intermediate certificate and its private key. The
/// three are swapped as one and never changed; each decodes.
#[derive(Debug)]
pub struct Certificate {
    public_cert: Vec<u8>,
    intermediate_cert: Vec<u8>,
    private_key: Vec<u8>,
    days_till_expiry: i32,
}

impl View for Certificate {
    type V = CertificateView;

    closed spec fn view(&self) -> CertificateView {
        CertificateView {
            certificate: self.public_cert@,
            intermediate: self.intermediate_cert@,
            private_key: self.private_key@,
            days_till_expiry: self.days_till_expiry,
        }
    }
}

/// What the TLS listener is configured with: the chain and the key, as DER.
#[derive(Debug)]
pub struct TlsMaterial {
    pub chain: Vec<Vec<u8>>,
    pub key: Vec<u8>,
}

/// Whether `sections` decoded and holds at least one section.
fn has_section(sections: &Option<Vec<Vec<u8>>>) -> (b: bool)
    ensures
        b == some_section(sections_view(*sections)),
{
    match sections {
        Some(list) => list.len() > 0,
        None => false,
    }
}

impl Certificate {
    #[verifier::type_invariant]
    spec fn each_part_decodes(self) -> bool {
        self@.decodes()
    }

    /// The bundle that an issuance ended with: the three PEM texts, and the
    /// days until the certificate expires. It is refused where a text does
    /// not decode.
    pub fn from_signed(
        certificate: Vec<u8>,
        intermediate: Vec<u8>,
        private_key: Vec<u8>,
        days_till_expiry: i32,
    ) -> (r: Result<Certificate, CertError>)
        ensures
            match r {
                Ok(bundle) => bundle@ == (CertificateView {
                    certificate: certificate@,
                    intermediate: intermediate@,
                    private_key: private_key@,
                    days_till_expiry,
                }) && bundle@.decodes(),
                Err(e) => e == CertError::Malformed && !(CertificateView {
                    certificate: certificate@,
                    intermediate: intermediate@,
                    private_key: private_key@,
                    days_till_expiry,
                }).decodes(),
            },
    {
        let certs = decode_certificates(certificate.as_slice());
        let intermediates = decode_certificates(intermediate.as_slice());
        let keys = decode_private_keys(private_key.as_slice());
        if has_section(&certs) && has_section(&intermediates) && has_section(&keys) {
            Ok(
                Certificate {
                    public_cert: certificate,
                    intermediate_cert: intermediate,
                    private_key,
                    days_till_expiry,
                },
            )
        } else {
            Err(CertError::Malformed)
        }
    }

    /// The bundle that three persisted PEM texts make, with the days until
    /// the certificate expires. It is refused where a text does not decode.
    pub fn from_pem(
        cert_raw: &[u8],
        intermediate_raw: &[u8],
        priv_raw: &[u8],
        days_till_expiry: i32,
    ) -> (r: Result<Certificate, CertError>)
        ensures
            match r {
                Ok(bundle) => bundle@ == (CertificateView {
                    certificate: cert_raw@,
                    intermediate: intermediate_raw@,
                    private_key: priv_raw@,
                    days_till_expiry,
                }) && bundle@.decodes(),
                Err(e) => e == CertError::Malformed && !(CertificateView {
                    certificate: cert_raw@,
                    intermediate: intermediate_raw@,
                    private_key: priv_raw@,
                    days_till_expiry,
                }).decodes(),
            },
    {
        Certificate::from_signed(
            vstd::slice::slice_to_vec(cert_raw),
            vstd::slice::slice_to_vec(intermediate_raw),
            vstd::slice::slice_to_vec(priv_raw),
            days_till_expiry,
        )
    }

    /// Days until the certificate expires, counted when the bundle was made.
    pub fn days_till_expiry(&self) -> (days: i32)
        ensures
            days == self@.days_till_expiry,
    {
        self.days_till_expiry
    }

    /// The certificate, as PEM text.
    pub fn certificate(&self) -> (pem: &[u8])
        ensures
            pem@ == self@.certificate,
    {
        self.public_cert.as_slice()
    }

    /// The intermediate certificate, as PEM text.
    pub fn intermediate(&self) -> (pem: &[u8])
        ensures
            pem@ == self@.intermediate,
    {
        self.intermediate_cert.as_slice()
    }

    /// The private key, as PEM text.
    pub fn private_key(&self) -> (pem: &[u8])
        ensures
            pem@ == self@.private_key,
    {
        self.private_key.as_slice()
    }

    /// The chain and the key that the TLS listener is configured with.
    pub fn tls_material(&self) -> (material: TlsMaterial)
        ensures
            self@.decodes(),
            material.chain.deep_view() == self@.chain(),
            material.key@ == self@.key(),
    {
        proof {
            use_type_invariant(self);
        }
        let mut chain = match decode_certificates(self.public_cert.as_slice()) {
            Some(list) => list,
            None => Vec::new(),
        };
        let mut intermediates = match decode_certificates(self.intermediate_cert.as_slice()) {
            Some(list) => list,
            None => Vec::new(),
        };
        let mut keys = match decode_private_keys(self.private_key.as_slice()) {
            Some(list) => list,
            None => Vec::new(),
        };
        chain.append(&mut intermediates);
        let key = keys.swap_remove(0);
        TlsMaterial { chain, key }
    }
}

/// What reading a persisted bundle gives: `Malformed` where a text does not
/// decode, `Expired` where the certificate expires within the renewal
/// period, and else the bundle.
pub open spec fn loaded(bundle: CertificateView) -> Result<CertificateView, CertError> {
    if !bundle.decodes() {
        Err(CertError::Malformed)
    } else if bundle.days_till_expiry <= RENEWAL_PERIOD_DAYS {
        Err(CertError::Expired)
    } else {
        Ok(bundle)
    }
}

/// The bundle in `r`, where there is one.
pub open spec fn bundle_view(r: Result<Certificate, CertError>) -> Result<
    CertificateView,
    CertError,
> {
    match r {
        Ok(bundle) => Ok(bundle@),
        Err(e) => Err(e),
    }
}

/// Makes a bundle of three persisted PEM texts, unless the certificate
/// expires within the renewal period.
pub fn load_certificate_from(
    cert_raw: &[u8],
    intermediate_raw: &[u8],
    priv_raw: &[u8],
    days_till_expiry: i32,
) -> (r: Result<Certificate, CertError>)
    ensures
        bundle_view(r) == loaded(
            CertificateView {
                certificate: cert_raw@,
                intermediate: intermediate_raw@,
                private_key: priv_raw@,
                days_till_expiry,
            },
        ),
{
    let bundle = Certificate::from_pem(cert_raw, intermediate_raw, priv_raw, days_till_expiry)?;
    if days_till_expiry <= RENEWAL_PERIOD_DAYS {
        return Err(CertError::Expired);
    }
    Ok(bundle)
}

/// Hours from now until the renewal period of a certificate begins that
/// expires in `days_till_expiry` days; none where it has begun.
pub open spec fn renewal_wait_hours(days_till_expiry: i32) -> int {
    if days_till_expiry > RENEWAL_PERIOD_DAYS {
        (days_till_expiry - RENEWAL_PERIOD_DAYS) * 24
    } else {
        0
    }
}

/// Hours to sleep before a certificate that expires in `days_till_expiry`
/// days is renewed.
pub fn hours_until_renewal(days_till_expiry: i32) -> (hours: u64)
    requires
        days_till_expiry > 0,
    ensures
        hours == renewal_wait_hours(days_till_expiry),
{
    if days_till_expiry > RENEWAL_PERIOD_DAYS {
        let days: u64 = (days_till_expiry - RENEWAL_PERIOD_DAYS) as u64;
        days * 24
    } else {
        0
    }
}

/// What was read from the three files of a persisted bundle, with the days
/// until its certificate expires.
#[derive(Debug)]
pub struct Persisted {
    pub certificate: Vec<u8>,
    pub intermediate: Vec<u8>,
    pub private_key: Vec<u8>,
    pub days_till_expiry: i32,
}

impl View for Persisted {
    type V = CertificateView;

    open spec fn view(&self) -> CertificateView {
        CertificateView {
            certificate: self.certificate@,
            intermediate: self.intermediate@,
            private_key: self.private_key@,
            days_till_expiry: self.days_till_expiry,
        }
    }
}

/// How a certificate is come by.
pub enum AcquisitionView {
    Reuse(CertificateView),
    Issue,
}

/// How a certificate is come by.
#[derive(Debug)]
pub enum Acquisition {
    /// The persisted bundle is used as it is; the ACME service is not
    /// contacted.
    Reuse(Certificate),
    /// A certificate has to be issued.
    Issue,
}

impl View for Acquisition {
    type V = AcquisitionView;

    open spec fn view(&self) -> AcquisitionView {
        match self {
            Acquisition::Reuse(bundle) => AcquisitionView::Reuse(bundle@),
            Acquisition::Issue => AcquisitionView::Issue,
        }
    }
}

/// How a certificate is come by when reading the persisted bundle gave
/// `persisted`: the bundle is reused where it loads, and else a certificate
/// is issued.
pub open spec fn acquired(persisted: Option<CertificateView>) -> AcquisitionView {
    match persisted {
        Some(bundle) => match loaded(bundle) {
            Ok(bundle) => AcquisitionView::Reuse(bundle),
            Err(_) => AcquisitionView::Issue,
        },
        None => AcquisitionView::Issue,
    }
}

/// Decides whether the persisted bundle is reused or a certificate is
/// issued. `persisted` is what reading the bundle's files gave, `None`
/// where one of them could not be read.
pub fn acquire_certificate(persisted: Option<Persisted>) -> (acquisition: Acquisition)
    ensures
        acquisition@ == acquired(
            match persisted {
                Some(bundle) => Some(bundle@),
                None => None,
            },
        ),
{
    match persisted {
        Some(bundle) => {
            match load_certificate_from(
                bundle.certificate.as_slice(),
                bundle.intermediate.as_slice(),
                bundle.private_key.as_slice(),
                bundle.days_till_expiry,
            ) {
                Ok(bundle) => Acquisition::Reuse(bundle),
                Err(_) => Acquisition::Issue,
            }
        },
        None => Acquisition::Issue,
    }
}

/// A persisted bundle whose texts decode is reused exactly if its
/// certificate expires in more days than the renewal period has; within
/// the renewal period loading it fails with `Expired` and a certificate is
/// issued.
pub proof fn lemma_renewal_threshold(bundle: CertificateView)
    requires
        bundle.decodes(),
    ensures
        bundle.days_till_expiry <= RENEWAL_PERIOD_DAYS ==> loaded(bundle) == Err::<
            CertificateView,
            CertError,
        >(CertError::Expired) && acquired(Some(bundle)) == AcquisitionView::Issue,
        bundle.days_till_expiry > RENEWAL_PERIOD_DAYS ==> loaded(bundle) == Ok::<
            CertificateView,
            CertError,
        >(bundle) && acquired(Some(bundle)) == AcquisitionView::Reuse(bundle),
{
}

} // verus!
