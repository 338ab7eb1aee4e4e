//! TLV decoder for the certificate list carried in the CERTS cell body.
//!
//! The buffer opens with a one-byte declared count, followed by entries of
//! the form `CertType (1 byte) ++ CertLen (2 bytes, big-endian) ++ Cert
//! (CertLen bytes)`.  Decoding stops once the declared count of entries has
//! been produced or the buffer is exhausted at an entry boundary — returning
//! fewer entries than declared is tolerated, a deliberate deviation from
//! strict TLV parsing, which would demand exact consumption.  Running out of
//! bytes in the middle of an entry is an error.

use vstd::prelude::*;
use vstd::slice::slice_subrange;
use vstd::slice::slice_to_vec;

use crate::cell::CellError;
use crate::cell::spec_u16_from_be;
use crate::cell::u16_from_be_pair;

verus! {

/// One certificate entry: a type tag, the declared length, and the raw
/// certificate bytes.
#[derive(Debug, Clone, PartialEq)]
pub struct RawCert {
    pub cert_type: u8,
    pub cert_len: u16,
    pub certificate: Vec<u8>,
}

/// The mathematical shape of a certificate entry.
#[verifier::ext_equal]
pub struct CertView {
    pub cert_type: u8,
    pub cert_len: u16,
    pub certificate: Seq<u8>,
}

impl View for RawCert {
    type V = CertView;

    open spec fn view(&self) -> CertView {
        CertView { cert_type: self.cert_type, cert_len: self.cert_len, certificate: self.certificate@ }
    }
}

/// The views of a sequence of decoded entries.
pub open spec fn spec_certs_view(s: Seq<RawCert>) -> Seq<CertView> {
    s.map_values(|c: RawCert| c@)
}

/// Prefixes `p` onto the entries of a decode that succeeded; an error is left
/// as it is.
pub open spec fn spec_prepend_entries(
    p: Seq<CertView>,
    r: Result<Seq<CertView>, CellError>,
) -> Result<Seq<CertView>, CellError> {
    match r {
        Ok(s) => Ok(p + s),
        Err(e) => Err(e),
    }
}

/// What decoding up to `remaining` further entries starting at offset `i` of
/// `bytes` yields.  An exhausted buffer at an entry boundary ends the list;
/// an entry whose declared fields overrun the buffer is `TruncatedBuffer`.
pub open spec fn spec_decode_entries(
    bytes: Seq<u8>,
    i: int,
    remaining: int,
) -> Result<Seq<CertView>, CellError>
    decreases remaining,
{
    if remaining <= 0 || i >= bytes.len() {
        Ok(Seq::empty())
    } else if i + 3 > bytes.len() {
        Err(CellError::TruncatedBuffer)
    } else {
        let l = spec_u16_from_be(bytes[i + 1], bytes[i + 2]) as int;
        if i + 3 + l > bytes.len() {
            Err(CellError::TruncatedBuffer)
        } else {
            spec_prepend_entries(
                seq![
                    CertView {
                        cert_type: bytes[i],
                        cert_len: spec_u16_from_be(bytes[i + 1], bytes[i + 2]),
                        certificate: bytes.subrange(i + 3, i + 3 + l),
                    },
                ],
                spec_decode_entries(bytes, i + 3 + l, remaining - 1),
            )
        }
    }
}

/// What decoding a whole certificate list yields: the leading count byte,
/// then up to that many entries.
pub open spec fn spec_decode_certs(bytes: Seq<u8>) -> Result<Seq<CertView>, CellError> {
    if bytes.len() == 0 {
        Err(CellError::TruncatedBuffer)
    } else {
        spec_decode_entries(bytes, 1, bytes[0] as int)
    }
}

proof fn lemma_prepend_assoc(
    p: Seq<CertView>,
    q: Seq<CertView>,
    r: Result<Seq<CertView>, CellError>,
)
    ensures
        spec_prepend_entries(p, spec_prepend_entries(q, r)) == spec_prepend_entries(p + q, r),
{
    match r {
        Ok(s) => {
            assert(p + (q + s) =~= (p + q) + s);
        },
        Err(_) => {},
    }
}

impl RawCert {
    /// Builds one entry from its parts as given; the declared length is not
    /// checked against the certificate's actual size.
    pub fn new(cert_type: u8, cert_len: u16, certificate: Vec<u8>) -> (r: Self)
        ensures
            r.cert_type == cert_type,
            r.cert_len == cert_len,
            r.certificate == certificate,
    {
        Self { cert_type, cert_len, certificate }
    }

    /// Decodes a certificate list: reads the one-byte count, then entries of
    /// type, big-endian length, and that many certificate bytes, until the
    /// count is reached or the buffer ends at an entry boundary.  Fails with
    /// `TruncatedBuffer` when a declared field overruns the buffer mid-entry,
    /// or when even the count byte is missing.
    pub fn get_from_bytes(bytes: &Vec<u8>) -> (r: Result<Vec<RawCert>, CellError>)
        ensures
            r is Ok <==> spec_decode_certs(bytes@) is Ok,
            r matches Ok(certs) ==> spec_decode_certs(bytes@) == Ok::<Seq<CertView>, CellError>(
                spec_certs_view(certs@),
            ),
            r matches Err(e) ==> spec_decode_certs(bytes@) == Err::<Seq<CertView>, CellError>(e),
    {
        if bytes.len() == 0 {
            return Err(CellError::TruncatedBuffer);
        }
        let numbers_of_certs: u8 = bytes[0];
        let mut certs: Vec<RawCert> = Vec::new();
        let mut i: usize = 1;
        let mut certs_num: u8 = 0;
        proof {
            assert(spec_certs_view(certs@) =~= Seq::<CertView>::empty());
            match spec_decode_entries(bytes@, 1, numbers_of_certs as int) {
                Ok(s) => {
                    assert(Seq::<CertView>::empty() + s =~= s);
                },
                Err(_) => {},
            }
        }
        while i < bytes.len() && certs_num < numbers_of_certs
            invariant
                1 <= i <= bytes@.len(),
                certs_num <= numbers_of_certs,
                bytes@.len() >= 1,
                numbers_of_certs == bytes@[0],
                certs@.len() == certs_num,
                spec_decode_certs(bytes@) == spec_prepend_entries(
                    spec_certs_view(certs@),
                    spec_decode_entries(bytes@, i as int, numbers_of_certs - certs_num),
                ),
            decreases numbers_of_certs - certs_num,
        {
            let ghost views = spec_certs_view(certs@);
            let ghost rem = numbers_of_certs - certs_num;
            let cert_type: u8 = bytes[i];
            if bytes.len() - i < 3 {
                return Err(CellError::TruncatedBuffer);
            }
            let cert_len: u16 = u16_from_be_pair(bytes[i + 1], bytes[i + 2]);
            if bytes.len() - (i + 3) < cert_len as usize {
                return Err(CellError::TruncatedBuffer);
            }
            let certificate: Vec<u8> = slice_to_vec(
                slice_subrange(bytes.as_slice(), i + 3, i + 3 + cert_len as usize),
            );
            let ghost entry = CertView {
                cert_type: bytes@[i as int],
                cert_len: spec_u16_from_be(bytes@[i as int + 1], bytes@[i as int + 2]),
                certificate: bytes@.subrange(i as int + 3, i as int + 3 + cert_len as int),
            };
            proof {
                assert(spec_decode_entries(bytes@, i as int, rem) == spec_prepend_entries(
                    seq![entry],
                    spec_decode_entries(bytes@, i as int + 3 + cert_len as int, rem - 1),
                ));
                lemma_prepend_assoc(
                    views,
                    seq![entry],
                    spec_decode_entries(bytes@, i as int + 3 + cert_len as int, rem - 1),
                );
            }
            certs.push(RawCert { cert_type, cert_len, certificate });
            certs_num = certs_num + 1;
            i = i + 3 + cert_len as usize;
            proof {
                assert(spec_certs_view(certs@) =~= views + seq![entry]);
            }
        }
        proof {
            assert(spec_decode_entries(bytes@, i as int, numbers_of_certs - certs_num) == Ok::<
                Seq<CertView>,
                CellError,
            >(Seq::empty()));
            assert(spec_certs_view(certs@) + Seq::<CertView>::empty() =~= spec_certs_view(certs@));
        }
        Ok(certs)
    }
}

} // verus!
