use tor_cell::cell::CellError;
use tor_cell::certs::RawCert;

#[test]
fn test_raw_cert_new() {
    let cert_type = 1;
    let cert_len = 3;
    let certificate = vec![1, 2, 3];
    let cert = RawCert::new(cert_type, cert_len, certificate.clone());
    assert_eq!(cert.cert_type, cert_type);
    assert_eq!(cert.cert_len, cert_len);
    assert_eq!(cert.certificate, certificate);
}

#[test]
fn test_get_from_bytes_single_cert() {
    let bytes = vec![1, 1, 0, 3, 1, 2, 3];
    let certs = RawCert::get_from_bytes(&bytes).unwrap();
    assert_eq!(certs.len(), 1);
    assert_eq!(certs[0].cert_type, 1u8);
    assert_eq!(certs[0].cert_len, 3u16);
    assert_eq!(certs[0].certificate, vec![1u8, 2u8, 3u8]);
}

#[test]
fn test_get_from_bytes_multiple_certs() {
    let bytes = vec![2, 1, 0, 3, 1, 2, 3, 2, 0, 2, 4, 5];
    let certs = RawCert::get_from_bytes(&bytes).unwrap();
    assert_eq!(certs.len(), 2);
    assert_eq!(certs[0].cert_type, 1);
    assert_eq!(certs[0].cert_len, 3);
    assert_eq!(certs[0].certificate, vec![1, 2, 3]);
    assert_eq!(certs[1].cert_type, 2);
    assert_eq!(certs[1].cert_len, 2);
    assert_eq!(certs[1].certificate, vec![4, 5]);
}

#[test]
fn test_get_from_bytes_truncated_certificate() {
    // Declares a 3-byte certificate but supplies only 2: an error, not a
    // crash.
    let bytes = vec![1, 1, 0, 3, 1, 2];
    assert_eq!(RawCert::get_from_bytes(&bytes), Err(CellError::TruncatedBuffer));
}

#[test]
fn test_get_from_bytes_truncated_length_field() {
    // The entry's 2-byte length field itself overruns the buffer.
    let bytes = vec![1, 1, 0];
    assert_eq!(RawCert::get_from_bytes(&bytes), Err(CellError::TruncatedBuffer));
}

#[test]
fn test_get_from_bytes_empty() {
    let bytes = vec![];
    assert_eq!(RawCert::get_from_bytes(&bytes), Err(CellError::TruncatedBuffer));
}

#[test]
fn test_get_from_bytes_zero_count() {
    let bytes = vec![0, 1, 0, 1, 9];
    let certs = RawCert::get_from_bytes(&bytes).unwrap();
    assert_eq!(certs.len(), 0);
}

#[test]
fn test_get_from_bytes_fewer_than_declared() {
    // Declares two entries but the buffer ends cleanly after one: the
    // shorter list comes back without an error.
    let bytes = vec![2, 1, 0, 1, 9];
    let certs = RawCert::get_from_bytes(&bytes).unwrap();
    assert_eq!(certs.len(), 1);
    assert_eq!(certs[0].cert_type, 1);
    assert_eq!(certs[0].cert_len, 1);
    assert_eq!(certs[0].certificate, vec![9]);
}
