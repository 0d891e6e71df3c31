use badlopo::hash::{hex_unpadded, HashAlgorithm, HashImpl};

#[test]
fn hash_t() {
    let report = HashImpl::report("hello".as_bytes(), HashAlgorithm::Md5);
    assert_eq!(report.hex, "5d41402abc4b2a76b9719d911017c592");
    assert_eq!(report.base64, "XUFAKrxLKna5cZ2REBfFkg==");
}

#[test]
fn reports_for_each_algorithm() {
    let cases = [
        (HashAlgorithm::Sha1, 20, "aaf4c61ddcc5e8a2dabedef3b482cd9aea9434d", "qvTGHdzF6KLavt4PO0gs2a6pQ00="),
        (
            HashAlgorithm::Sha224,
            28,
            "ea9ae9cc6768c50fcee903ed054556e5bfc8347907f12598aa24193",
            "6gmunMZ2jFD87pA+0FRVblv8g0eQfxJZiqJBkw==",
        ),
        (
            HashAlgorithm::Sha256,
            32,
            "2cf24dba5fb0a3e26e83b2ac5b9e29e1b161e5c1fa7425e7343362938b9824",
            "LPJNul+wow4m6DsqxbninhsWHlwfp0JecwQzYpOLmCQ=",
        ),
        (
            HashAlgorithm::Sha384,
            48,
            "59e1748777448c69de6b80d7a33bbfb9ff1b463e44354c3553bcdb9c666fa90125a3c79f9397bdf5f6a13de828684f",
            "WeF0h3dEjGnea4ANejO7+5/xtGPkQ1TDVTvNucZm+pASWjx5+QOXvfX2oT3oKGhP",
        ),
        (
            HashAlgorithm::Sha512,
            64,
            "9b71d224bd62f3785d96d46ad3ea3d73319bfbc289caadae2dff72519673ca72323c3d99ba5c11d7c7acc6e14b8c5dac4663475c2e5c3adef46f73bcdec043",
            "m3HSJL1i83hdltRq0+o9czGb+8KJDKra4t/3JRlnPKcjI8PZm6XBHXx6zG4UuMXaDEZjR1wuXDre9G9zvN7AQw==",
        ),
    ];
    for (algorithm, len, hex, b64) in cases {
        assert_eq!(HashImpl::digest("hello".as_bytes(), algorithm).len(), len);
        let report = HashImpl::report("hello".as_bytes(), algorithm);
        assert_eq!(report.hex, hex);
        assert_eq!(report.base64, b64);
    }
}

#[test]
fn hex_drops_leading_zeros() {
    assert_eq!(hex_unpadded(&[0x0a, 0xab, 0x00, 0x10]), "aab010");
    assert_eq!(hex_unpadded(&[]), "");
}

#[test]
fn report_of_given_digest() {
    let report = HashImpl::report_of_digest(&[0x01, 0xff]);
    assert_eq!(report.hex, "1ff");
    assert_eq!(report.base64, "Af8=");
    let report = HashImpl::report_of_digest(&[]);
    assert_eq!(report.hex, "");
    assert_eq!(report.base64, "");
}
