use sanzu::auth::{AltNameError, AuthError};
use sanzu::certs::{certificate_user, get_subj_alt_names, CertError, ClientCertError};

const ONE_EMAIL: [u8; 358] = [
    48, 130, 1, 98, 48, 130, 1, 9, 160, 3, 2, 1, 2, 2, 20, 30, 237, 43, 134, 103, 150, 201,
    164, 229, 96, 4, 135, 110, 112, 175, 111, 16, 29, 171, 230, 48, 10, 6, 8, 42, 134, 72, 206,
    61, 4, 3, 2, 48, 17, 49, 15, 48, 13, 6, 3, 85, 4, 3, 12, 6, 99, 108, 105, 101, 110, 116,
    48, 30, 23, 13, 50, 54, 49, 49, 49, 55, 50, 49, 53, 56, 53, 50, 90, 23, 13, 51, 54, 49, 49,
    49, 52, 50, 49, 53, 56, 53, 50, 90, 48, 17, 49, 15, 48, 13, 6, 3, 85, 4, 3, 12, 6, 99, 108,
    105, 101, 110, 116, 48, 89, 48, 19, 6, 7, 42, 134, 72, 206, 61, 2, 1, 6, 8, 42, 134, 72,
    206, 61, 3, 1, 7, 3, 66, 0, 4, 34, 109, 98, 102, 197, 194, 115, 180, 235, 69, 151, 154, 6,
    225, 61, 185, 224, 86, 18, 105, 193, 213, 181, 72, 29, 223, 39, 113, 251, 175, 80, 184,
    244, 38, 113, 185, 139, 224, 181, 203, 96, 48, 212, 171, 240, 147, 56, 123, 116, 86, 245,
    69, 227, 76, 87, 61, 107, 101, 65, 239, 83, 27, 119, 126, 163, 63, 48, 61, 48, 28, 6, 3,
    85, 29, 17, 4, 21, 48, 19, 129, 17, 97, 108, 105, 99, 101, 64, 69, 88, 65, 77, 80, 76, 69,
    46, 67, 79, 77, 48, 29, 6, 3, 85, 29, 14, 4, 22, 4, 20, 35, 225, 198, 238, 77, 26, 15, 119,
    34, 86, 215, 0, 235, 222, 244, 232, 230, 119, 15, 99, 48, 10, 6, 8, 42, 134, 72, 206, 61,
    4, 3, 2, 3, 71, 0, 48, 68, 2, 32, 70, 157, 105, 191, 228, 130, 190, 99, 64, 72, 4, 3, 151,
    13, 66, 108, 72, 100, 165, 98, 196, 66, 242, 130, 245, 224, 40, 12, 172, 72, 49, 11, 2, 32,
    116, 46, 69, 37, 34, 148, 98, 235, 242, 77, 218, 159, 68, 25, 3, 156, 4, 221, 91, 201, 56,
    6, 219, 104, 128, 43, 132, 137, 184, 77, 216, 80,
];

const TWO_EMAILS: [u8; 351] = [
    48, 130, 1, 91, 48, 130, 1, 0, 160, 3, 2, 1, 2, 2, 20, 31, 104, 206, 183, 30, 67, 91, 152,
    227, 113, 137, 50, 99, 47, 128, 24, 70, 46, 211, 39, 48, 10, 6, 8, 42, 134, 72, 206, 61, 4,
    3, 2, 48, 17, 49, 15, 48, 13, 6, 3, 85, 4, 3, 12, 6, 99, 108, 105, 101, 110, 116, 48, 30,
    23, 13, 50, 54, 49, 49, 49, 55, 50, 49, 53, 56, 53, 50, 90, 23, 13, 51, 54, 49, 49, 49, 52,
    50, 49, 53, 56, 53, 50, 90, 48, 17, 49, 15, 48, 13, 6, 3, 85, 4, 3, 12, 6, 99, 108, 105,
    101, 110, 116, 48, 89, 48, 19, 6, 7, 42, 134, 72, 206, 61, 2, 1, 6, 8, 42, 134, 72, 206,
    61, 3, 1, 7, 3, 66, 0, 4, 192, 45, 162, 241, 58, 139, 54, 87, 89, 145, 103, 175, 224, 46,
    71, 85, 18, 72, 135, 25, 197, 217, 236, 121, 228, 160, 124, 49, 97, 217, 88, 253, 180, 244,
    203, 78, 116, 49, 195, 53, 73, 223, 66, 174, 32, 122, 91, 101, 20, 174, 80, 22, 140, 204,
    38, 103, 49, 185, 223, 221, 119, 156, 99, 55, 163, 54, 48, 52, 48, 19, 6, 3, 85, 29, 17, 4,
    12, 48, 10, 129, 3, 97, 64, 88, 129, 3, 98, 64, 88, 48, 29, 6, 3, 85, 29, 14, 4, 22, 4, 20,
    30, 82, 13, 63, 95, 156, 124, 63, 161, 131, 179, 125, 163, 77, 200, 156, 90, 192, 212, 118,
    48, 10, 6, 8, 42, 134, 72, 206, 61, 4, 3, 2, 3, 73, 0, 48, 70, 2, 33, 0, 194, 40, 177, 97,
    141, 246, 141, 186, 197, 45, 178, 81, 234, 107, 221, 115, 45, 132, 203, 56, 17, 3, 42, 236,
    220, 169, 192, 123, 251, 19, 191, 78, 2, 33, 0, 218, 5, 117, 204, 72, 249, 186, 170, 235,
    171, 196, 167, 235, 131, 28, 54, 109, 53, 107, 56, 102, 193, 200, 175, 107, 224, 30, 127,
    223, 29, 249, 242,
];

const DNS_ONLY: [u8; 359] = [
    48, 130, 1, 99, 48, 130, 1, 8, 160, 3, 2, 1, 2, 2, 20, 10, 244, 33, 1, 172, 82, 75, 159,
    22, 198, 142, 113, 199, 158, 179, 180, 189, 245, 30, 131, 48, 10, 6, 8, 42, 134, 72, 206,
    61, 4, 3, 2, 48, 17, 49, 15, 48, 13, 6, 3, 85, 4, 3, 12, 6, 99, 108, 105, 101, 110, 116,
    48, 30, 23, 13, 50, 54, 49, 49, 49, 55, 50, 49, 53, 56, 53, 50, 90, 23, 13, 51, 54, 49, 49,
    49, 52, 50, 49, 53, 56, 53, 50, 90, 48, 17, 49, 15, 48, 13, 6, 3, 85, 4, 3, 12, 6, 99, 108,
    105, 101, 110, 116, 48, 89, 48, 19, 6, 7, 42, 134, 72, 206, 61, 2, 1, 6, 8, 42, 134, 72,
    206, 61, 3, 1, 7, 3, 66, 0, 4, 70, 234, 132, 139, 240, 96, 231, 234, 176, 53, 188, 88, 40,
    20, 234, 33, 219, 124, 153, 246, 76, 49, 5, 253, 169, 235, 209, 245, 168, 65, 58, 116, 118,
    56, 164, 14, 212, 228, 149, 122, 17, 69, 203, 122, 121, 206, 43, 130, 41, 125, 0, 80, 140,
    131, 31, 215, 195, 45, 213, 254, 21, 167, 174, 183, 163, 62, 48, 60, 48, 27, 6, 3, 85, 29,
    17, 4, 20, 48, 18, 130, 16, 104, 111, 115, 116, 46, 101, 120, 97, 109, 112, 108, 101, 46,
    99, 111, 109, 48, 29, 6, 3, 85, 29, 14, 4, 22, 4, 20, 43, 197, 212, 237, 27, 199, 172, 75,
    84, 26, 54, 254, 238, 226, 111, 242, 148, 79, 180, 222, 48, 10, 6, 8, 42, 134, 72, 206, 61,
    4, 3, 2, 3, 73, 0, 48, 70, 2, 33, 0, 168, 222, 54, 144, 248, 3, 222, 242, 238, 234, 173,
    144, 229, 19, 149, 96, 136, 22, 1, 249, 51, 117, 166, 85, 68, 12, 148, 31, 138, 143, 58,
    117, 2, 33, 0, 177, 166, 155, 27, 188, 74, 30, 237, 6, 241, 39, 73, 253, 66, 140, 251, 238,
    195, 165, 31, 106, 74, 49, 38, 204, 37, 62, 1, 185, 248, 39, 40,
];

#[test]
fn certificate_with_one_email() {
    assert_eq!(get_subj_alt_names(&ONE_EMAIL), Ok("alice@EXAMPLE.COM".to_owned()));
    let domains = vec!["EXAMPLE.COM".to_owned()];
    assert_eq!(certificate_user(&ONE_EMAIL, &domains), Ok("alice".to_owned()));
    let others = vec!["OTHER.ORG".to_owned()];
    assert_eq!(certificate_user(&ONE_EMAIL, &others), Err(ClientCertError::Realm(AuthError::InvalidRealm)));
}

#[test]
fn certificate_with_two_emails() {
    assert_eq!(get_subj_alt_names(&TWO_EMAILS), Err(CertError::AltName(AltNameError::Multiple)));
}

#[test]
fn certificate_without_email() {
    assert_eq!(get_subj_alt_names(&DNS_ONLY), Err(CertError::AltName(AltNameError::Missing)));
}

#[test]
fn not_a_certificate() {
    assert_eq!(get_subj_alt_names(&[1, 2, 3]), Err(CertError::Parse));
    assert_eq!(get_subj_alt_names(&ONE_EMAIL[..100]), Err(CertError::Parse));
    assert_eq!(certificate_user(&[], &[]), Err(ClientCertError::Certificate(CertError::Parse)));
}
