use sanzu::printing::{check_print_request, print_file_name_ok, PrintError};

#[test]
fn print_names_of_letters_digits_and_punctuation() {
    assert!(print_file_name_ok("report-2024_v1.pdf"));
    assert!(print_file_name_ok("résumé.txt"));
    assert!(print_file_name_ok(""));
}

#[test]
fn print_names_refused() {
    assert!(!print_file_name_ok("../etc/passwd"));
    assert!(!print_file_name_ok("my file.pdf"));
    assert!(!print_file_name_ok("tab\tname"));
}

#[test]
fn print_requests() {
    assert_eq!(check_print_request(None, "a.pdf"), Err(PrintError::NotConfigured));
    assert_eq!(
        check_print_request(Some("C:\\print"), "a/b.pdf"),
        Err(PrintError::BadFilename("a/b.pdf".to_owned()))
    );
    assert_eq!(check_print_request(Some("C:\\print"), "a.pdf"), Ok(()));
}

#[test]
fn print_names_with_backslash_refused() {
    assert!(!print_file_name_ok("..\\secret.txt"));
    assert_eq!(
        check_print_request(Some("C:\\print"), "a\\b.pdf"),
        Err(PrintError::BadFilename("a\\b.pdf".to_owned()))
    );
}
