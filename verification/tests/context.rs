use eid_reader::context::{
    default_library_path, library_path, library_variable, must_initialize,
};

#[test]
fn library_variable_is_named() {
    assert_eq!(library_variable(), "PKCS11_SOFTHSM2_MODULE");
}

#[test]
fn default_library_path_is_the_windows_module() {
    assert_eq!(default_library_path(), r"C:\\Windows\System32\beidpkcs11.dll");
}

#[test]
fn library_path_takes_the_configured_one() {
    assert_eq!(
        library_path(Some(String::from("/usr/lib/softhsm/libsofthsm2.so"))),
        "/usr/lib/softhsm/libsofthsm2.so"
    );
    assert_eq!(library_path(Some(String::new())), "");
}

#[test]
fn library_path_falls_back_to_the_default() {
    assert_eq!(library_path(None), r"C:\\Windows\System32\beidpkcs11.dll");
}

#[test]
fn initializes_only_what_is_not_initialized() {
    assert!(must_initialize(false));
    assert!(!must_initialize(true));
}
