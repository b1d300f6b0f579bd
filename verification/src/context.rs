//! The token context: where the middleware module is found, and whether it
//! still has to be initialized.

use vstd::prelude::*;

verus! {

/// The name of the environment variable that gives the path of the
/// middleware module.
pub fn library_variable() -> (name: &'static str)
    ensures
        name@ == "PKCS11_SOFTHSM2_MODULE"@,
{
    "PKCS11_SOFTHSM2_MODULE"
}

/// The path of the middleware module where none is configured.
pub open spec fn spec_default_library_path() -> Seq<char> {
    "C:\\\\Windows\\System32\\beidpkcs11.dll"@
}

/// The path of the middleware module where none is configured.
pub fn default_library_path() -> (path: &'static str)
    ensures
        path@ == spec_default_library_path(),
{
    "C:\\\\Windows\\System32\\beidpkcs11.dll"
}

/// The path of the middleware module: the configured one, or else the
/// default.
pub fn library_path(configured: Option<String>) -> (path: String)
    ensures
        path@ == (match configured {
            Some(given) => given@,
            None => spec_default_library_path(),
        }),
{
    match configured {
        Some(given) => given,
        None => default_library_path().to_owned(),
    }
}

/// Whether the middleware has to be initialized before use: only where it
/// does not report itself initialized already.
pub fn must_initialize(initialized: bool) -> (yes: bool)
    ensures
        yes == !initialized,
{
    !initialized
}

} // verus!
