//! Where the application's secret key is kept: the system keyring or a TPM
//! NV index, and the handling of the TPM tools' answers.

use vstd::prelude::*;
use crate::error::Error;
use crate::text::{eq_ignore_ascii_case, eq_ignore_case, trim, trimmed};

verus! {

/// Key storage backends.
#[derive(Clone, Copy, Debug, PartialEq, Eq, Structural)]
pub enum KeyBackend {
    Keyring,
    Tpm,
}

/// The backend named by the `TORWELL_KEY_BACKEND` setting: the TPM for
/// `tpm` or `hsm` (any ASCII case), the keyring otherwise and by default.
pub fn key_backend(setting: Option<&str>) -> (r: KeyBackend)
    ensures
        r == (match setting {
            Some(v) => if eq_ignore_case(v@, "tpm"@) || eq_ignore_case(v@, "hsm"@) {
                KeyBackend::Tpm
            } else {
                KeyBackend::Keyring
            },
            None => KeyBackend::Keyring,
        }),
{
    match setting {
        Some(v) => {
            if eq_ignore_ascii_case(v, "tpm") || eq_ignore_ascii_case(v, "hsm") {
                KeyBackend::Tpm
            } else {
                KeyBackend::Keyring
            }
        },
        None => KeyBackend::Keyring,
    }
}

/// The TPM NV index from the `TORWELL_TPM_NV_INDEX` setting; without it the
/// TPM cannot be used.
pub fn tpm_index(setting: Option<String>) -> (r: Result<String, Error>)
    ensures
        match setting {
            Some(v) => r matches Ok(i) && i@ == v@,
            None => r matches Err(Error::Io(m)) && m@ == "TORWELL_TPM_NV_INDEX not set"@,
        },
{
    match setting {
        Some(v) => Ok(v),
        None => Err(Error::Io(String::from_str("TORWELL_TPM_NV_INDEX not set"))),
    }
}

/// The key read from the TPM: the tool's output without surrounding
/// whitespace; a failed run reports its error output.
pub fn tpm_read_result(success: bool, stdout: &str, stderr: String) -> (r: Result<Option<String>, Error>)
    ensures
        success ==> (r matches Ok(Some(k)) && k@ == trimmed(stdout@)),
        !success ==> (r matches Err(Error::Io(m)) && m@ == stderr@),
{
    if !success {
        return Err(Error::Io(stderr));
    }
    Ok(Some(trim(stdout)))
}

/// The outcome of writing the key to the TPM: a failed run reports its
/// error output.
pub fn tpm_write_result(success: bool, stderr: String) -> (r: Result<(), Error>)
    ensures
        success ==> r is Ok,
        !success ==> (r matches Err(Error::Io(m)) && m@ == stderr@),
{
    if success { Ok(()) } else { Err(Error::Io(stderr)) }
}

/// Reading the key from the TPM where no TPM tools are supported.
pub fn tpm_unsupported() -> (e: Error)
    ensures
        e matches Error::Io(m) && m@ == "TPM backend not implemented on Windows"@,
{
    Error::Io(String::from_str("TPM backend not implemented on Windows"))
}

} // verus!
