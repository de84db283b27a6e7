//! Shape checks and backend choice of the SIMD pixel helpers.

use vstd::prelude::*;
use crate::text::{decimal, u64_to_decimal};
use crate::workers::append_str;

verus! {

/// Errors of the SIMD helpers when buffer shapes do not match.
#[derive(Clone, Copy, Debug, PartialEq, Eq, Structural)]
pub enum SimdError {
    /// The pixel buffer length is not a multiple of 4 (RGBA expected).
    PixelLengthNotMultipleOf4 { len: usize },
    /// The luma mask length differs from the number of pixels.
    MaskLengthMismatch { pixels: usize, mask: usize },
}

/// The message of a SIMD error.
pub open spec fn simd_error_text(e: SimdError) -> Seq<char> {
    match e {
        SimdError::PixelLengthNotMultipleOf4 { len } => "pixel buffer length "@ + decimal(len as nat)
            + " is not a multiple of 4"@,
        SimdError::MaskLengthMismatch { pixels, mask } => "mask length "@ + decimal(mask as nat)
            + " does not match pixel count "@ + decimal(pixels as nat),
    }
}

impl SimdError {
    /// The error's message.
    pub fn message(&self) -> (r: String)
        ensures
            r@ == simd_error_text(*self),
    {
        match self {
            SimdError::PixelLengthNotMultipleOf4 { len } => {
                let mut s = String::from_str("pixel buffer length ");
                let n = u64_to_decimal(*len as u64);
                append_str(&mut s, n.as_str());
                append_str(&mut s, " is not a multiple of 4");
                s
            },
            SimdError::MaskLengthMismatch { pixels, mask } => {
                let mut s = String::from_str("mask length ");
                let m = u64_to_decimal(*mask as u64);
                append_str(&mut s, m.as_str());
                append_str(&mut s, " does not match pixel count ");
                let p = u64_to_decimal(*pixels as u64);
                append_str(&mut s, p.as_str());
                s
            },
        }
    }
}

/// SIMD instruction sets the helpers can use.
#[derive(Clone, Copy, Debug, PartialEq, Eq, Structural)]
pub enum Backend {
    Avx2,
    Avx,
    Neon,
    Scalar,
}

/// The backend's name.
pub open spec fn backend_text(b: Backend) -> Seq<char> {
    match b {
        Backend::Avx2 => "avx2"@,
        Backend::Avx => "avx"@,
        Backend::Neon => "neon"@,
        Backend::Scalar => "scalar"@,
    }
}

impl Backend {
    /// The backend's name.
    pub fn name(&self) -> (r: String)
        ensures
            r@ == backend_text(*self),
    {
        match self {
            Backend::Avx2 => String::from_str("avx2"),
            Backend::Avx => String::from_str("avx"),
            Backend::Neon => String::from_str("neon"),
            Backend::Scalar => String::from_str("scalar"),
        }
    }
}

/// Processor families with SIMD backends.
#[derive(Clone, Copy, Debug, PartialEq, Eq, Structural)]
pub enum Arch {
    X86,
    Aarch64,
    Other,
}

/// The backend for the running processor: on x86 AVX2 if present, else
/// AVX, else scalar code; on AArch64 NEON if present; scalar code
/// elsewhere.
pub fn detect_backend(arch: Arch, avx2: bool, avx: bool, neon: bool) -> (r: Backend)
    ensures
        r == (match arch {
            Arch::X86 => if avx2 { Backend::Avx2 } else if avx { Backend::Avx } else { Backend::Scalar },
            Arch::Aarch64 => if neon { Backend::Neon } else { Backend::Scalar },
            Arch::Other => Backend::Scalar,
        }),
{
    match arch {
        Arch::X86 => {
            if avx2 {
                Backend::Avx2
            } else if avx {
                Backend::Avx
            } else {
                Backend::Scalar
            }
        },
        Arch::Aarch64 => if neon { Backend::Neon } else { Backend::Scalar },
        Arch::Other => Backend::Scalar,
    }
}

/// The number of RGBA pixels in a buffer, which must hold a multiple of 4
/// values.
pub fn ensure_pixel_chunks<T>(buffer: &[T]) -> (r: Result<usize, SimdError>)
    ensures
        buffer@.len() % 4 == 0 ==> r == Ok::<usize, SimdError>((buffer@.len() / 4) as usize),
        buffer@.len() % 4 != 0 ==> r == Err::<usize, SimdError>(
            SimdError::PixelLengthNotMultipleOf4 { len: buffer@.len() as usize },
        ),
{
    let n = buffer.len();
    if n % 4 != 0 {
        return Err(SimdError::PixelLengthNotMultipleOf4 { len: n });
    }
    Ok(n / 4)
}

/// The checks before computing luma into `mask`: the pixel buffer must hold
/// whole pixels and the mask one value per pixel.
pub fn check_luma_shapes<T>(pixels: &[T], mask_len: usize) -> (r: Result<usize, SimdError>)
    ensures
        pixels@.len() % 4 != 0 ==> r == Err::<usize, SimdError>(
            SimdError::PixelLengthNotMultipleOf4 { len: pixels@.len() as usize },
        ),
        pixels@.len() % 4 == 0 && mask_len != pixels@.len() / 4 ==> r == Err::<usize, SimdError>(
            SimdError::MaskLengthMismatch { pixels: (pixels@.len() / 4) as usize, mask: mask_len },
        ),
        pixels@.len() % 4 == 0 && mask_len == pixels@.len() / 4 ==> r == Ok::<usize, SimdError>(mask_len),
{
    let n: usize = pixels.len();
    assert(pixels@.len() == n as int);
    let count = match ensure_pixel_chunks(pixels) {
        Ok(c) => c,
        Err(e) => return Err(e),
    };
    if mask_len != count {
        return Err(SimdError::MaskLengthMismatch { pixels: count, mask: mask_len });
    }
    Ok(count)
}

} // verus!
