//! Capability-based backend selection.
//!
//! The host probes its instruction-set features once (outside this
//! library) and hands them in as plain flags.  Selection is a pure
//! function: per precision there is a fixed preference order over the
//! compiled tiers, the first eligible entry wins, and a forced-scalar mode
//! overrides everything — used to pin tests to the reference kernel.  A
//! tier is never eligible without the features it needs, so a dispatcher
//! that follows this decision cannot call an unsupported kernel.

use vstd::prelude::*;

verus! {

/// Instruction-set features detected on the host, probed once at startup.
#[derive(Clone, Copy, PartialEq, Eq, Structural, Debug)]
pub struct CpuFeatures {
    pub avx2: bool,
    pub fma: bool,
    pub f16c: bool,
    pub avx512f: bool,
}

/// Storage precision of a resampling call.
#[derive(Clone, Copy, PartialEq, Eq, Structural, Debug)]
pub enum Precision {
    /// 32-bit float storage.
    Single,
    /// 64-bit float storage.
    Double,
    /// 16-bit float storage; vector tiers also need the conversion unit.
    Half,
    /// 8-bit unsigned storage; only the 32-bit-float tiers apply.
    Byte,
}

/// An execution backend, from the scalar reference kernel up the vector
/// tiers.
#[derive(Clone, Copy, PartialEq, Eq, Structural, Debug)]
pub enum Backend {
    /// The scalar reference kernel; always available.
    Scalar,
    /// The 256-bit vector tier; needs AVX2 and FMA.
    Avx2,
    /// The 512-bit vector tier; needs AVX-512F.
    Avx512,
}

/// The selection policy: highest eligible tier first, scalar as the final
/// fallback; the half-precision path additionally demands the F16C
/// conversion unit of the 256-bit tier; the byte path has no 512-bit
/// kernel.
pub open spec fn select_spec(f: CpuFeatures, p: Precision, force_scalar: bool) -> Backend {
    if force_scalar {
        Backend::Scalar
    } else {
        match p {
            Precision::Single => if f.avx512f {
                Backend::Avx512
            } else if f.avx2 && f.fma {
                Backend::Avx2
            } else {
                Backend::Scalar
            },
            Precision::Double => if f.avx512f {
                Backend::Avx512
            } else if f.avx2 && f.fma {
                Backend::Avx2
            } else {
                Backend::Scalar
            },
            Precision::Half => if f.avx512f {
                Backend::Avx512
            } else if f.avx2 && f.fma && f.f16c {
                Backend::Avx2
            } else {
                Backend::Scalar
            },
            Precision::Byte => if f.avx2 && f.fma {
                Backend::Avx2
            } else {
                Backend::Scalar
            },
        }
    }
}

/// Pick the backend for one call.  The result follows the preference
/// order exactly, and a tier is only ever selected together with the
/// features it requires.
pub fn select_backend(f: &CpuFeatures, p: Precision, force_scalar: bool) -> (r: Backend)
    ensures
        r == select_spec(*f, p, force_scalar),
        force_scalar ==> r == Backend::Scalar,
        r == Backend::Avx512 ==> f.avx512f,
        r == Backend::Avx2 ==> f.avx2 && f.fma,
        p == Precision::Half && r == Backend::Avx2 ==> f.f16c,
        p == Precision::Byte ==> r != Backend::Avx512,
{
    if force_scalar {
        return Backend::Scalar;
    }
    match p {
        Precision::Single | Precision::Double => {
            if f.avx512f {
                Backend::Avx512
            } else if f.avx2 && f.fma {
                Backend::Avx2
            } else {
                Backend::Scalar
            }
        },
        Precision::Half => {
            if f.avx512f {
                Backend::Avx512
            } else if f.avx2 && f.fma && f.f16c {
                Backend::Avx2
            } else {
                Backend::Scalar
            }
        },
        Precision::Byte => {
            if f.avx2 && f.fma {
                Backend::Avx2
            } else {
                Backend::Scalar
            }
        },
    }
}

/// The backend each precision will use, for diagnostics.
#[derive(Clone, Copy, PartialEq, Eq, Structural, Debug)]
pub struct BackendReport {
    pub single: Backend,
    pub double: Backend,
    pub half: Backend,
    pub byte: Backend,
}

/// Report the selected backend per precision under the given features.
pub fn backend_report(f: &CpuFeatures, force_scalar: bool) -> (r: BackendReport)
    ensures
        r.single == select_spec(*f, Precision::Single, force_scalar),
        r.double == select_spec(*f, Precision::Double, force_scalar),
        r.half == select_spec(*f, Precision::Half, force_scalar),
        r.byte == select_spec(*f, Precision::Byte, force_scalar),
{
    BackendReport {
        single: select_backend(f, Precision::Single, force_scalar),
        double: select_backend(f, Precision::Double, force_scalar),
        half: select_backend(f, Precision::Half, force_scalar),
        byte: select_backend(f, Precision::Byte, force_scalar),
    }
}

} // verus!
