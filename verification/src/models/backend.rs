//! Where a model is executed.

use vstd::prelude::*;

verus! {

/// A caller's choice of execution target.
#[derive(Debug, Clone, Copy, PartialEq, Eq, Structural)]
pub enum GgmlAsrBackendPreference {
    CpuOnly,
    /// Force the GPU-class backend. Conversion layers refuse earlier when no GPU device
    /// exists, so this never silently downgrades.
    Accelerated,
    Auto,
}

/// A request's own backend, over the process default.
#[derive(Debug, Clone, Copy, PartialEq, Eq, Structural)]
pub enum RequestBackendPreference {
    CpuOnly,
    Accelerated,
}

/// A backend that graphs are built for.
#[derive(Debug, Clone, Copy, PartialEq, Eq, Hash, Structural)]
pub enum GgmlCpuGraphBackend {
    Cpu,
    Gpu,
    Metal,
}

/// What is known of the device behind a backend.
#[derive(Debug, Clone, Copy, PartialEq, Eq, Structural)]
pub struct GgmlBackendCapabilities {
    pub backend: GgmlCpuGraphBackend,
    pub vulkan: bool,
}

/// A family's backend, resolved once by whoever built the request and read by every
/// graph that is built for it.
#[derive(Debug, Clone, Copy, PartialEq, Eq, Structural)]
pub struct ResolvedFamilyRuntimeInput {
    pub backend: GgmlCpuGraphBackend,
}

impl GgmlBackendCapabilities {
    pub fn is_vulkan(&self) -> (vulkan: bool)
        ensures
            vulkan == self.vulkan,
    {
        self.vulkan
    }
}

impl GgmlCpuGraphBackend {
    /// Name of the backend.
    pub open spec fn text(self) -> Seq<char> {
        match self {
            GgmlCpuGraphBackend::Cpu => "Cpu"@,
            GgmlCpuGraphBackend::Gpu => "Gpu"@,
            GgmlCpuGraphBackend::Metal => "Metal"@,
        }
    }

    pub fn name(&self) -> (name: &'static str)
        ensures
            name@ == self.text(),
    {
        match self {
            GgmlCpuGraphBackend::Cpu => "Cpu",
            GgmlCpuGraphBackend::Gpu => "Gpu",
            GgmlCpuGraphBackend::Metal => "Metal",
        }
    }
}

impl GgmlAsrBackendPreference {
    /// The override that a preference installs; `Auto` installs none, so that the process
    /// default decides.
    pub open spec fn override_of(self) -> Option<RequestBackendPreference> {
        match self {
            GgmlAsrBackendPreference::CpuOnly => Some(RequestBackendPreference::CpuOnly),
            GgmlAsrBackendPreference::Accelerated => Some(RequestBackendPreference::Accelerated),
            GgmlAsrBackendPreference::Auto => None,
        }
    }

    pub fn request_backend_override(self) -> (installed: Option<RequestBackendPreference>)
        ensures
            installed == self.override_of(),
    {
        match self {
            GgmlAsrBackendPreference::CpuOnly => Some(RequestBackendPreference::CpuOnly),
            GgmlAsrBackendPreference::Accelerated => Some(RequestBackendPreference::Accelerated),
            GgmlAsrBackendPreference::Auto => None,
        }
    }
}

/// The override that holds while a request runs: that of the attempt under way, if a
/// placement is being tried, else the request's own.
pub fn effective_backend_override(
    placement_under_way: bool,
    attempt_override: Option<RequestBackendPreference>,
    preference: GgmlAsrBackendPreference,
) -> (installed: Option<RequestBackendPreference>)
    ensures
        installed == (if placement_under_way && attempt_override is Some {
            attempt_override
        } else {
            preference.override_of()
        }),
{
    if placement_under_way {
        if let Some(attempt) = attempt_override {
            return Some(attempt);
        }
    }
    preference.request_backend_override()
}

/// A preference for a backend holds, and no preference leaves the choice to the process.
pub proof fn law_preferences_hold(preference: GgmlAsrBackendPreference)
    ensures
        preference == GgmlAsrBackendPreference::Auto <==> preference.override_of() is None,
        preference == GgmlAsrBackendPreference::CpuOnly <==> preference.override_of() == Some(
            RequestBackendPreference::CpuOnly,
        ),
        preference == GgmlAsrBackendPreference::Accelerated <==> preference.override_of() == Some(
            RequestBackendPreference::Accelerated,
        ),
{
}

/// Backends go by names of their own.
pub proof fn law_backends_have_names_of_their_own(a: GgmlCpuGraphBackend, b: GgmlCpuGraphBackend)
    ensures
        a.text() == b.text() <==> a == b,
{
    reveal_strlit("Cpu");
    reveal_strlit("Gpu");
    reveal_strlit("Metal");
    assert("Cpu"@[0] != "Gpu"@[0]);
    assert("Cpu"@.len() != "Metal"@.len());
    assert("Gpu"@.len() != "Metal"@.len());
}

} // verus!
