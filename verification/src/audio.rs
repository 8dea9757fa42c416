//! Where the core's audio goes: a sink takes interleaved stereo samples.
//! The null backend has no preferred rate and drops everything.
use vstd::prelude::*;

verus! {

/// Takes interleaved stereo samples from the core.
pub trait AudioSink {
    fn push(&mut self, samples: &[i16]);
}

/// The backend that plays nothing.
#[derive(Clone, Copy, Debug, PartialEq, Eq, Structural)]
pub struct NullBackend;

/// The sink that drops every sample.
#[derive(Clone, Copy, Debug, PartialEq, Eq, Structural)]
pub struct NullSink;

impl AudioSink for NullSink {
    fn push(&mut self, samples: &[i16]) {
    }
}

impl NullBackend {
    /// The null backend has no preferred sample rate.
    pub fn preferred_sample_rate(&self) -> (r: Result<Option<u32>, String>)
        ensures
            r == Ok::<Option<u32>, String>(None),
    {
        Ok(None)
    }

    /// Starting always succeeds, with a sink that drops samples.
    pub fn start(&self) -> (r: Result<NullSink, String>)
        ensures
            r == Ok::<NullSink, String>(NullSink),
    {
        Ok(NullSink)
    }

    /// Stopping does nothing.
    pub fn stop(&mut self)
        ensures
            *final(self) == *old(self),
    {
    }
}

/// The backend a name selects: `cpal` plays through the system's audio
/// output, anything else is the null backend.
#[derive(Clone, Copy, Debug, PartialEq, Eq, Structural)]
pub enum BackendKind {
    Cpal,
    Null,
}

/// Selects the backend by name.
pub fn backend_kind(name: &str) -> (r: BackendKind)
    ensures
        r == (if name@ == "cpal"@ {
            BackendKind::Cpal
        } else {
            BackendKind::Null
        }),
{
    if crate::text::str_equal(name, "cpal") {
        BackendKind::Cpal
    } else {
        BackendKind::Null
    }
}

} // verus!
