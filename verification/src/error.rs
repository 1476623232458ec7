//! Error taxonomy of the sandbox.

use vstd::prelude::*;

verus! {

/// Everything that can go wrong while building or activating a sandbox, or
/// while launching the confined program.
#[derive(Clone, Copy, Debug, PartialEq, Eq, Structural)]
pub enum Error {
    /// An operation was attempted on a sandbox that was already consumed by
    /// activation; the policy is frozen at that point.
    InvalidState,
    /// Activation requires the calling process to hold exactly one live
    /// thread; the precondition was violated.
    MultiThreaded,
    /// The normalized policy could not be translated into a valid platform
    /// ruleset or profile (for instance, a rule path that no backend rule
    /// grammar can express).
    PolicyCompileFailed,
    /// The enforcement primitive is absent on this kernel or OS version.
    /// Fatal: the sandbox never falls back to an unrestricted run.
    PlatformUnsupported,
    /// An environment variable could not be safely enumerated or set.
    EnvironmentEncodingError,
    /// The underlying process-spawn primitive failed; expected when the
    /// sandbox denies read or execute access to the target program.
    SpawnFailed,
}

impl Error {
    /// A short stable description, in place of a formatting trait.
    pub fn describe(&self) -> (s: &'static str)
        ensures
            s@ == self.describe_spec(),
    {
        match self {
            Error::InvalidState => "sandbox was already activated",
            Error::MultiThreaded => "activation requires a single-threaded process",
            Error::PolicyCompileFailed => "policy could not be compiled for this platform",
            Error::PlatformUnsupported => "sandboxing is unsupported on this platform",
            Error::EnvironmentEncodingError => "environment variable could not be processed",
            Error::SpawnFailed => "failed to spawn sandboxed process",
        }
    }

    /// The description as a sequence of characters.
    pub open spec fn describe_spec(&self) -> Seq<char> {
        match self {
            Error::InvalidState => "sandbox was already activated"@,
            Error::MultiThreaded => "activation requires a single-threaded process"@,
            Error::PolicyCompileFailed => "policy could not be compiled for this platform"@,
            Error::PlatformUnsupported => "sandboxing is unsupported on this platform"@,
            Error::EnvironmentEncodingError => "environment variable could not be processed"@,
            Error::SpawnFailed => "failed to spawn sandboxed process"@,
        }
    }
}

} // verus!
