//! The engine error model: one error type crosses every boundary.
use crate::id::{self, MemoryId};
use crate::text;
use vstd::prelude::*;
use vstd::string::*;

verus! {

/// Errors produced by the memory engine and its stores.
#[derive(Debug, PartialEq, Eq)]
#[non_exhaustive]
pub enum MemoryError {
    /// No record with the given id was visible in the requested scope.
    NotFound {
        /// The missing identifier.
        memory_id: MemoryId,
    },
    /// Input failed validation before reaching storage.
    Validation {
        /// Name of the offending field or input.
        field: &'static str,
        /// Human-readable explanation.
        reason: String,
    },
    /// Concurrent writers diverged; retry with fresh state.
    VersionConflict {
        /// Record that changed underneath us.
        memory_id: MemoryId,
        /// Version the caller assumed.
        expected: u64,
        /// Version actually stored.
        actual: u64,
    },
    /// A configured provider backend is not reachable or healthy.
    ProviderUnavailable {
        /// Provider name from configuration.
        provider: String,
        /// Underlying cause description.
        message: String,
    },
    /// A configured capability has no provider registered.
    ProviderMissing {
        /// Capability name ("store", "vector", "working", ...).
        capability: &'static str,
    },
    /// A provider backend failed while honoring a valid request.
    Storage {
        /// Provider name where the failure happened.
        provider: String,
        /// Backend error detail.
        message: String,
    },
    /// An operation is valid but not supported by the current build or
    /// provider configuration.
    Unsupported(String),
}

/// Result alias used across the engine.
pub type MemoryResult<T> = Result<T, MemoryError>;

/// The error is a validation error on `field` with `reason`.
pub open spec fn is_validation(e: MemoryError, field: Seq<char>, reason: Seq<char>) -> bool {
    e matches MemoryError::Validation { field: f, reason: r } && f@ == field && r@ == reason
}

/// The error is a validation error on `field`.
pub open spec fn is_validation_of(e: MemoryError, field: Seq<char>) -> bool {
    e matches MemoryError::Validation { field: f, .. } && f@ == field
}

/// Retrying could plausibly succeed.
pub open spec fn retryable(e: MemoryError) -> bool {
    e is ProviderUnavailable || e is VersionConflict
}

/// Decimal digit character.
pub open spec fn digit_char(d: int) -> char {
    if d == 0 {
        '0'
    } else if d == 1 {
        '1'
    } else if d == 2 {
        '2'
    } else if d == 3 {
        '3'
    } else if d == 4 {
        '4'
    } else if d == 5 {
        '5'
    } else if d == 6 {
        '6'
    } else if d == 7 {
        '7'
    } else if d == 8 {
        '8'
    } else {
        '9'
    }
}

/// Decimal rendering of a natural number, without leading zeros.
pub open spec fn decimal(n: nat) -> Seq<char>
    decreases n,
{
    if n < 10 {
        seq![digit_char(n as int)]
    } else {
        decimal(n / 10).push(digit_char((n % 10) as int))
    }
}

pub(crate) fn digit(d: u64) -> (c: char)
    requires
        d < 10,
    ensures
        c == digit_char(d as int),
{
    if d == 0 {
        '0'
    } else if d == 1 {
        '1'
    } else if d == 2 {
        '2'
    } else if d == 3 {
        '3'
    } else if d == 4 {
        '4'
    } else if d == 5 {
        '5'
    } else if d == 6 {
        '6'
    } else if d == 7 {
        '7'
    } else if d == 8 {
        '8'
    } else {
        '9'
    }
}

/// Decimal rendering of `n`.
pub fn decimal_string(n: u64) -> (s: String)
    ensures
        s@ == decimal(n as nat),
    decreases n,
{
    if n < 10 {
        let mut s = String::new();
        text::push_char(&mut s, digit(n));
        assert(s@ =~= seq![digit_char(n as int)]);
        s
    } else {
        let mut s = decimal_string(n / 10);
        text::push_char(&mut s, digit(n % 10));
        s
    }
}

impl MemoryError {
    /// Convenience constructor for [`MemoryError::Validation`].
    pub fn validation(field: &'static str, reason: &str) -> (e: Self)
        ensures
            is_validation(e, field@, reason@),
    {
        MemoryError::Validation { field, reason: String::from_str(reason) }
    }

    /// Convenience constructor for [`MemoryError::Storage`].
    pub fn storage(provider: &str, message: &str) -> (e: Self)
        ensures
            e matches MemoryError::Storage { provider: p, message: m } && p@ == provider@ && m@
                == message@,
    {
        MemoryError::Storage {
            provider: String::from_str(provider),
            message: String::from_str(message),
        }
    }

    /// Convenience constructor for [`MemoryError::ProviderUnavailable`].
    pub fn unavailable(provider: &str, message: &str) -> (e: Self)
        ensures
            e matches MemoryError::ProviderUnavailable { provider: p, message: m } && p@
                == provider@ && m@ == message@,
    {
        MemoryError::ProviderUnavailable {
            provider: String::from_str(provider),
            message: String::from_str(message),
        }
    }

    /// True when retrying the same request could plausibly succeed.
    pub fn is_retryable(&self) -> (b: bool)
        ensures
            b == retryable(*self),
    {
        match self {
            MemoryError::ProviderUnavailable { .. } | MemoryError::VersionConflict { .. } => true,
            _ => false,
        }
    }

    /// Human-readable message naming the offending entity.
    pub fn message(&self) -> (s: String)
        ensures
            s@ == error_message(*self),
    {
        match self {
            MemoryError::NotFound { memory_id } => {
                let h = memory_id.hyphenated();
                text::concat3("memory ", h.as_str(), " not found")
            },
            MemoryError::Validation { field, reason } => {
                let head = text::concat3("invalid ", field, ": ");
                text::concat2(head.as_str(), reason.as_str())
            },
            MemoryError::VersionConflict { memory_id, expected, actual } => {
                let h = memory_id.hyphenated();
                let e = decimal_string(*expected);
                let a = decimal_string(*actual);
                let s1 = text::concat3("concurrent modification of memory ", h.as_str(), ": expected version ");
                let s2 = text::concat3(s1.as_str(), e.as_str(), ", found ");
                text::concat2(s2.as_str(), a.as_str())
            },
            MemoryError::ProviderUnavailable { provider, message } => {
                let s1 = text::concat3("provider '", provider.as_str(), "' unavailable: ");
                text::concat2(s1.as_str(), message.as_str())
            },
            MemoryError::ProviderMissing { capability } => {
                text::concat3("no provider registered for capability '", capability, "'")
            },
            MemoryError::Storage { provider, message } => {
                let s1 = text::concat3("storage failure in '", provider.as_str(), "': ");
                text::concat2(s1.as_str(), message.as_str())
            },
            MemoryError::Unsupported(what) => {
                text::concat2("unsupported operation: ", what.as_str())
            },
        }
    }
}

/// The message of each error variant.
pub open spec fn error_message(e: MemoryError) -> Seq<char> {
    match e {
        MemoryError::NotFound { memory_id } => "memory "@ + id::hyphenated_text(memory_id.0)
            + " not found"@,
        MemoryError::Validation { field, reason } => "invalid "@ + field@ + ": "@ + reason@,
        MemoryError::VersionConflict { memory_id, expected, actual } =>
            "concurrent modification of memory "@ + id::hyphenated_text(memory_id.0)
            + ": expected version "@ + decimal(expected as nat) + ", found "@ + decimal(
            actual as nat,
        ),
        MemoryError::ProviderUnavailable { provider, message } => "provider '"@ + provider@
            + "' unavailable: "@ + message@,
        MemoryError::ProviderMissing { capability } => "no provider registered for capability '"@
            + capability@ + "'"@,
        MemoryError::Storage { provider, message } => "storage failure in '"@ + provider@
            + "': "@ + message@,
        MemoryError::Unsupported(what) => "unsupported operation: "@ + what@,
    }
}

} // verus!
