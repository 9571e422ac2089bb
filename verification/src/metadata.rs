//! Reading an action chunk's metadata: the interval between rows (required,
//! an integer), the low-pass cutoff (optional, an integer or a number) and
//! the reset flag (optional, a boolean).

use vstd::prelude::*;

verus! {

/// One metadata value, as far as the chunk's metadata cares; `F` is the
/// type of non-integer numbers.
#[derive(Debug, Clone, PartialEq)]
pub enum MetadataValue<F> {
    /// An integer.
    Integer(i64),
    /// A non-integer number.
    Float(F),
    /// A boolean.
    Bool(bool),
    /// Any other value, by its rendering.
    Other(String),
}

/// Where the low-pass cutoff comes from.
#[derive(Debug, Clone, Copy, PartialEq)]
pub enum CutoffSource<F> {
    /// No cutoff was given: the default applies.
    Default,
    /// The cutoff was given as an integer.
    Integer(i64),
    /// The cutoff was given as a number.
    Float(F),
}

/// The metadata keys of an action chunk.
#[derive(Debug, Clone, Copy, PartialEq, Eq, Structural)]
pub enum MetadataKey {
    /// `interval`.
    Interval,
    /// `cutoff_hz`.
    CutoffHz,
    /// `reset`.
    Reset,
}

impl MetadataKey {
    /// The key's name in the metadata.
    pub fn name(&self) -> (name: &'static str)
        ensures
            *self == MetadataKey::Interval ==> name@ == "interval"@,
            *self == MetadataKey::CutoffHz ==> name@ == "cutoff_hz"@,
            *self == MetadataKey::Reset ==> name@ == "reset"@,
    {
        match self {
            MetadataKey::Interval => "interval",
            MetadataKey::CutoffHz => "cutoff_hz",
            MetadataKey::Reset => "reset",
        }
    }
}

/// An error reading an action chunk's metadata.
#[derive(Debug, Clone, Copy, PartialEq, Eq, Structural)]
pub enum MetadataError {
    /// `interval` is missing.
    MissingInterval,
    /// The key's value has a type it does not accept.
    UnexpectedType(MetadataKey),
}

/// `interval` is present and an integer.
pub open spec fn interval_fine<F>(v: Option<MetadataValue<F>>) -> bool {
    v matches Some(MetadataValue::Integer(_))
}

/// `cutoff_hz` is absent, an integer or a number.
pub open spec fn cutoff_fine<F>(v: Option<MetadataValue<F>>) -> bool {
    match v {
        None => true,
        Some(MetadataValue::Integer(_)) => true,
        Some(MetadataValue::Float(_)) => true,
        _ => false,
    }
}

/// `reset` is absent or a boolean.
pub open spec fn reset_fine<F>(v: Option<MetadataValue<F>>) -> bool {
    match v {
        None => true,
        Some(MetadataValue::Bool(_)) => true,
        _ => false,
    }
}

/// Where an acceptable `cutoff_hz` value puts the cutoff.
pub open spec fn cutoff_source<F>(v: Option<MetadataValue<F>>) -> CutoffSource<F> {
    match v {
        Some(MetadataValue::Integer(n)) => CutoffSource::Integer(n),
        Some(MetadataValue::Float(f)) => CutoffSource::Float(f),
        _ => CutoffSource::Default,
    }
}

/// The reset flag an acceptable `reset` value gives: its boolean, or false
/// when absent.
pub open spec fn reset_flag<F>(v: Option<MetadataValue<F>>) -> bool {
    match v {
        Some(MetadataValue::Bool(b)) => b,
        _ => false,
    }
}

/// Reads an action chunk's metadata from the values of its three keys
/// (`None` where a key is absent).
///
/// `interval` is required and must be an integer; `cutoff_hz`, when given,
/// must be an integer or a number (absent, the default applies); `reset`,
/// when given, must be a boolean (absent, it is false). The first offending
/// key, in the order `interval`, `cutoff_hz`, `reset`, decides the error.
pub fn resolve_metadata<F: Copy>(
    interval: Option<MetadataValue<F>>,
    cutoff_hz: Option<MetadataValue<F>>,
    reset: Option<MetadataValue<F>>,
) -> (resolved: Result<(i64, CutoffSource<F>, bool), MetadataError>)
    ensures
        interval is None ==> resolved == Err::<(i64, CutoffSource<F>, bool), MetadataError>(
            MetadataError::MissingInterval,
        ),
        interval is Some && !interval_fine(interval) ==> resolved == Err::<
            (i64, CutoffSource<F>, bool),
            MetadataError,
        >(MetadataError::UnexpectedType(MetadataKey::Interval)),
        interval_fine(interval) && !cutoff_fine(cutoff_hz) ==> resolved == Err::<
            (i64, CutoffSource<F>, bool),
            MetadataError,
        >(MetadataError::UnexpectedType(MetadataKey::CutoffHz)),
        interval_fine(interval) && cutoff_fine(cutoff_hz) && !reset_fine(reset) ==> resolved
            == Err::<(i64, CutoffSource<F>, bool), MetadataError>(
            MetadataError::UnexpectedType(MetadataKey::Reset),
        ),
        interval_fine(interval) && cutoff_fine(cutoff_hz) && reset_fine(reset) ==> resolved == Ok::<
            (i64, CutoffSource<F>, bool),
            MetadataError,
        >((interval->0->Integer_0, cutoff_source(cutoff_hz), reset_flag(reset))),
{
    let interval_ns = match interval {
        None => return Err(MetadataError::MissingInterval),
        Some(MetadataValue::Integer(value)) => value,
        Some(_) => return Err(MetadataError::UnexpectedType(MetadataKey::Interval)),
    };
    let cutoff = match cutoff_hz {
        None => CutoffSource::Default,
        Some(MetadataValue::Integer(value)) => CutoffSource::Integer(value),
        Some(MetadataValue::Float(value)) => CutoffSource::Float(value),
        Some(_) => return Err(MetadataError::UnexpectedType(MetadataKey::CutoffHz)),
    };
    let reset_flag = match reset {
        None => false,
        Some(MetadataValue::Bool(value)) => value,
        Some(_) => return Err(MetadataError::UnexpectedType(MetadataKey::Reset)),
    };
    Ok((interval_ns, cutoff, reset_flag))
}

} // verus!
