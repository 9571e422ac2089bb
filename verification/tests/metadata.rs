//! Behavior tests for reading an action chunk's metadata.

use dora_openarm_actions_executor_rust::{
    resolve_metadata, CutoffSource, MetadataError, MetadataKey, MetadataValue,
};

/// Reads metadata as the node does: the default cutoff is 15 Hz and an
/// integer cutoff is widened to a float.
fn extract_metadata(
    interval: Option<MetadataValue<f64>>,
    cutoff_hz: Option<MetadataValue<f64>>,
    reset: Option<MetadataValue<f64>>,
) -> Result<(i64, f64, bool), MetadataError> {
    let (interval_ns, cutoff, reset) = resolve_metadata(interval, cutoff_hz, reset)?;
    let cutoff_hz = match cutoff {
        CutoffSource::Default => 15.0,
        CutoffSource::Integer(value) => value as f64,
        CutoffSource::Float(value) => value,
    };
    Ok((interval_ns, cutoff_hz, reset))
}

#[test]
fn interval_is_required() {
    assert!(extract_metadata(None, None, None).is_err());
}

#[test]
fn cutoff_hz_defaults_to_fifteen() {
    let (_, cutoff_hz, _) =
        extract_metadata(Some(MetadataValue::Integer(1000)), None, None).expect("valid");
    assert!((cutoff_hz - 15.0).abs() < f64::EPSILON);
}

#[test]
fn reset_defaults_to_false() {
    let (_, _, reset) = extract_metadata(Some(MetadataValue::Integer(1000)), None, None).expect("valid");
    assert!(!reset);
}

#[test]
fn all_fields_are_read_when_present() {
    let (interval_ns, cutoff_hz, reset) = extract_metadata(
        Some(MetadataValue::Integer(2_000_000)),
        Some(MetadataValue::Float(20.0)),
        Some(MetadataValue::Bool(true)),
    )
    .expect("valid");
    assert_eq!(interval_ns, 2_000_000);
    assert!((cutoff_hz - 20.0).abs() < f64::EPSILON);
    assert!(reset);
}

#[test]
fn integer_cutoff_hz_is_widened_to_float() {
    let (_, cutoff_hz, _) = extract_metadata(
        Some(MetadataValue::Integer(1000)),
        Some(MetadataValue::Integer(30)),
        None,
    )
    .expect("valid");
    assert!((cutoff_hz - 30.0).abs() < f64::EPSILON);
}

#[test]
fn missing_interval_is_its_own_error() {
    assert_eq!(
        resolve_metadata::<f64>(None, Some(MetadataValue::Bool(true)), None),
        Err(MetadataError::MissingInterval)
    );
}

#[test]
fn the_first_key_of_the_wrong_type_is_reported() {
    assert_eq!(
        resolve_metadata(
            Some(MetadataValue::Float(1.0)),
            Some(MetadataValue::Bool(true)),
            Some(MetadataValue::Integer(1)),
        ),
        Err(MetadataError::UnexpectedType(MetadataKey::Interval))
    );
    assert_eq!(
        resolve_metadata(
            Some(MetadataValue::<f64>::Integer(1)),
            Some(MetadataValue::Other("\"fast\"".to_owned())),
            Some(MetadataValue::Integer(1)),
        ),
        Err(MetadataError::UnexpectedType(MetadataKey::CutoffHz))
    );
    assert_eq!(
        resolve_metadata(
            Some(MetadataValue::Integer(1)),
            Some(MetadataValue::<f64>::Integer(5)),
            Some(MetadataValue::Integer(1)),
        ),
        Err(MetadataError::UnexpectedType(MetadataKey::Reset))
    );
}

#[test]
fn sources_of_the_cutoff_are_kept_apart() {
    assert_eq!(
        resolve_metadata(Some(MetadataValue::Integer(7)), Some(MetadataValue::<f64>::Integer(30)), None),
        Ok((7, CutoffSource::Integer(30), false))
    );
    assert_eq!(
        resolve_metadata::<f64>(Some(MetadataValue::Integer(7)), None, Some(MetadataValue::Bool(false))),
        Ok((7, CutoffSource::Default, false))
    );
}

#[test]
fn metadata_key_names() {
    assert_eq!(MetadataKey::Interval.name(), "interval");
    assert_eq!(MetadataKey::CutoffHz.name(), "cutoff_hz");
    assert_eq!(MetadataKey::Reset.name(), "reset");
}
