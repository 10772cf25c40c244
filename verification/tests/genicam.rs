use pilatus_aravis::genicam::{ApplyStep, FeatureName, FeatureValue, GenicamFeatureCollection};

fn name(s: &str) -> FeatureName {
    FeatureName::try_from(s.to_string()).unwrap()
}

#[test]
fn feature_name_accepts_letters_digits_underscore_and_brackets() {
    let n = FeatureName::try_from("Gain_Raw[0]".to_string()).unwrap();
    assert_eq!(n.as_str(), "Gain_Raw[0]");
    assert_eq!(name("test[x]").as_str(), "test[x]");
    assert_eq!(name("foobar").as_str(), "foobar");
}

#[test]
fn feature_name_rejects_other_characters() {
    let err = FeatureName::try_from("foo@bar".to_string()).unwrap_err();
    assert_eq!(err.0, "foo@bar");
    assert!(err.0.contains('@'));
    assert!(FeatureName::try_from("Exposure Time".to_string()).is_err());
    assert!(FeatureName::try_from("a-b".to_string()).is_err());
    assert!(FeatureName::try_from("a.b".to_string()).is_err());
}

#[test]
fn feature_name_accepts_empty_and_unicode_alphanumerics() {
    assert_eq!(name("").as_str(), "");
    assert_eq!(name("Größe").as_str(), "Größe");
    assert_eq!(name("x²").as_str(), "x²");
}

#[test]
fn feature_value_from_u64_fits_i64_only() {
    match FeatureValue::from_u64(42) {
        Some(FeatureValue::Integer(42)) => {}
        other => panic!("unexpected {other:?}"),
    }
    match FeatureValue::from_u64(i64::MAX as u64) {
        Some(FeatureValue::Integer(v)) => assert_eq!(v, i64::MAX),
        other => panic!("unexpected {other:?}"),
    }
    assert!(FeatureValue::from_u64(i64::MAX as u64 + 1).is_none());
    assert!(FeatureValue::from_u64(u64::MAX).is_none());
}

fn three_features() -> GenicamFeatureCollection {
    GenicamFeatureCollection::new(vec![
        (name("ExposureTime"), FeatureValue::Float(1.5f64.to_bits())),
        (name("Gain"), FeatureValue::Integer(3)),
        (name("ReverseX"), FeatureValue::Bool(true)),
    ])
}

#[test]
fn apply_steps_through_all_features_in_order() {
    let c = three_features();
    assert_eq!(c.len(), 3);
    assert_eq!(c.entries()[1].0.as_str(), "Gain");
    let mut step = c.first_step();
    let mut visited = Vec::new();
    loop {
        match step {
            ApplyStep::Apply(i) => {
                visited.push(i);
                step = c.next_step(i, true);
            }
            ApplyStep::Done(n) => {
                assert_eq!(n, 3);
                break;
            }
            ApplyStep::Failed(_) => panic!("nothing was refused"),
        }
    }
    assert_eq!(visited, vec![0, 1, 2]);
}

#[test]
fn apply_stops_at_first_refused_feature() {
    let c = three_features();
    assert_eq!(c.first_step(), ApplyStep::Apply(0));
    assert_eq!(c.next_step(0, true), ApplyStep::Apply(1));
    assert_eq!(c.next_step(1, false), ApplyStep::Failed(1));
    assert_eq!(c.next_step(0, false), ApplyStep::Failed(0));
    assert_eq!(c.next_step(2, true), ApplyStep::Done(3));
}

#[test]
fn apply_of_empty_collection_is_done_at_once() {
    let c = GenicamFeatureCollection::default();
    assert_eq!(c.len(), 0);
    assert_eq!(c.first_step(), ApplyStep::Done(0));
}

#[test]
fn invalid_key_message_names_the_key() {
    let err = FeatureName::try_from("foo@bar".to_string()).unwrap_err();
    assert_eq!(err.message(), "Invalid genicam feature key 'foo@bar'");
}
