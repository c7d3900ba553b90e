use rweb_helper::json::schema_json;
use rweb_helper::{DateTimeType, DateType, DecimalWrapper, UuidWrapper, UUID_EXAMPLE};

#[test]
fn date_accepts_real_calendar_dates() {
    assert!(DateType::new(2023, 1, 1).is_some());
    assert!(DateType::new(2024, 2, 29).is_some());
    assert!(DateType::new(2000, 2, 29).is_some());
    assert!(DateType::new(1900, 2, 29).is_none());
    assert!(DateType::new(2023, 2, 29).is_none());
    assert!(DateType::new(2023, 4, 31).is_none());
    assert!(DateType::new(2023, 13, 1).is_none());
    assert!(DateType::new(2023, 1, 0).is_none());
    assert!(DateType::new(10000, 1, 1).is_none());
    assert!(DateType::new(-4, 2, 29).is_some());
    let d = DateType::new(2023, 12, 31).unwrap();
    assert_eq!((d.year(), d.month(), d.day()), (2023, 12, 31));
    assert_eq!(d, DateType::new(2023, 12, 31).unwrap());
}

#[test]
fn date_time_checks_the_nanosecond() {
    let t = DateTimeType::new(1_700_000_000, 999_999_999).unwrap();
    assert_eq!(t.unix_seconds(), 1_700_000_000);
    assert_eq!(t.nanosecond(), 999_999_999);
    assert!(DateTimeType::new(0, 1_000_000_000).is_none());
    assert!(DateTimeType::new(-62_135_596_800, 0).is_some());
}

#[test]
fn uuid_wrapper_keeps_its_bits_and_renders_hyphenated() {
    let u = UuidWrapper::new(5);
    assert_eq!(u.as_u128(), 5);
    assert_eq!(u.hyphenated(), "00000000-0000-0000-0000-000000000005");
    assert_eq!(
        UuidWrapper::new(UUID_EXAMPLE).hyphenated(),
        "334518f4-1bfd-4f20-9978-bfad0dc033e1"
    );
    assert_eq!(UuidWrapper::new(7), UuidWrapper::new(7));
}

#[test]
fn decimal_wrapper_checks_mantissa_and_scale() {
    let d = DecimalWrapper::new(1234, 3).unwrap();
    assert_eq!(d.mantissa(), 1234);
    assert_eq!(d.scale(), 3);
    assert!(DecimalWrapper::new(0, 29).is_none());
    assert!(DecimalWrapper::new(1i128 << 96, 0).is_none());
    assert!(DecimalWrapper::new(-(1i128 << 96), 0).is_none());
    assert!(DecimalWrapper::new((1i128 << 96) - 1, 28).is_some());
}

#[test]
fn wrapper_schemas_render_as_the_framework_writes_them() {
    assert_eq!(DateTimeType::schema_name(), "date-time");
    assert_eq!(DateType::schema_name(), "date");
    assert_eq!(UuidWrapper::schema_name(), "uuid");
    assert_eq!(DecimalWrapper::schema_name(), "decimal");
    assert_eq!(
        schema_json(&DateTimeType::describe()),
        r#"{"format":"date-time","type":"string"}"#
    );
    assert_eq!(
        schema_json(&DateType::describe()),
        r#"{"format":"date","example":"2023-01-01","type":"string"}"#
    );
    assert_eq!(
        schema_json(&UuidWrapper::describe()),
        r#"{"format":"uuid","example":"334518f4-1bfd-4f20-9978-bfad0dc033e1","type":"string"}"#
    );
    assert_eq!(
        schema_json(&DecimalWrapper::describe()),
        r#"{"format":"decimal","example":"1.234","type":"string"}"#
    );
}
