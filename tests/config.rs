use pg2parquet::config::config_from_values;

#[test]
fn config_defaults() {
    let c = config_from_values(
        Some("pg2parquet".to_string()),
        Some("slot".to_string()),
        None,
        None,
    )
    .unwrap();
    assert_eq!(c.publication, "pg2parquet");
    assert_eq!(c.slot, "slot");
    assert_eq!(c.output, ".");
    assert_eq!(c.conninfo, "");
}

#[test]
fn config_given_values() {
    let c = config_from_values(
        Some("p".to_string()),
        Some("s".to_string()),
        Some("/tmp".to_string()),
        Some("host=localhost".to_string()),
    )
    .unwrap();
    assert_eq!(c.output, "/tmp");
    assert_eq!(c.conninfo, "host=localhost");
}

#[test]
fn config_missing_required() {
    let e = config_from_values(None, Some("s".to_string()), None, None).unwrap_err();
    assert_eq!(e.error_message, "PG2PARQUET_PUBLICATION is empty");
    let e = config_from_values(Some("p".to_string()), None, None, None).unwrap_err();
    assert_eq!(e.error_message, "PG2PARQUET_SLOT is empty");
}
