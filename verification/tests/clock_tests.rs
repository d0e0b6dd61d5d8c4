use chef_de_vibe::clock::iso_time_text;

#[test]
fn epoch_seconds_as_iso_text() {
    assert_eq!(iso_time_text(0), "1970-01-01T00:00:00Z");
    assert_eq!(iso_time_text(59), "1970-01-01T00:00:59Z");
    assert_eq!(iso_time_text(86399), "1970-01-01T23:59:59Z");
    assert_eq!(iso_time_text(951782400), "2000-02-29T00:00:00Z");
    assert_eq!(iso_time_text(1704103500), "2024-01-01T10:05:00Z");
    assert_eq!(iso_time_text(1709164800), "2024-02-29T00:00:00Z");
    assert_eq!(iso_time_text(4102444800), "2100-01-01T00:00:00Z");
    assert_eq!(iso_time_text(4107542400), "2100-03-01T00:00:00Z");
    assert_eq!(iso_time_text(253402300799), "9999-12-31T23:59:59Z");
    assert_eq!(iso_time_text(253402300800), "10000-01-01T00:00:00Z");
}
