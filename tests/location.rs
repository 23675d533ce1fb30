use weathrs::location::is_zip_code;

#[test]
fn service_test_is_zip_code_us_numeric() {
    assert!(is_zip_code("60601"));
    assert!(is_zip_code("90210"));
    assert!(is_zip_code("10001"));
}

#[test]
fn service_test_is_zip_code_with_country() {
    assert!(is_zip_code("60601,US"));
    assert!(is_zip_code("90210,US"));
    assert!(is_zip_code("10001,DE"));
}

#[test]
fn service_test_is_zip_code_trims_whitespace() {
    assert!(is_zip_code(" 60601 "));
    assert!(is_zip_code("60601 ,US"));
}

#[test]
fn service_test_is_not_zip_code_city_names() {
    assert!(!is_zip_code("Chicago"));
    assert!(!is_zip_code("London"));
    assert!(!is_zip_code("New York"));
}

#[test]
fn service_test_is_not_zip_code_city_with_country() {
    assert!(!is_zip_code("London,GB"));
    assert!(!is_zip_code("Paris,FR"));
}

#[test]
fn service_test_is_not_zip_code_mixed() {
    assert!(!is_zip_code("E14 5AB"));
    assert!(!is_zip_code("SW1A 1AA,GB"));
}

#[test]
fn service_test_is_not_zip_code_multiple_commas() {
    assert!(!is_zip_code("60601,US,IL"));
}
