use shapalizer::resolution::parse_resolution;

#[test]
fn parses_a_plain_resolution() {
    assert_eq!(parse_resolution(b"1920x1080"), Some((1920, 1080)));
    assert_eq!(parse_resolution(b"1x1"), Some((1, 1)));
    assert_eq!(parse_resolution(b"0x0"), Some((0, 0)));
}

#[test]
fn parses_the_largest_fitting_value() {
    assert_eq!(parse_resolution(b"4294967295x1"), Some((4294967295, 1)));
    assert_eq!(parse_resolution(b"4294967296x1"), None);
    assert_eq!(parse_resolution(b"1x99999999999999999999"), None);
}

#[test]
fn refuses_malformed_resolutions() {
    assert_eq!(parse_resolution(b""), None);
    assert_eq!(parse_resolution(b"1920"), None);
    assert_eq!(parse_resolution(b"x1080"), None);
    assert_eq!(parse_resolution(b"1920x"), None);
    assert_eq!(parse_resolution(b"19a0x10"), None);
    assert_eq!(parse_resolution(b"1920x10a"), None);
    assert_eq!(parse_resolution(b"1920x1080x2"), None);
    assert_eq!(parse_resolution(b" 1920x1080"), None);
    assert_eq!(parse_resolution(b"-1x5"), None);
}
