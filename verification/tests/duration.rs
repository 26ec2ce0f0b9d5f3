use cineforge::duration::parse_duration;

#[test]
fn test_parse_3to5_minutes() {
    let (min, max) = parse_duration("3-5分钟");
    assert_eq!(min, 180);
    assert_eq!(max, 300);
}

#[test]
fn test_parse_10_minutes() {
    let (min, max) = parse_duration("10分钟");
    assert_eq!(min, 600);
    assert_eq!(max, 600);
}

#[test]
fn test_parse_empty() {
    let (min, _max) = parse_duration("");
    assert_eq!(min, 180);
}

#[test]
fn parse_duration_dash_variants() {
    assert_eq!(parse_duration("2–4 分钟"), (120, 240));
    assert_eq!(parse_duration("约 1—2分"), (60, 120));
}

#[test]
fn parse_duration_single_without_unit_word() {
    assert_eq!(parse_duration("约7分"), (420, 420));
}

#[test]
fn parse_duration_no_number_falls_back() {
    assert_eq!(parse_duration("短片"), (180, 300));
    assert_eq!(parse_duration("90秒"), (180, 300));
}
