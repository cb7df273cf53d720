use xphoto::album_rules::{parse_album_from_dir_name, parse_by_delimiter};

#[test]
fn parses_dot_mode() {
    let matched = parse_album_from_dir_name("2020.02.01.大沙河长廊.人才公园.流花山").unwrap();
    assert_eq!(matched.rule_name, "date_dot");
    assert_eq!(matched.album_date, "2020-02-01");
    assert_eq!(matched.album_name, "大沙河长廊.人才公园.流花山");
}

#[test]
fn parses_underscore_mode() {
    let matched = parse_album_from_dir_name("2020_02_01_人才公园_流花山").unwrap();
    assert_eq!(matched.rule_name, "date_underscore");
    assert_eq!(matched.album_date, "2020-02-01");
    assert_eq!(matched.album_name, "人才公园_流花山");
}

#[test]
fn parses_hyphen_mode() {
    let matched = parse_album_from_dir_name("2020-02-01-深圳湾公园").unwrap();
    assert_eq!(matched.rule_name, "date_hyphen");
    assert_eq!(matched.album_date, "2020-02-01");
    assert_eq!(matched.album_name, "深圳湾公园");
}

#[test]
fn invalid_dates_and_blank_names_are_refused() {
    assert!(parse_album_from_dir_name("2021.02.29.Leap").is_none());
    assert!(parse_album_from_dir_name("2020.13.01.Month").is_none());
    assert!(parse_album_from_dir_name("2020.02.01.   ").is_none());
    assert!(parse_album_from_dir_name("misc_folder").is_none());
    assert!(parse_album_from_dir_name("2020.02.01").is_none());
}

#[test]
fn leap_day_and_trimmed_name() {
    let m = parse_album_from_dir_name("2024.02.29.  Trip  ").unwrap();
    assert_eq!(m.album_date, "2024-02-29");
    assert_eq!(m.album_name, "Trip");
}

#[test]
fn single_digit_fields_are_padded() {
    let m = parse_by_delimiter("date_dot", "2020.2.1.Walk", '.').unwrap();
    assert_eq!(m.album_date, "2020-02-01");
    assert_eq!(m.album_name, "Walk");
}
