use xphoto::testdata::{
    album_photo_counts, exif_datetime, family_weekend_dates, parse_options, parse_required_value,
    photo_marker, photo_relative_path, plan_strategy, plan_trip_photo, sample_plan,
    signed_decimal_string, trip_album_dir, wants_help, weekend_trip_dates, FamilyWeekendSpec,
    PlanStrategy, FALLBACK_MTIME,
};

fn args(v: &[&str]) -> Vec<String> {
    v.iter().map(|s| s.to_string()).collect()
}

#[test]
fn strategies_by_name() {
    assert_eq!(plan_strategy("sample"), Ok(PlanStrategy::Sample));
    assert_eq!(
        plan_strategy("family_us_weekends_small"),
        Ok(PlanStrategy::FamilyWeekends(FamilyWeekendSpec {
            max_weekends: Some(4),
            min_photos_per_trip: 3,
            max_photos_per_trip: 6,
        }))
    );
    assert_eq!(
        plan_strategy("family_us_weekends_medium"),
        Ok(PlanStrategy::FamilyWeekends(FamilyWeekendSpec {
            max_weekends: Some(12),
            min_photos_per_trip: 8,
            max_photos_per_trip: 16,
        }))
    );
    let full = Ok(PlanStrategy::FamilyWeekends(FamilyWeekendSpec {
        max_weekends: None,
        min_photos_per_trip: 10,
        max_photos_per_trip: 100,
    }));
    assert_eq!(plan_strategy("family_us_weekends_2025"), full);
    assert_eq!(plan_strategy("family_us_weekends"), full);
    assert_eq!(plan_strategy("holiday"), Err("unknown strategy: holiday".to_string()));
}

#[test]
fn first_saturdays_of_2025() {
    assert_eq!(
        weekend_trip_dates(2025, Some(4)),
        Ok(vec![(1, 4), (1, 11), (1, 18), (1, 25)])
    );
}

#[test]
fn all_saturdays_of_2025_and_2024() {
    let all = weekend_trip_dates(2025, None).unwrap();
    assert_eq!(all.len(), 52);
    assert_eq!(all[0], (1, 4));
    assert_eq!(all[51], (12, 27));
    let leap = weekend_trip_dates(2024, None).unwrap();
    assert_eq!(leap.len(), 52);
    assert_eq!(leap[0], (1, 6));
    assert!(leap.contains(&(3, 2)));
    assert_eq!(leap[51], (12, 28));
}

#[test]
fn a_limit_above_the_year_keeps_every_saturday() {
    assert_eq!(weekend_trip_dates(2025, Some(60)).unwrap().len(), 52);
    assert_eq!(weekend_trip_dates(2025, Some(0)), Ok(vec![]));
}

#[test]
fn years_without_dates_are_refused() {
    assert_eq!(
        weekend_trip_dates(300000, None),
        Err("invalid year 300000".to_string())
    );
    assert_eq!(
        weekend_trip_dates(-300000, Some(2)),
        Err("invalid year -300000".to_string())
    );
}

#[test]
fn the_last_supported_year_overflows_unless_cut_short() {
    assert_eq!(weekend_trip_dates(262142, None), Err("date overflow".to_string()));
    assert_eq!(weekend_trip_dates(262142, Some(1)).unwrap().len(), 1);
}

#[test]
fn empty_photo_range_is_refused_first() {
    let spec = FamilyWeekendSpec {
        max_weekends: Some(1),
        min_photos_per_trip: 5,
        max_photos_per_trip: 3,
    };
    assert_eq!(
        family_weekend_dates(300000, spec),
        Err("invalid family weekend photo count range".to_string())
    );
}

#[test]
fn trip_names_and_markers() {
    assert_eq!(
        trip_album_dir(2025, 1, 4, "Zion.National.Park"),
        "2025.01.04.Zion.National.Park"
    );
    assert_eq!(trip_album_dir(-5, 3, 9, "P"), "-005.03.09.P");
    assert_eq!(photo_marker(2025, 1, 4, 7), "IMG_20250104_007");
    assert_eq!(photo_marker(2025, 12, 27, 100), "IMG_20251227_100");
    assert_eq!(exif_datetime(2025, 1, 4, 6, 5, 9), "2025:01:04 06:05:09");
    assert_eq!(photo_relative_path("2025.01.04.Zion", "IMG_1"), "2025.01.04.Zion/IMG_1.jpg");
    assert_eq!(signed_decimal_string(-42), "-42");
}

#[test]
fn planned_photo_times() {
    let p = plan_trip_photo(2025, 1, 4, "2025.01.04.Zion", 0, 10, 11, 12);
    assert_eq!(p.album_dir_name, "2025.01.04.Zion");
    assert_eq!(p.marker, "IMG_20250104_001");
    assert_eq!(p.date_time_original, "2025:01:04 10:11:12");
    assert_eq!(p.mtime_unix, 1_735_985_472);
    let bad = plan_trip_photo(2025, 1, 4, "d", 4, 24, 0, 0);
    assert_eq!(bad.mtime_unix, FALLBACK_MTIME);
    assert_eq!(bad.marker, "IMG_20250104_005");
}

#[test]
fn sample_strategy_photo() {
    let p = sample_plan();
    assert_eq!(p.album_dir_name, "2020.02.01.Sample.Album");
    assert_eq!(p.marker, "IMG_SAMPLE_001");
    assert_eq!(p.date_time_original, "2020:02:01 10:11:12");
    assert_eq!(p.mtime_unix, 1_580_513_600);
}

#[test]
fn options_defaults_and_flags() {
    assert_eq!(parse_options(&args(&[])).unwrap_err(), "missing output_dir");
    let o = parse_options(&args(&["out"])).unwrap();
    assert_eq!(o.output_dir, "out");
    assert_eq!(o.strategy, "family_us_weekends_2025");
    assert_eq!(o.year, 2025);
    assert_eq!(o.seed, 42);
    assert!(!o.clean);
    assert_eq!(o.manifest_path, None);
    let o = parse_options(&args(&[
        "out", "--strategy", "sample", "--year", "+1999", "--seed", "7", "--clean", "--manifest",
        "m.json",
    ]))
    .unwrap();
    assert_eq!(o.strategy, "sample");
    assert_eq!(o.year, 1999);
    assert_eq!(o.seed, 7);
    assert!(o.clean);
    assert_eq!(o.manifest_path, Some("m.json".to_string()));
}

#[test]
fn options_errors() {
    let e = |v: &[&str]| parse_options(&args(v)).unwrap_err();
    assert_eq!(e(&["out", "-h"]), "help requested");
    assert_eq!(e(&["out", "--strategy"]), "--strategy requires a value");
    assert_eq!(e(&["out", "--manifest", "--clean"]), "--manifest requires a value");
    assert_eq!(e(&["out", "--bogus"]), "unknown argument: --bogus");
    assert_eq!(
        e(&["out", "--year", "abc"]),
        "invalid --year value 'abc': invalid digit found in string"
    );
    assert_eq!(
        e(&["out", "--year", ""]),
        "invalid --year value '': cannot parse integer from empty string"
    );
    assert_eq!(
        e(&["out", "--year", "99999999999"]),
        "invalid --year value '99999999999': number too large to fit in target type"
    );
    assert_eq!(
        e(&["out", "--year", "-99999999999"]),
        "invalid --year value '-99999999999': number too small to fit in target type"
    );
    assert_eq!(
        e(&["out", "--seed", "-1"]),
        "invalid --seed value '-1': invalid digit found in string"
    );
    assert_eq!(
        e(&["out", "--seed", "+"]),
        "invalid --seed value '+': invalid digit found in string"
    );
}

#[test]
fn parse_errors_agree_with_std() {
    for text in ["", "+", "-", "12a", "4294967296", "-2147483649", "2147483647", "-7", "007"] {
        let expected = text.parse::<i32>().map_err(|e| e.to_string());
        let got = parse_options(&args(&["out", "--year", text])).map(|o| o.year);
        match expected {
            Ok(v) => assert_eq!(got, Ok(v)),
            Err(m) => assert_eq!(got, Err(format!("invalid --year value '{}': {}", text, m))),
        }
    }
}

#[test]
fn required_value_rules() {
    let a = args(&["out", "--year", "--seed"]);
    assert_eq!(parse_required_value(&a, 1, "--year"), Err("--year requires a value".to_string()));
    let b = args(&["out", "--year", "-5"]);
    assert_eq!(parse_required_value(&b, 1, "--year"), Ok("-5".to_string()));
}

#[test]
fn help_anywhere() {
    assert!(wants_help(&args(&["out", "--year", "--help"])));
    assert!(wants_help(&args(&["-h"])));
    assert!(!wants_help(&args(&["out", "--helpme"])));
}

#[test]
fn album_counts_are_sorted_and_exact() {
    let names = args(&["b", "a", "b", "c", "a", "b"]);
    assert_eq!(
        album_photo_counts(&names),
        vec![("a".to_string(), 2), ("b".to_string(), 3), ("c".to_string(), 1)]
    );
    assert_eq!(album_photo_counts(&vec![]), vec![]);
}
