use xphoto::exif_reader::{
    exif_summary, gps_for_scan, gps_of, parse_exif_datetime_to_rfc3339, parse_exif_for_scan, ExifField,
};
use xphoto::exif_writer::{splice_exif, GpsFix};

fn field(key: &str, value: &str, ifd: u16, context: u8, number: u16) -> ExifField {
    ExifField { key: key.to_string(), value: value.to_string(), ifd, context, number, rationals: vec![] }
}

#[test]
fn capture_times_in_both_writings() {
    assert_eq!(
        parse_exif_datetime_to_rfc3339("2020:02:01 10:11:12"),
        Some("2020-02-01T10:11:12+00:00".to_string())
    );
    assert_eq!(
        parse_exif_datetime_to_rfc3339("  2020-02-01 10:11:12 "),
        Some("2020-02-01T10:11:12+00:00".to_string())
    );
    assert_eq!(parse_exif_datetime_to_rfc3339("yesterday"), None);
}

#[test]
fn original_time_wins_over_file_time() {
    let fields = vec![
        field("a", "2019-01-01 00:00:00", 0, 0, 0x0132),
        field("b", "2020:02:01 10:11:12", 0, 1, 0x9003),
        field("c", "2021:01:01 00:00:00", 1, 1, 0x9003),
    ];
    let (shot, json) = exif_summary(&fields);
    assert_eq!(shot, Some("2020-02-01T10:11:12+00:00".to_string()));
    let v: serde_json::Value = serde_json::from_str(&json.unwrap()).unwrap();
    assert_eq!(v["a"], "2019-01-01 00:00:00");
    assert_eq!(v["c"], "2021:01:01 00:00:00");
    let only_file_time = vec![field("a", "2019:01:01 00:00:00", 0, 0, 0x0132)];
    assert_eq!(exif_summary(&only_file_time).0, Some("2019-01-01T00:00:00+00:00".to_string()));
    assert_eq!(exif_summary(&vec![]), (None, None));
}

#[test]
fn generated_photo_exif_reads_back() {
    let jpeg = vec![0xFF, 0xD8, 0xFF, 0xD9];
    let fix = GpsFix {
        lat_ref: b'N',
        lat: [(37, 1), (51, 1), (360_000, 10_000)],
        lng_ref: b'W',
        lng: [(119, 1), (32, 1), (240_000, 10_000)],
    };
    let bytes = splice_exif(&jpeg, &b"2020:02:01 10:11:12".to_vec(), Some(fix)).unwrap();
    let (shot, json) = parse_exif_for_scan(&bytes);
    assert_eq!(shot, Some("2020-02-01T10:11:12+00:00".to_string()));
    let text = json.unwrap();
    assert!(text.contains("36867"));
    assert_eq!(parse_exif_for_scan(&b"hello".to_vec()), (None, None));
}

#[test]
fn written_position_reads_back() {
    let jpeg = vec![0xFF, 0xD8, 0xFF, 0xD9];
    let fix = GpsFix {
        lat_ref: b'S',
        lat: [(33, 1), (52, 1), (84_000, 10_000)],
        lng_ref: b'E',
        lng: [(151, 1), (12, 1), (360_000, 10_000)],
    };
    let bytes = splice_exif(&jpeg, &b"2021:03:04 05:06:07".to_vec(), Some(fix)).unwrap();
    let got = gps_for_scan(&bytes).expect("position");
    assert_eq!(got.lat_ref, b'S');
    assert_eq!(got.lat, fix.lat);
    assert_eq!(got.lng_ref, b'E');
    assert_eq!(got.lng, fix.lng);
    let no_gps = splice_exif(&jpeg, &b"2021:03:04 05:06:07".to_vec(), None).unwrap();
    assert!(gps_for_scan(&no_gps).is_none());
    assert!(gps_for_scan(&b"hello".to_vec()).is_none());
}

#[test]
fn position_needs_references_and_denominators() {
    let mut lat = field("GPSLatitude", "x", 0, 2, 2);
    lat.rationals = vec![(1, 1), (2, 1), (3, 1)];
    let mut lng = field("GPSLongitude", "y", 0, 2, 4);
    lng.rationals = vec![(4, 1), (5, 1), (6, 1)];
    let fields = vec![field("GPSLatitudeRef", "N", 0, 2, 1), lat.clone(), field("GPSLongitudeRef", "W", 0, 2, 3), lng.clone()];
    let g = gps_of(&fields).expect("position");
    assert_eq!((g.lat_ref, g.lat, g.lng_ref, g.lng), (b'N', [(1, 1), (2, 1), (3, 1)], b'W', [(4, 1), (5, 1), (6, 1)]));
    let bad_ref = vec![field("GPSLatitudeRef", "Q", 0, 2, 1), lat.clone(), field("GPSLongitudeRef", "W", 0, 2, 3), lng.clone()];
    assert!(gps_of(&bad_ref).is_none());
    let mut zero = lng.clone();
    zero.rationals = vec![(4, 1), (5, 0), (6, 1)];
    let zero_den = vec![field("GPSLatitudeRef", "N", 0, 2, 1), lat, field("GPSLongitudeRef", "W", 0, 2, 3), zero];
    assert!(gps_of(&zero_den).is_none());
}
