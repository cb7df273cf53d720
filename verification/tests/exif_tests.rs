use xphoto::exif_writer::{
    append_ifd_entry, append_ifd_entry_ascii_inline, append_rational_triplet, build_exif_payload,
    exif_datetime_ok, splice_exif, ExifWriteError, GpsFix,
};

const DT: &[u8] = b"2020:02:01 10:11:12";

fn fix() -> GpsFix {
    GpsFix {
        lat_ref: b'N',
        lat: [(37, 1), (51, 1), (360_000, 10_000)],
        lng_ref: b'W',
        lng: [(119, 1), (32, 1), (240_000, 10_000)],
    }
}

#[test]
fn ifd_entries_are_little_endian() {
    let mut b = Vec::new();
    append_ifd_entry(&mut b, 0x0132, 2, 20, 0x01020304);
    assert_eq!(b, vec![0x32, 0x01, 2, 0, 20, 0, 0, 0, 4, 3, 2, 1]);
    let mut c = Vec::new();
    append_ifd_entry_ascii_inline(&mut c, 0x0001, b'N');
    assert_eq!(c, vec![1, 0, 2, 0, 2, 0, 0, 0, b'N', 0, 0, 0]);
    let mut d = Vec::new();
    append_rational_triplet(&mut d, [(1, 2), (3, 4), (5, 6)]);
    assert_eq!(d, vec![1, 0, 0, 0, 2, 0, 0, 0, 3, 0, 0, 0, 4, 0, 0, 0, 5, 0, 0, 0, 6, 0, 0, 0]);
}

#[test]
fn payload_without_position() {
    let p = build_exif_payload(&DT.to_vec(), None);
    assert_eq!(p.len(), 102);
    assert_eq!(&p[0..10], b"Exif\0\0II*\0");
    let tiff = &p[6..];
    assert_eq!(&tiff[4..8], &[8, 0, 0, 0]);
    assert_eq!(&tiff[8..10], &[2, 0]);
    // the first entry points at offset 38, where the date lies
    assert_eq!(&tiff[18..22], &[38, 0, 0, 0]);
    assert_eq!(&tiff[38..57], DT);
    assert_eq!(tiff[57], 0);
    // the EXIF sub-IFD at 58 points at its own copy at 76
    assert_eq!(&tiff[58..60], &[1, 0]);
    assert_eq!(&tiff[68..72], &[76, 0, 0, 0]);
    assert_eq!(&tiff[76..95], DT);
}

#[test]
fn payload_with_position() {
    let p = build_exif_payload(&DT.to_vec(), Some(fix()));
    assert_eq!(p.len(), 216);
    let tiff = &p[6..];
    assert_eq!(&tiff[8..10], &[3, 0]);
    assert_eq!(&tiff[50..69], DT);
    assert_eq!(&tiff[108..110], &[4, 0]);
    assert_eq!(tiff[118], b'N');
    assert_eq!(&tiff[130..134], &[162, 0, 0, 0]);
    assert_eq!(&tiff[162..166], &[37, 0, 0, 0]);
    assert_eq!(&tiff[186..190], &[119, 0, 0, 0]);
}

#[test]
fn splice_puts_app1_after_start_marker() {
    let jpeg = vec![0xFF, 0xD8, 0xFF, 0xDB, 1, 2, 3];
    let out = splice_exif(&jpeg, &DT.to_vec(), None).unwrap();
    assert_eq!(&out[0..4], &[0xFF, 0xD8, 0xFF, 0xE1]);
    assert_eq!(&out[4..6], &[0, 104]);
    assert_eq!(&out[6..12], b"Exif\0\0");
    assert_eq!(out.len(), jpeg.len() + 102 + 4);
    assert_eq!(&out[108..], &jpeg[2..]);
}

#[test]
fn splice_errors() {
    let jpeg = vec![0xFF, 0xD8, 0xFF, 0xDB];
    assert_eq!(
        splice_exif(&jpeg, &b"2020:02:01".to_vec(), None),
        Err(ExifWriteError::InvalidDateTime)
    );
    assert_eq!(
        splice_exif(&vec![0x89, 0x50, 0x4E, 0x47], &DT.to_vec(), None),
        Err(ExifWriteError::NotJpeg)
    );
    assert_eq!(
        splice_exif(&vec![0xFF, 0xD8], &DT.to_vec(), None),
        Err(ExifWriteError::NotJpeg)
    );
    assert!(exif_datetime_ok(&DT.to_vec()));
    assert!(!exif_datetime_ok(&b"2020".to_vec()));
    assert_eq!(
        ExifWriteError::InvalidDateTime.message("2020", "/p.jpg"),
        "invalid exif datetime format '2020', expect YYYY:MM:DD HH:MM:SS"
    );
    assert_eq!(
        ExifWriteError::NotJpeg.message("x", "/p.jpg"),
        "/p.jpg is not a valid jpeg file"
    );
}
