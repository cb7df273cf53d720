use xphoto::album_cover::repaired_cover;

fn ids(v: &[&str]) -> Vec<String> {
    v.iter().map(|s| s.to_string()).collect()
}

#[test]
fn first_photo_added_becomes_the_cover() {
    assert_eq!(repaired_cover(&None, &ids(&["a", "b"])), Some("a".to_string()));
}

#[test]
fn cover_still_in_album_is_kept() {
    assert_eq!(repaired_cover(&Some("b".to_string()), &ids(&["a", "b"])), Some("b".to_string()));
}

#[test]
fn removed_cover_falls_back_to_first_photo() {
    assert_eq!(repaired_cover(&Some("b".to_string()), &ids(&["a"])), Some("a".to_string()));
}

#[test]
fn empty_album_has_no_cover() {
    assert_eq!(repaired_cover(&Some("a".to_string()), &ids(&[])), None);
    assert_eq!(repaired_cover(&None, &ids(&[])), None);
}

#[test]
fn repairing_twice_changes_nothing() {
    let members = ids(&["x", "y"]);
    let once = repaired_cover(&Some("gone".to_string()), &members);
    assert_eq!(repaired_cover(&once, &members), once);
}
