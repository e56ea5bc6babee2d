use imgvwr::util::get_file_id;
use imgvwr::util::get_files;
use imgvwr::util::is_file_supported;
use imgvwr::util::resolve;
use imgvwr::util::DirEntry;
use imgvwr::util::ResolveError;

fn file(name: &str) -> DirEntry {
    DirEntry { name: name.as_bytes().to_vec(), is_regular_file: true }
}

fn directory(name: &str) -> DirEntry {
    DirEntry { name: name.as_bytes().to_vec(), is_regular_file: false }
}

#[test]
fn supported_png() {
    assert_eq!(is_file_supported(&file("picture.png")), Some(true));
}

#[test]
fn supported_jpg() {
    assert_eq!(is_file_supported(&file("picture.jpg")), Some(true));
}

#[test]
fn unsupported_extension() {
    assert_eq!(is_file_supported(&file("notes.txt")), Some(false));
}

#[test]
fn uppercase_extension_is_not_supported() {
    assert_eq!(is_file_supported(&file("PICTURE.PNG")), Some(false));
}

#[test]
fn no_extension_reports_nothing() {
    assert_eq!(is_file_supported(&file("README")), None);
}

#[test]
fn hidden_file_has_no_extension() {
    assert_eq!(is_file_supported(&file(".png")), None);
}

#[test]
fn trailing_dot_is_an_empty_extension() {
    assert_eq!(is_file_supported(&file("broken.")), Some(false));
}

#[test]
fn last_extension_decides() {
    assert_eq!(is_file_supported(&file("archive.png.gz")), Some(false));
    assert_eq!(is_file_supported(&file("archive.gz.png")), Some(true));
}

#[test]
fn non_regular_entry_reports_nothing() {
    assert_eq!(is_file_supported(&directory("album.png")), None);
}

#[test]
fn get_files_filters_and_sorts() {
    let entries = vec![
        file("b.png"),
        directory("sub.png"),
        file("c.jpg"),
        file("notes.txt"),
        file("a.jpg"),
        file("README"),
    ];
    let files = get_files(&entries);
    let names: Vec<&[u8]> = files.iter().map(|f| f.as_slice()).collect();
    assert_eq!(names, vec![&b"a.jpg"[..], &b"b.png"[..], &b"c.jpg"[..]]);
}

#[test]
fn get_files_keeps_equal_names() {
    let entries = vec![file("a.png"), file("b.png"), file("a.png")];
    let files = get_files(&entries);
    let names: Vec<&[u8]> = files.iter().map(|f| f.as_slice()).collect();
    assert_eq!(names, vec![&b"a.png"[..], &b"a.png"[..], &b"b.png"[..]]);
}

#[test]
fn get_file_id_finds_first_match() {
    let files = vec![b"a.png".to_vec(), b"b.png".to_vec(), b"b.png".to_vec()];
    assert_eq!(get_file_id(&b"b.png".to_vec(), &files), Some(1));
    assert_eq!(get_file_id(&b"a.png".to_vec(), &files), Some(0));
}

#[test]
fn get_file_id_reports_absence() {
    let files = vec![b"a.png".to_vec(), b"b.png".to_vec()];
    assert_eq!(get_file_id(&b"z.png".to_vec(), &files), None);
}

#[test]
fn resolve_sorts_and_locates_start() {
    let entries = vec![file("b.png"), file("a.jpg"), file("c.jpg")];
    let start = b"a.jpg".to_vec();
    let (set, index) = resolve(&start, &entries).unwrap();
    assert_eq!(index, 0);
    assert_eq!(set.len(), 3);
    assert_eq!(set.get(0).as_slice(), &b"a.jpg"[..]);
    assert_eq!(set.get(1).as_slice(), &b"b.png"[..]);
    assert_eq!(set.get(2).as_slice(), &b"c.jpg"[..]);
}

#[test]
fn resolve_locates_start_in_sorted_order() {
    let entries = vec![file("d.png"), file("b.jpg"), file("a.jpg"), file("c.png")];
    let start = b"c.png".to_vec();
    let (set, index) = resolve(&start, &entries).unwrap();
    assert_eq!(set.len(), 4);
    assert_eq!(index, 2);
    assert_eq!(set.get(2).as_slice(), &b"c.png"[..]);
}

#[test]
fn resolve_empty_directory_fails_with_empty_set() {
    let entries: Vec<DirEntry> = Vec::new();
    let err = resolve(&b"a.jpg".to_vec(), &entries).unwrap_err();
    assert_eq!(err, ResolveError::EmptySet);
}

#[test]
fn resolve_without_qualifying_files_fails_with_empty_set() {
    let entries = vec![file("notes.txt"), directory("album.png")];
    let err = resolve(&b"a.jpg".to_vec(), &entries).unwrap_err();
    assert_eq!(err, ResolveError::EmptySet);
}

#[test]
fn resolve_missing_start_fails_with_start_not_found() {
    let entries = vec![file("a.jpg"), file("b.png")];
    let err = resolve(&b"z.png".to_vec(), &entries).unwrap_err();
    assert_eq!(err, ResolveError::StartNotFound);
}

#[test]
fn resolve_unsupported_start_fails_with_start_not_found() {
    let entries = vec![file("a.jpg"), file("start.txt")];
    let err = resolve(&b"start.txt".to_vec(), &entries).unwrap_err();
    assert_eq!(err, ResolveError::StartNotFound);
}
