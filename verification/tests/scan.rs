use modsync::scan::{has_archive_extension, scan_mods_dir, DirEntry, Listing, ScanError};

fn file(name: &[u8]) -> DirEntry {
    DirEntry { name: name.to_vec(), is_dir: false }
}

fn directory(name: &[u8]) -> DirEntry {
    DirEntry { name: name.to_vec(), is_dir: true }
}

fn scan_names(entries: Vec<DirEntry>) -> Vec<String> {
    let inventory = scan_mods_dir(&Listing::Entries(entries)).unwrap();
    let mut names = inventory.names().clone();
    names.sort();
    names
}

#[test]
fn scan_keeps_archives_and_passes_over_the_rest() {
    let names = scan_names(vec![
        directory(b"mods"),
        file(b"a.jar"),
        file(b"b.JAR"),
        file(b"c.txt"),
        directory(b"d"),
    ]);
    assert_eq!(names, vec!["a.jar".to_string(), "b.JAR".to_string()]);
}

#[test]
fn scan_of_a_missing_directory_fails() {
    assert_eq!(scan_mods_dir(&Listing::Missing).unwrap_err(), ScanError::NotFound);
}

#[test]
fn scan_of_an_empty_directory_is_empty() {
    let inventory = scan_mods_dir(&Listing::Entries(vec![directory(b"mods")])).unwrap();
    assert_eq!(inventory.len(), 0);
    assert!(inventory.is_empty());
}

#[test]
fn scan_passes_over_a_directory_named_like_an_archive() {
    let names = scan_names(vec![directory(b"d.jar"), file(b"e.jar")]);
    assert_eq!(names, vec!["e.jar".to_string()]);
}

#[test]
fn scan_fails_on_an_archive_whose_name_is_not_text() {
    let listing = Listing::Entries(vec![file(b"a.jar"), file(b"\xff\xfe.jar"), file(b"b.jar")]);
    assert_eq!(scan_mods_dir(&listing).unwrap_err(), ScanError::Encoding);
}

#[test]
fn scan_passes_over_other_files_whose_names_are_not_text() {
    let names = scan_names(vec![file(b"\xff\xfe.txt"), file(b"a.j\xffr"), file(b"ok.jar")]);
    assert_eq!(names, vec!["ok.jar".to_string()]);
}

#[test]
fn scan_passes_over_a_directory_whose_name_is_not_text() {
    let names = scan_names(vec![directory(b"\xff.jar"), file(b"ok.jar")]);
    assert_eq!(names, vec!["ok.jar".to_string()]);
}

#[test]
fn scan_reads_names_beyond_ascii() {
    let names = scan_names(vec![file("gr\u{fc}n.jar".as_bytes()), file("\u{1f600}.Jar".as_bytes())]);
    assert_eq!(names, vec!["gr\u{fc}n.jar".to_string(), "\u{1f600}.Jar".to_string()]);
}

#[test]
fn scan_passes_over_temporary_files() {
    let names = scan_names(vec![file(b"a.jar.part"), file(b"b.part"), file(b"c.jar")]);
    assert_eq!(names, vec!["c.jar".to_string()]);
}

#[test]
fn scan_holds_a_name_listed_twice_once() {
    let inventory =
        scan_mods_dir(&Listing::Entries(vec![file(b"a.jar"), file(b"a.jar")])).unwrap();
    assert_eq!(inventory.len(), 1);
    assert!(inventory.contains("a.jar"));
}

#[test]
fn archive_extension_is_matched_in_any_case() {
    assert!(has_archive_extension(b"a.jar"));
    assert!(has_archive_extension(b"a.JAR"));
    assert!(has_archive_extension(b"a.Jar"));
    assert!(has_archive_extension(b"a.jAr"));
    assert!(has_archive_extension(b"some.mod-1.2.3.jar"));
    assert!(has_archive_extension(b"..jar"));
}

#[test]
fn archive_extension_needs_a_stem_a_dot_and_the_three_letters() {
    assert!(!has_archive_extension(b""));
    assert!(!has_archive_extension(b"jar"));
    assert!(!has_archive_extension(b".jar"));
    assert!(!has_archive_extension(b"ajar"));
    assert!(!has_archive_extension(b"a.jar "));
    assert!(!has_archive_extension(b"a.jar.txt"));
    assert!(!has_archive_extension(b"a.ja"));
    assert!(!has_archive_extension(b"a.jarr"));
    assert!(!has_archive_extension(b"a.zip"));
    assert!(!has_archive_extension(b"a.j\x01r"));
    assert!(!has_archive_extension(b"a.\x8aar"));
    assert!(!has_archive_extension(b"a.jaR\x00"));
    assert!(!has_archive_extension(b"a.[AR"));
    assert!(!has_archive_extension(b"a.J@R"));
}
