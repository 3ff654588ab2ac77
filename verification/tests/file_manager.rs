use bandcamper::file_manager::{
    child_path, copy_path, is_directory_complete, sanitize, temporary_name, DirectoryState,
    FileManager, SENTINEL_NAME, TEMPORARY_PREFIX,
};
use bandcamper::text::{ends_with, same_text};
use bandcamper::types::{CollectionItem, CollectionItemKind};

fn manager() -> FileManager {
    FileManager { root_directory: "root".to_string() }
}

fn album(artist: &str, title: &str) -> CollectionItem {
    CollectionItem {
        itype: CollectionItemKind::Album,
        title: title.to_string(),
        artist: artist.to_string(),
        download_url: "".to_string(),
    }
}

fn track(artist: &str, title: &str) -> CollectionItem {
    CollectionItem {
        itype: CollectionItemKind::Track,
        title: title.to_string(),
        artist: artist.to_string(),
        download_url: "".to_string(),
    }
}

fn path(parts: &[&str]) -> Vec<String> {
    parts.iter().map(|part| part.to_string()).collect()
}

fn state(exists: bool, has_sentinel: bool, has_entries: bool) -> DirectoryState {
    DirectoryState { exists, has_sentinel, has_entries }
}

#[test]
fn sanitize_replaces_each_forbidden_character() {
    assert_eq!(sanitize("/"), "_");
    assert_eq!(sanitize("<"), "_");
    assert_eq!(sanitize(">"), "_");
    assert_eq!(sanitize(":"), "_");
    assert_eq!(sanitize("|"), "_");
    assert_eq!(sanitize("?"), "_");
    assert_eq!(sanitize("*"), "_");
    assert_eq!(sanitize("\""), "_");
    assert_eq!(sanitize("\\"), "_");
    assert_eq!(sanitize("/<>:|?*\"\\"), "_________");
}

#[test]
fn sanitize_keeps_every_other_character() {
    assert_eq!(sanitize(""), "");
    assert_eq!(sanitize("My CR"), "My CR");
    assert_eq!(sanitize("Abc 123"), "Abc 123");
    assert_eq!(sanitize("a.b-c_d (e) [f] {g} 'h' & i"), "a.b-c_d (e) [f] {g} 'h' & i");
    assert_eq!(sanitize("Björk — Ünïcödé"), "Björk — Ünïcödé");
    assert_eq!(sanitize("AC/DC: Back?"), "AC_DC_ Back_");
    assert_eq!(sanitize("a\nb"), "a\nb");
}

#[test]
fn sanitize_collides_only_where_masked() {
    assert_eq!(sanitize("a/b"), sanitize("a:b"));
    assert_eq!(sanitize("a/b"), sanitize("a_b"));
    assert_ne!(sanitize("a/b"), sanitize("a-b"));
    assert_ne!(sanitize("a/b"), sanitize("/ab"));
    assert_ne!(sanitize("a/"), sanitize("a"));
    assert_eq!(sanitize(&sanitize("a/b:c")), sanitize("a/b:c"));
}

#[test]
fn album_directory_is_root_artist_title() {
    assert_eq!(manager().get_album_directory("My CR", "Abc 123"), path(&["root", "My CR", "Abc 123"]));
    assert_eq!(manager().get_album_directory("A/B", "C:D"), path(&["root", "A_B", "C_D"]));
    assert_eq!(manager().get_item_directory(&album("A/B", "C:D")), path(&["root", "A_B", "C_D"]));
}

#[test]
fn track_directory_is_root_artist() {
    assert_eq!(manager().get_track_directory("Boopers"), path(&["root", "Boopers"]));
    assert_eq!(manager().get_track_directory("Who?"), path(&["root", "Who_"]));
    assert_eq!(manager().get_item_directory(&track("Boopers", "Hewwo")), path(&["root", "Boopers"]));
}

#[test]
fn track_is_placed_in_the_artist_directory() {
    let (temporary, placed) = manager().get_filepath(&track("Boopers", "Hewwo"), "track.flac");
    assert_eq!(placed, path(&["root", "Boopers", "track.flac"]));
    assert_eq!(temporary, path(&["root", "Boopers", ".temporary.track.flac"]));
}

#[test]
fn album_file_is_placed_in_the_album_directory() {
    let (temporary, placed) = manager().get_filepath(&album("My CR", "Abc 123"), "file1.flac");
    assert_eq!(placed, path(&["root", "My CR", "Abc 123", "file1.flac"]));
    assert_eq!(temporary, path(&["root", "My CR", "Abc 123", ".temporary.file1.flac"]));
}

#[test]
fn album_is_completed_iff_present_unmarked_and_filled() {
    let item = album("a", "b");
    assert!(manager().is_completed(&item, &state(true, false, true)));
    assert!(!manager().is_completed(&item, &state(false, false, false)));
    assert!(!manager().is_completed(&item, &state(true, true, true)));
    assert!(!manager().is_completed(&item, &state(true, true, false)));
    assert!(!manager().is_completed(&item, &state(true, false, false)));
    assert!(!manager().is_completed(&item, &state(false, false, true)));
    assert!(!manager().is_completed(&item, &state(false, true, true)));
}

#[test]
fn track_is_never_completed_as_a_whole() {
    let item = track("a", "b");
    assert!(!manager().is_completed(&item, &state(true, false, true)));
    assert!(!manager().is_completed(&item, &state(false, false, false)));
    assert!(!manager().is_completed(&item, &state(true, true, true)));
}

#[test]
fn album_file_is_completed_with_its_album() {
    let item = album("a", "b");
    assert!(manager().is_completed_file(&item, &state(true, false, true), false));
    assert!(manager().is_completed_file(&item, &state(true, false, true), true));
    assert!(!manager().is_completed_file(&item, &state(true, true, true), true));
    assert!(!manager().is_completed_file(&item, &state(true, false, false), true));
    assert!(!manager().is_completed_file(&item, &state(false, false, false), true));
}

#[test]
fn track_file_is_completed_iff_it_exists() {
    let item = track("a", "b");
    assert!(manager().is_completed_file(&item, &state(true, true, true), true));
    assert!(manager().is_completed_file(&item, &state(false, false, false), true));
    assert!(!manager().is_completed_file(&item, &state(true, false, true), false));
}

#[test]
fn complete_removes_the_marker_only_where_it_is() {
    assert_eq!(
        manager().complete(&album("My CR", "Abc 123"), true),
        Some(path(&["root", "My CR", "Abc 123", ".incomplete"]))
    );
    assert_eq!(manager().complete(&album("My CR", "Abc 123"), false), None);
    assert_eq!(
        manager().complete(&track("Boopers", "Hewwo"), true),
        Some(path(&["root", "Boopers", ".incomplete"]))
    );
    assert_eq!(manager().complete(&track("Boopers", "Hewwo"), false), None);
}

#[test]
fn reserved_names() {
    assert_eq!(SENTINEL_NAME, ".incomplete");
    assert_eq!(TEMPORARY_PREFIX, ".temporary.");
    assert_eq!(temporary_name("a.zip"), ".temporary.a.zip");
    assert_eq!(temporary_name(""), ".temporary.");
}

#[test]
fn paths_are_copied_and_extended() {
    let directory = path(&["root", "x"]);
    assert_eq!(copy_path(&directory), directory);
    assert_eq!(copy_path(&Vec::new()), Vec::<String>::new());
    assert_eq!(child_path(&directory, "y".to_string()), path(&["root", "x", "y"]));
}

#[test]
fn texts_are_compared_character_by_character() {
    assert!(same_text("", ""));
    assert!(same_text("abc", "abc"));
    assert!(same_text("träck", "träck"));
    assert!(!same_text("abc", "abd"));
    assert!(!same_text("abc", "ab"));
    assert!(!same_text("", "a"));
    assert!(!same_text("Abc", "abc"));
    assert!(ends_with("archive.zip", ".zip"));
    assert!(ends_with(".zip", ".zip"));
    assert!(ends_with("abc", ""));
    assert!(ends_with("", ""));
    assert!(ends_with("x.bandcamp.com", "bandcamp.com"));
    assert!(!ends_with("zip", ".zip"));
    assert!(!ends_with("archive.zip.flac", ".zip"));
    assert!(!ends_with("archive.ZIP", ".zip"));
    assert!(!ends_with("", "a"));
    assert!(ends_with("bä", "ä"));
    assert!(!ends_with("ba", "ä"));
}

#[test]
fn directory_is_complete_iff_present_unmarked_and_filled() {
    assert!(is_directory_complete(&state(true, false, true)));
    assert!(!is_directory_complete(&state(true, false, false)));
    assert!(!is_directory_complete(&state(true, true, true)));
    assert!(!is_directory_complete(&state(false, false, true)));
}
