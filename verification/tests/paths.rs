use flowshare_core::block_hash::block_generation_paths;
use flowshare_core::file_transfer::safe_name;
use flowshare_core::paths::{
    file_name, generation_paths, is_absolute, is_child, join_path, number_name, with_file_name,
    PathStyle,
};
use flowshare_core::platform_handles::check_state_root;
use flowshare_core::received_files::{
    duplicate_destination_name, ensure_contained_destination, incoming_artifact_directory,
};
use flowshare_core::file_transfer::DestinationChoice;
use flowshare_core::transfer_setup::{outgoing_display_name, OutgoingSource};

const UNIX: PathStyle = PathStyle::Unix;
const WINDOWS: PathStyle = PathStyle::Windows;

fn name(style: PathStyle, path: &str) -> Option<String> {
    file_name(style, path)
}

#[test]
fn unix_paths_are_split_as_the_system_splits_them() {
    for path in [
        "/a/b.txt", "a//b", "a/./b", "./a", "a/..", "..", ".", "/", "", "a/", "/a/.", "C:\\x\\y",
        "a\\b", "//x", "a/b/.",
    ] {
        let real = std::path::Path::new(path);
        assert_eq!(
            name(UNIX, path).as_deref(),
            real.file_name().and_then(|value| value.to_str()),
            "{path}"
        );
        assert_eq!(is_absolute(UNIX, path), real.is_absolute(), "{path}");
        for other in ["b", "/b", "", "./b", "../b", "b/c", "."] {
            assert_eq!(
                join_path(UNIX, path, other),
                real.join(other).to_str().unwrap(),
                "{path} {other}"
            );
            assert_eq!(
                with_file_name(UNIX, path, other),
                real.with_file_name(other).to_str().unwrap(),
                "{path} {other}"
            );
            assert_eq!(
                is_child(UNIX, other, path),
                std::path::Path::new(other).parent() == Some(real),
                "{path} {other}"
            );
        }
    }
}

#[test]
fn windows_paths_end_in_a_name_behind_either_separator() {
    assert_eq!(name(WINDOWS, "C:\\dir\\movie.webm").as_deref(), Some("movie.webm"));
    assert_eq!(name(WINDOWS, "C:/dir/movie.webm").as_deref(), Some("movie.webm"));
    assert_eq!(name(WINDOWS, "C:movie.webm").as_deref(), Some("movie.webm"));
    assert_eq!(name(WINDOWS, "C:\\").as_deref(), None);
    assert_eq!(name(WINDOWS, "\\\\server\\share").as_deref(), None);
    assert_eq!(name(WINDOWS, "\\\\server\\share\\a.bin").as_deref(), Some("a.bin"));
    assert_eq!(name(WINDOWS, "\\\\?\\C:\\dir\\a/b").as_deref(), Some("a/b"));
    assert_eq!(name(WINDOWS, "\\\\?\\C:\\dir\\.").as_deref(), None);
    assert_eq!(name(WINDOWS, "dir\\.").as_deref(), Some("dir"));
    assert_eq!(name(WINDOWS, "\\\\.\\COM1").as_deref(), None);
}

#[test]
fn windows_paths_are_absolute_with_a_prefix_and_a_root() {
    for path in ["C:\\", "C:/x", "\\\\server\\share", "\\\\?\\C:\\x", "\\\\.\\COM1", "\\\\?\\x"] {
        assert!(is_absolute(WINDOWS, path), "{path}");
    }
    for path in ["C:", "C:x", "\\x", "/x", "x", "", "\\\\server"] {
        assert!(!is_absolute(WINDOWS, path), "{path}");
    }
}

#[test]
fn what_is_put_below_a_windows_path_keeps_or_replaces_it() {
    assert_eq!(join_path(WINDOWS, "C:\\dir", "a"), "C:\\dir\\a");
    assert_eq!(join_path(WINDOWS, "C:\\dir\\", "a"), "C:\\dir\\a");
    assert_eq!(join_path(WINDOWS, "C:/dir/", "a"), "C:/dir/a");
    assert_eq!(join_path(WINDOWS, "C:", "a"), "C:a");
    assert_eq!(join_path(WINDOWS, "C:\\dir", "D:\\x"), "D:\\x");
    assert_eq!(join_path(WINDOWS, "C:\\dir", "D:x"), "D:x");
    assert_eq!(join_path(WINDOWS, "C:\\dir", "\\x"), "C:\\x");
    assert_eq!(join_path(WINDOWS, "\\\\server\\share\\dir", "/x"), "\\\\server\\share/x");
    assert_eq!(join_path(WINDOWS, "", "a"), "a");
    assert_eq!(join_path(WINDOWS, "\\\\?\\C:\\dir", "a"), "\\\\?\\C:\\dir\\a");
    assert_eq!(join_path(WINDOWS, "\\\\?\\C:\\dir", "..\\a/b"), "\\\\?\\C:\\a\\b");
    assert_eq!(join_path(WINDOWS, "\\\\?\\C:\\dir", "\\x"), "\\\\?\\C:\\x");
    assert_eq!(join_path(WINDOWS, "\\\\?\\C:\\dir", ".."), "\\\\?\\C:\\");
    assert_eq!(join_path(WINDOWS, "\\\\?\\UNC\\server\\share\\dir", "a"), "\\\\?\\UNC\\server\\share\\dir\\a");
}

#[test]
fn received_files_stay_in_windows_directories() {
    for directory in [
        "C:\\Downloads",
        "C:\\",
        "C:",
        "downloads",
        "",
        "\\downloads",
        "\\\\server\\share",
        "\\\\server\\share\\dir",
        "\\\\?\\C:\\Downloads",
        "\\\\?\\UNC\\server\\share\\dir",
    ] {
        let path = join_path(WINDOWS, directory, "movie.webm");
        assert!(
            ensure_contained_destination(WINDOWS, directory, &path).is_ok(),
            "{directory}"
        );
        assert_eq!(name(WINDOWS, &path).as_deref(), Some("movie.webm"));
    }
    let path = join_path(WINDOWS, "\\\\server", "share");
    assert!(ensure_contained_destination(WINDOWS, "\\\\server", &path).is_err());
    assert!(is_child(WINDOWS, "c:/Downloads/a", "C:\\Downloads"));
    assert!(!is_child(WINDOWS, "D:\\Downloads\\a", "C:\\Downloads"));
    assert!(is_child(WINDOWS, "//server/share/a", "\\\\server\\share"));
    assert!(!is_child(WINDOWS, "\\\\server\\other\\a", "\\\\server\\share"));
}

#[test]
fn the_style_reaches_every_function_on_paths() {
    let source = OutgoingSource {
        path: "C:\\dir\\movie.webm".into(),
        registered_name: None,
        is_file: true,
        size: 4,
    };
    assert_eq!(outgoing_display_name(WINDOWS, &source).unwrap(), "movie.webm");
    assert_eq!(
        outgoing_display_name(UNIX, &source).unwrap_err(),
        "native-incoming-filename-unsafe"
    );
    assert_eq!(safe_name(WINDOWS, "C:\\dir\\movie.webm").unwrap(), "movie.webm");
    assert!(check_state_root(WINDOWS, "C:\\state").is_ok());
    assert!(check_state_root(WINDOWS, "/state").is_err());
    assert!(check_state_root(UNIX, "/state").is_ok());
    assert!(check_state_root(UNIX, "C:\\state").is_err());
    let blocks = block_generation_paths(WINDOWS, "C:\\state\\transfer.resume.current");
    assert_eq!(blocks.current, "C:\\state\\transfer.blocks.current");
    assert_eq!(blocks.previous, "C:\\state\\transfer.blocks.previous");
    assert_eq!(blocks.pending, "C:\\state\\transfer.blocks.pending");
    assert_eq!(
        incoming_artifact_directory(WINDOWS, "\\\\?\\C:\\Downloads", &[1; 16]),
        "\\\\?\\C:\\Downloads\\.flowshare-native\\01010101-0101-0101-0101-010101010101"
    );
    assert_eq!(
        duplicate_destination_name(WINDOWS, "C:\\Downloads", "movie.webm", false, Some((0, true)))
            .unwrap(),
        DestinationChoice::Probe(1, "C:\\Downloads\\movie (1).webm".into())
    );
    assert_eq!(
        duplicate_destination_name(UNIX, "/downloads", "/elsewhere/movie.webm", true, None)
            .unwrap(),
        DestinationChoice::Use("/elsewhere/movie.webm".into())
    );
}

#[test]
fn numbers_go_before_the_extension_of_the_file_name() {
    assert_eq!(number_name(UNIX, "archive.tar.zst", 3), "archive.tar (3).zst");
    assert_eq!(number_name(UNIX, ".profile", 1), ".profile (1)");
    assert_eq!(number_name(UNIX, "..", 1), "file (1)");
    assert_eq!(number_name(UNIX, "dir/movie.webm", 1), "movie (1).webm");
    assert_eq!(number_name(WINDOWS, "dir\\movie.webm", 1), "movie (1).webm");
    let generations = generation_paths("/state/transfer.resume.current");
    assert_eq!(generations.previous, "/state/transfer.resume.previous");
    assert_eq!(generations.pending, "/state/transfer.resume.pending");
}
