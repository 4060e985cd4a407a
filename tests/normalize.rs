use media_collect::identity::normalize_path_string;
use media_collect::media::is_media_extension;

#[test]
fn strips_verbatim_prefix_on_windows() {
    assert_eq!(normalize_path_string("\\\\?\\C:\\music\\a.mp3", true), "C:\\music\\a.mp3");
}

#[test]
fn keeps_prefix_elsewhere() {
    assert_eq!(normalize_path_string("\\\\?\\C:\\a.mp3", false), "\\\\?\\C:\\a.mp3");
}

#[test]
fn keeps_unprefixed_path() {
    assert_eq!(normalize_path_string("/home/u/a.mp3", true), "/home/u/a.mp3");
    assert_eq!(normalize_path_string("\\\\?", true), "\\\\?");
    assert_eq!(normalize_path_string("", true), "");
}

#[test]
fn strips_only_the_prefix() {
    assert_eq!(normalize_path_string("\\\\?\\", true), "");
    assert_eq!(normalize_path_string("\\\\?\\\\\\?\\x", true), "\\\\?\\x");
}

#[test]
fn media_extensions_in_any_case() {
    for e in ["mp3", "MP3", "Mp3", "mP3", "mp4", "MP4", "Mp4"] {
        assert!(is_media_extension(e), "{}", e);
    }
}

#[test]
fn other_extensions_rejected() {
    for e in ["", "mp", "mp5", "wav", "txt", "mp33", "xmp3", "m p3", "\u{ff4d}p3"] {
        assert!(!is_media_extension(e), "{}", e);
    }
}

#[test]
fn network_path_keeps_native_form_on_windows() {
    assert_eq!(normalize_path_string("\\\\?\\UNC\\srv\\share\\a.mp3", true), "\\\\srv\\share\\a.mp3");
    assert_eq!(normalize_path_string("\\\\?\\UNC\\", true), "\\\\");
}

#[test]
fn network_path_untouched_elsewhere() {
    assert_eq!(normalize_path_string("\\\\?\\UNC\\srv\\share\\a.mp3", false), "\\\\?\\UNC\\srv\\share\\a.mp3");
}

#[test]
fn near_network_prefix_strips_only_verbatim_part() {
    assert_eq!(normalize_path_string("\\\\?\\UNCX\\a.mp3", true), "UNCX\\a.mp3");
    assert_eq!(normalize_path_string("\\\\?\\unc\\srv\\a.mp3", true), "unc\\srv\\a.mp3");
}
