use xtg::paths::{choose_data_dir, config_path, default_store_path, extension_of, file_name_of, path_join, temp_dir_for_post};
use xtg::text::{parse_i32, parse_i64, parse_u128, parse_u64, push_i64, push_u64, split_on, strip_end_str, strip_start_str, trim_str, CharPat};

#[test]
fn trim_removes_unicode_whitespace() {
    assert_eq!(trim_str("\u{3000} \t hello \u{a0}\n"), "hello");
    assert_eq!(trim_str("   "), "");
    assert_eq!(trim_str("a b"), "a b");
}

#[test]
fn strip_matches_from_either_end() {
    assert_eq!(strip_start_str("@@alice", CharPat::Exactly('@')), "alice");
    assert_eq!(strip_end_str("https://x/api///", CharPat::Exactly('/')), "https://x/api");
    assert_eq!(strip_start_str("  x", CharPat::Whitespace), "x");
}

#[test]
fn split_keeps_empty_pieces() {
    assert_eq!(split_on("a\n\nb\n", '\n'), vec!["a", "", "b", ""]);
    assert_eq!(split_on("", '\n'), vec![""]);
}

#[test]
fn parse_unsigned_like_std() {
    assert_eq!(parse_u64("18446744073709551615"), Some(u64::MAX));
    assert_eq!(parse_u64("18446744073709551616"), None);
    assert_eq!(parse_u64("+42"), Some(42));
    assert_eq!(parse_u64("+"), None);
    assert_eq!(parse_u64("-1"), None);
    assert_eq!(parse_u64(""), None);
    assert_eq!(parse_u64("12a"), None);
    assert_eq!(parse_u128("340282366920938463463374607431768211455"), Some(u128::MAX));
    assert_eq!(parse_u128("340282366920938463463374607431768211456"), None);
}

#[test]
fn parse_signed_like_std() {
    assert_eq!(parse_i64("-9223372036854775808"), Some(i64::MIN));
    assert_eq!(parse_i64("9223372036854775807"), Some(i64::MAX));
    assert_eq!(parse_i64("9223372036854775808"), None);
    assert_eq!(parse_i64("-"), None);
    assert_eq!(parse_i64("--1"), None);
    assert_eq!(parse_i32("12345"), Some(12345));
    assert_eq!(parse_i32("-2147483648"), Some(i32::MIN));
    assert_eq!(parse_i32("2147483648"), None);
    for s in ["0", "-17", "+5", "x", "", "99999999999"] {
        assert_eq!(parse_i32(s), s.parse::<i32>().ok());
        assert_eq!(parse_i64(s), s.parse::<i64>().ok());
    }
}

#[test]
fn decimal_printing_matches_display() {
    for n in [0u64, 7, 10, 1234567890, u64::MAX] {
        let mut s = String::new();
        push_u64(&mut s, n);
        assert_eq!(s, n.to_string());
    }
    for n in [0i64, -1, -1234, i64::MIN, i64::MAX] {
        let mut s = String::from("x");
        push_i64(&mut s, n);
        assert_eq!(s, format!("x{}", n));
    }
}

#[test]
fn join_follows_pathbuf_push() {
    assert_eq!(path_join("/var/lib/xtg", "config.toml"), "/var/lib/xtg/config.toml");
    assert_eq!(path_join("/var/lib/xtg/", "a"), "/var/lib/xtg/a");
    assert_eq!(path_join("", "a"), "a");
    assert_eq!(path_join("/base", "/abs"), "/abs");
}

#[test]
fn data_files_live_in_data_dir() {
    assert_eq!(config_path("/var/lib/xtg"), "/var/lib/xtg/config.toml");
    assert_eq!(default_store_path("/var/lib/xtg"), "/var/lib/xtg/cursors.json");
    assert_eq!(temp_dir_for_post("/tmp/xtg-media", "123"), "/tmp/xtg-media/xtg-123");
}

#[test]
fn data_dir_prefers_configured() {
    assert_eq!(choose_data_dir(Some("  /data/xtg \n"), Some("/home/u/.local"), "/tmp"), "/data/xtg");
    assert_eq!(choose_data_dir(None, Some("/home/u/.local/share/xtg-app"), "/tmp"), "/home/u/.local/share/xtg-app");
    assert_eq!(choose_data_dir(None, None, "/tmp"), "/tmp/xtg-app");
}

#[test]
fn file_names_and_extensions_like_std_path() {
    for p in ["/a/b.jpg", "b.tar.gz", ".hidden", "dir/", "a/..", "/", "", "x.", "a/./b.png", "./c.mp4", "noext"] {
        let std_name = std::path::Path::new(p).file_name().map(|s| s.to_str().unwrap().to_string());
        let std_ext = std::path::Path::new(p).extension().map(|s| s.to_str().unwrap().to_string());
        assert_eq!(file_name_of(p), std_name, "file name of {p:?}");
        assert_eq!(extension_of(p), std_ext, "extension of {p:?}");
    }
}
