use graft_sqlite::bytes::{get_u32, get_u64, hex_value, put_le, to_hex};
use graft_sqlite::number::{parse_i64, parse_u64, parse_usize, show_i64, show_u64, show_usize};
use graft_sqlite::order::{insert_key, insert_keys, is_before, sort_texts, KeyMap};
use graft_sqlite::show::{pad, plural_word, short_id, split_lines};
use graft_sqlite::text::{
    contains, ends_with, is_white_space, join, same, split, split_once, split_once_white, split_whitespace,
    strip_prefix, trim,
};
use graft_sqlite::time::format_unix_millis;

fn texts(list: &[&str]) -> Vec<String> {
    list.iter().map(|s| s.to_string()).collect()
}

#[test]
fn white_space_is_that_of_the_standard_library() {
    for n in 0..=0x10ffff_u32 {
        if let Some(c) = char::from_u32(n) {
            assert_eq!(is_white_space(c), c.is_whitespace(), "{n:x}");
        }
    }
}

#[test]
fn words_and_trimming() {
    let s = " \t one\u{3000}two  \n";
    assert_eq!(trim(s), s.trim());
    assert_eq!(
        split_whitespace(s),
        s.split_whitespace().map(|w| w.to_string()).collect::<Vec<_>>()
    );
    assert_eq!(split_whitespace(""), Vec::<String>::new());
    assert_eq!(trim("   "), "");
}

#[test]
fn cutting_texts() {
    assert_eq!(split_once("a=b=c", "="), Some(("a", "b=c")));
    assert_eq!(split_once("abc", "="), None);
    assert_eq!(split_once("äö--ü", "--"), Some(("äö", "ü")));
    assert_eq!(split_once_white("ab  c"), "ab  c".split_once(char::is_whitespace));
    assert_eq!(strip_prefix("refs/heads/x", "refs/"), Some("heads/x"));
    assert_eq!(strip_prefix("ref", "refs/"), None);
    assert_eq!(split("a,,b,", ','), texts(&["a", "", "b", ""]));
    assert_eq!(join(&texts(&["a", "b", "c"]), ", "), "a, b, c");
    assert_eq!(join(&texts(&[]), ", "), "");
    assert!(contains("graft+https", "+"));
    assert!(!contains("graft", "+"));
    assert!(ends_with("db.sqlite-wal", "-wal"));
    assert!(!ends_with("wal", "-wal"));
    assert!(same("ä", "ä") && !same("ä", "a"));
}

#[test]
fn lines_end_at_line_feeds() {
    for s in ["", "a", "a\n", "a\n\nb", "a\r\nb\r", "\n", "x\r\n"] {
        assert_eq!(
            split_lines(s),
            s.lines().map(|l| l.to_string()).collect::<Vec<_>>(),
            "{s:?}"
        );
    }
}

#[test]
fn numbers_read_back() {
    for n in [0, 1, 9, 10, 4096, u64::MAX] {
        assert_eq!(show_u64(n), n.to_string());
        assert_eq!(parse_u64(&show_u64(n)), Some(n));
    }
    for n in [0, -1, i64::MIN, i64::MAX] {
        assert_eq!(show_i64(n), n.to_string());
        assert_eq!(parse_i64(&show_i64(n)), Some(n));
    }
    assert_eq!(show_usize(12), "12");
    for s in ["", "+", "-", "+5", "05", "-0", "18446744073709551616", "1a", " 1", "9223372036854775808"] {
        assert_eq!(parse_u64(s), s.parse().ok(), "{s}");
        assert_eq!(parse_usize(s), s.parse().ok(), "{s}");
        assert_eq!(parse_i64(s), s.parse().ok(), "{s}");
    }
}

#[test]
fn bytes_read_back() {
    let mut out = Vec::new();
    put_le(&mut out, 0x0102_0304, 4);
    put_le(&mut out, 0x1122_3344_5566_7788, 8);
    assert_eq!(&out[..4], &[4, 3, 2, 1]);
    assert_eq!(get_u32(&out, 0), 0x0102_0304);
    assert_eq!(get_u64(&out, 4), 0x1122_3344_5566_7788);
    assert_eq!(to_hex(&[0, 0x9f, 0xff]), "009fff");
    assert_eq!(hex_value('f'), Some(15));
    assert_eq!(hex_value('F'), None);
}

#[test]
fn ids_are_shortened_to_twelve_bytes() {
    assert_eq!(short_id("0123456789abcdef"), "0123456789ab");
    assert_eq!(short_id("0123"), "0123");
}

#[test]
fn padding_and_plurals() {
    assert_eq!(pad("ab", 4), "ab  ");
    assert_eq!(pad("abcde", 4), "abcde");
    assert_eq!(plural_word(1, "commit", "commits"), "commit");
    assert_eq!(plural_word(0, "commit", "commits"), "commits");
}

#[test]
fn times_are_shown_in_utc() {
    assert_eq!(format_unix_millis(0), "1970-01-01 00:00:00");
    assert_eq!(format_unix_millis(951_826_799_999), "2000-02-29 12:19:59");
    assert_eq!(format_unix_millis(1_700_000_000_000), "2023-11-14 22:13:20");
}

#[test]
fn keys_are_ordered_like_their_bytes() {
    let list = ["", "a", "a/b", "a0", "b", "ä", "\u{10000}", "\u{ffff}"];
    for x in list {
        for y in list {
            assert_eq!(is_before(x, y), x < y, "{x} {y}");
        }
    }
    let mut sorted = texts(&list);
    sorted.sort();
    assert_eq!(sort_texts(&texts(&list)), sorted);
    assert_eq!(sort_texts(&texts(&["b", "a", "b"])), texts(&["a", "b", "b"]));
}

#[test]
fn keys_stand_once() {
    let mut keys = Vec::new();
    assert!(insert_key(&mut keys, "b"));
    assert!(insert_key(&mut keys, "a"));
    assert!(!insert_key(&mut keys, "b"));
    insert_keys(&mut keys, &texts(&["c", "a"]));
    assert_eq!(keys, texts(&["a", "b", "c"]));
}

#[test]
fn maps_hold_the_last_value() {
    let mut map: KeyMap<u32> = KeyMap::new();
    map.put("x", 1);
    map.put("a", 2);
    map.put("x", 3);
    assert_eq!(map.get("x"), Some(&3));
    assert_eq!(map.keys, texts(&["a", "x"]));
    assert_eq!(map.take("a"), Some(2));
    assert_eq!(map.take("a"), None);
    assert!(!map.contains("a"));
}

#[test]
fn shown_times_are_ordered() {
    let mut times: Vec<u64> = Vec::new();
    for day in (0..2_932_897_u64).step_by(97) {
        times.push(day * 86_400_000 + 86_399_999);
    }
    times.extend([1, 999, 1_000, 253_402_300_799_999]);
    times.sort();
    for pair in times.windows(2) {
        let (a, b) = (format_unix_millis(pair[0]), format_unix_millis(pair[1]));
        assert_eq!((a.len(), b.len()), (19, 19));
        assert_eq!(a == b, pair[0] / 1000 == pair[1] / 1000);
        assert!(a <= b);
    }
    assert_eq!(format_unix_millis(253_402_300_799_999), "9999-12-31 23:59:59");
    assert_eq!(format_unix_millis(253_402_300_800_000), "10000-01-01 00:00:00");
}
