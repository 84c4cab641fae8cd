use voxply::calendar::iso_from_unix;
use voxply::clock::{
    chrono_now, clock_seconds, iso_of, seconds_text, timestamp_of, unix_now, unix_timestamp,
    unix_timestamp_iso,
};
use voxply::entropy::{generate_token, new_bot_id, new_id, random_hex};
use voxply::hub::webhooks::{constant_time_eq, sha256_hex};
use voxply::number::{padded_text, parse_signed, parse_unsigned};
use voxply::table::{pair, Number, Table};
use voxply::text::{
    concat2, concat3, contains_text, i64_text, is_text, less, same, starts_with, strip_prefix,
    take_chars, trim, trim_end_slashes, u64_text,
};

fn text(s: &str) -> String {
    s.to_string()
}

fn is_hex(s: &str) -> bool {
    s.chars().all(|c| c.is_ascii_hexdigit() && !c.is_ascii_uppercase())
}

#[test]
fn moments_are_written_as_dates() {
    assert_eq!(iso_from_unix(0), "1970-01-01T00:00:00Z");
    assert_eq!(iso_from_unix(951_827_696), "2000-02-29T12:34:56Z");
    assert_eq!(iso_from_unix(1_709_251_199), "2024-02-29T23:59:59Z");
    assert_eq!(iso_from_unix(1_709_251_200), "2024-03-01T00:00:00Z");
    assert_eq!(iso_from_unix(4_107_542_399), "2100-02-28T23:59:59Z");
    assert_eq!(iso_from_unix(4_107_542_400), "2100-03-01T00:00:00Z");
    assert_eq!(iso_from_unix(253_402_300_799), "9999-12-31T23:59:59Z");
}

#[test]
fn dates_order_as_the_moments_do() {
    let moments: [u64; 6] = [0, 86_399, 86_400, 951_827_696, 1_709_251_200, 253_402_300_799];
    for i in 1..moments.len() {
        assert!(less(&iso_from_unix(moments[i - 1]), &iso_from_unix(moments[i])));
    }
}

#[test]
fn the_clock_agrees_with_itself() {
    let secs = clock_seconds().unwrap();
    assert!(secs > 1_600_000_000);
    let now = unix_timestamp().unwrap();
    assert!(now >= secs as i64 && now <= secs as i64 + 5);
    assert!(unix_now().unwrap() >= now);
    assert_eq!(unix_timestamp_iso().len(), 20);
    let text = chrono_now().unwrap();
    assert!(parse_signed(&text).unwrap() >= now);
    assert_eq!(timestamp_of(Some(7)), Some(7));
    assert_eq!(timestamp_of(None), None);
    assert_eq!(iso_of(Some(60)), "1970-01-01T00:01:00Z");
    assert_eq!(iso_of(None), "1970-01-01T00:00:00Z");
    assert_eq!(seconds_text(Some(1234)), Some(String::from("1234")));
    assert_eq!(seconds_text(None), None);
}

#[test]
fn identifiers_are_random_and_well_formed() {
    let a = new_id();
    assert_eq!(a.len(), 36);
    for (i, c) in a.chars().enumerate() {
        if i == 8 || i == 13 || i == 18 || i == 23 {
            assert_eq!(c, '-');
        } else {
            assert!(is_hex(&c.to_string()));
        }
    }
    assert_eq!(&a[14..15], "4");
    assert!("89ab".contains(&a[19..20]));
    assert_ne!(a, new_id());
    let b = new_bot_id();
    assert!(b.starts_with("bot_"));
    assert_eq!(b.len(), 36);
    assert!(is_hex(&b[4..]));
    let t = generate_token();
    assert_eq!(t.len(), 64);
    assert!(is_hex(&t));
    assert_ne!(t, generate_token());
    let r = random_hex(32);
    assert_eq!(r.len(), 64);
    assert!(is_hex(&r));
    assert_ne!(r, random_hex(32));
}

#[test]
fn sha256_is_the_known_one() {
    assert_eq!(
        sha256_hex(b"abc"),
        "ba7816bf8f01cfea414140de5dae2223b00361a396177a9cb410ff61f20015ad"
    );
    assert_eq!(
        sha256_hex(b""),
        "e3b0c44298fc1c149afbf4c8996fb92427ae41e4649b934ca495991b7852b855"
    );
}

#[test]
fn bytes_are_compared_whole() {
    assert!(constant_time_eq(b"", b""));
    assert!(constant_time_eq(b"same", b"same"));
    assert!(!constant_time_eq(b"same", b"sama"));
    assert!(!constant_time_eq(b"same", b"sam"));
}

#[test]
fn numbers_are_read_as_written() {
    assert_eq!(parse_unsigned("0", 255), Some(0));
    assert_eq!(parse_unsigned("+255", 255), Some(255));
    assert_eq!(parse_unsigned("256", 255), None);
    assert_eq!(parse_unsigned("", 255), None);
    assert_eq!(parse_unsigned("+", 255), None);
    assert_eq!(parse_unsigned("-1", 255), None);
    assert_eq!(parse_unsigned(" 1", 255), None);
    assert_eq!(parse_unsigned("18446744073709551615", u64::MAX), Some(u64::MAX));
    assert_eq!(parse_unsigned("18446744073709551616", u64::MAX), None);
    assert_eq!(parse_signed("-9223372036854775808"), Some(i64::MIN));
    assert_eq!(parse_signed("9223372036854775808"), None);
    assert_eq!(parse_signed("+12"), Some(12));
    assert_eq!(padded_text(7, 4), "0007");
    assert_eq!(padded_text(12345, 4), "12345");
    assert_eq!(u64_text(0), "0");
    assert_eq!(u64_text(u64::MAX), "18446744073709551615");
    assert_eq!(i64_text(i64::MIN), "-9223372036854775808");
    assert_eq!(i64_text(42), "42");
}

#[test]
fn texts_are_cut_and_joined() {
    assert!(same("h\u{e9}", "h\u{e9}"));
    assert!(!same("h\u{e9}", "he"));
    assert!(is_text(&Some(text("x")), "x"));
    assert!(!is_text(&None, "x"));
    assert!(contains_text(&vec![text("a"), text("b")], "b"));
    assert!(!contains_text(&vec![text("a")], "b"));
    assert_eq!(concat2("a", "b"), "ab");
    assert_eq!(concat3("a", "b", "c"), "abc");
    assert_eq!(take_chars("h\u{e9}llo", 2), "h\u{e9}");
    assert_eq!(take_chars("hi", 5), "hi");
    assert!(starts_with("Bearer x", "Bearer "));
    assert!(!starts_with("Bear", "Bearer "));
    assert_eq!(strip_prefix("Bearer x", "Bearer "), Some(text("x")));
    assert_eq!(strip_prefix("x", "Bearer "), None);
    assert_eq!(trim_end_slashes("a//b//"), "a//b");
    assert_eq!(trim_end_slashes("///"), "");
    assert_eq!(trim(" \t\u{a0}x y\u{3000}\n"), "x y");
    assert_eq!(trim("\u{b}x\u{c}"), "x");
    assert!(less("a", "b"));
    assert!(less("a", "ab"));
    assert!(!less("b", "a"));
    assert!(!less("a", "a"));
}

#[test]
fn a_table_keeps_one_value_under_each_key() {
    let mut t: Table<String, u16> = Table::new();
    assert_eq!(t.len(), 0);
    t.insert(text("a"), 1);
    t.insert(text("b"), 2);
    t.insert(text("a"), 3);
    assert_eq!(t.len(), 2);
    assert_eq!(t.get(&text("a")), Some(&3));
    assert!(t.contains(&text("b")));
    assert_eq!(t.key_at(1), "b");
    assert_eq!(t.value_at(1), &2);
    assert_eq!(t.remove(&text("a")), Some(3));
    assert_eq!(t.remove(&text("a")), None);
    t.remove_at(0);
    assert_eq!(t.len(), 0);
    let mut n: Table<Number, u8> = Table::new();
    n.insert(Number { value: 5 }, 1);
    assert!(n.get(&Number { value: 6 }).is_none());
    assert!(n.get(&Number { value: 5 }).is_some());
    let p = pair("c", "u");
    assert_eq!(p.first, "c");
    assert_eq!(p.second, "u");
}
