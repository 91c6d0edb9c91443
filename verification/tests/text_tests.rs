use rook_core::clock::{random_u64, unix_millis, unix_seconds};
use rook_core::sorting::stable_order;
use rook_core::text::{
    char_is_space, chars_from, contains, contains_chars, ends_with, find_char, from_chars,
    is_blank, push_decimal, push_decimal_padded, push_hex_padded, push_hex_pair, push_text,
    replace, same_text, split_whitespace, to_chars, trim,
};

fn chars(s: &str) -> Vec<char> {
    s.chars().collect()
}

#[test]
fn texts_and_characters() {
    assert_eq!(to_chars("aé😀"), vec!['a', 'é', '😀']);
    assert!(to_chars("").is_empty());
    assert_eq!(from_chars(&chars("hello"), 1, 4), "ell");
    assert_eq!(from_chars(&chars("hello"), 2, 2), "");
    assert_eq!(chars_from(&chars("hello"), 3), chars("lo"));
    assert_eq!(chars_from(&chars("hello"), 5), chars(""));
    assert!(same_text("abc", "abc"));
    assert!(!same_text("abc", "abd"));
    assert!(!same_text("abc", "ab"));
    assert!(same_text("", ""));
}

#[test]
fn searching() {
    assert!(contains("hello world", "o w"));
    assert!(contains("hello", "hello"));
    assert!(contains("hello", ""));
    assert!(contains("", ""));
    assert!(!contains("hello", "hello!"));
    assert!(!contains("hello", "lol"));
    assert!(contains("aab", "ab"));
    assert!(contains_chars(&chars("xyz"), &chars("z")));
    assert!(!contains_chars(&chars(""), &chars("z")));
    assert_eq!(find_char(&chars("a,b,c"), ','), Some(1));
    assert_eq!(find_char(&chars(",a"), ','), Some(0));
    assert_eq!(find_char(&chars("abc"), ','), None);
    assert!(ends_with(&chars("name.ttf"), &chars(".ttf")));
    assert!(ends_with(&chars("x"), &chars("")));
    assert!(!ends_with(&chars("ttf"), &chars(".ttf")));
    assert!(!ends_with(&chars("name.ttx"), &chars(".ttf")));
}

#[test]
fn white_space() {
    for c in ['\t', '\n', '\u{b}', '\u{c}', '\r', ' ', '\u{85}', '\u{a0}', '\u{1680}', '\u{2000}',
        '\u{200a}', '\u{2028}', '\u{2029}', '\u{202f}', '\u{205f}', '\u{3000}']
    {
        assert!(char_is_space(c));
        assert!(c.is_whitespace());
    }
    for c in ['a', '\u{8}', '\u{e}', '\u{200b}', '\u{180e}', '\u{feff}', '0'] {
        assert!(!char_is_space(c));
        assert!(!c.is_whitespace());
    }
    assert!(is_blank(""));
    assert!(is_blank(" \t\n\u{3000}"));
    assert!(!is_blank(" . "));
    assert_eq!(trim("  a b \n"), "a b");
    assert_eq!(trim("\u{a0}x"), "x");
    assert_eq!(trim("   "), "");
    assert_eq!(trim(""), "");
    assert_eq!(split_whitespace("  one two\tthree\n"), vec!["one", "two", "three"]);
    assert_eq!(split_whitespace("single"), vec!["single"]);
    assert!(split_whitespace(" \n ").is_empty());
    assert!(split_whitespace("").is_empty());
}

#[test]
fn numerals() {
    let mut s = String::from("n=");
    push_decimal(&mut s, 0);
    push_text(&mut s, ",");
    push_decimal(&mut s, 1_234_567_890);
    push_text(&mut s, ",");
    push_decimal(&mut s, u64::MAX);
    assert_eq!(s, "n=0,1234567890,18446744073709551615");
    let mut p = String::new();
    push_decimal_padded(&mut p, 7, 2);
    push_decimal_padded(&mut p, 123, 2);
    push_decimal_padded(&mut p, 0, 4);
    push_decimal_padded(&mut p, 5, 0);
    assert_eq!(p, "0712300005");
    let mut h = String::new();
    push_hex_padded(&mut h, 255, 4);
    push_hex_padded(&mut h, 0, 1);
    push_hex_padded(&mut h, 0xabcdef, 2);
    push_hex_pair(&mut h, 0);
    push_hex_pair(&mut h, 0x0f);
    push_hex_pair(&mut h, 0xa0);
    assert_eq!(h, "00ff0abcdef000fa0");
}

#[test]
fn replacing() {
    assert_eq!(replace("a-b-c", "-", "+"), "a+b+c");
    assert_eq!(replace("aaa", "aa", "b"), "ba");
    assert_eq!(replace("abc", "x", "y"), "abc");
    assert_eq!(replace("abc", "abc", ""), "");
    assert_eq!(replace("", "a", "b"), "");
    assert_eq!(replace("a&b", "&", "&amp;"), "a&amp;b");
    assert_eq!(replace("ab", "abc", "x"), "ab");
    assert_eq!(replace("ab", "", "x"), "ab");
}

#[test]
fn orders_are_stable() {
    assert_eq!(stable_order(&vec![3, 1, 3, -2, 1]), vec![3, 1, 4, 0, 2]);
    assert_eq!(stable_order(&vec![]), Vec::<usize>::new());
    assert_eq!(stable_order(&vec![5]), vec![0]);
    assert_eq!(stable_order(&vec![2, 2, 2]), vec![0, 1, 2]);
    assert_eq!(stable_order(&vec![i64::MAX, i64::MIN, 0]), vec![1, 2, 0]);
    assert_eq!(stable_order(&vec![4, 3, 2, 1]), vec![3, 2, 1, 0]);
}

#[test]
fn clock_and_chance() {
    let seconds = unix_seconds();
    let millis = unix_millis();
    assert!(seconds > 1_700_000_000);
    assert!(millis / 1000 >= seconds);
    assert!(millis / 1000 - seconds <= 5);
    let draws: Vec<u64> = (0..8).map(|_| random_u64()).collect();
    assert!(draws.iter().any(|d| *d != draws[0]));
}

#[test]
fn clock_readings_are_counted() {
    use_clock_counts();
}

fn use_clock_counts() {
    assert_eq!(rook_core::clock::seconds_of(0), 0);
    assert_eq!(rook_core::clock::seconds_of(999_999_999), 0);
    assert_eq!(rook_core::clock::seconds_of(1_000_000_000), 1);
    assert_eq!(rook_core::clock::seconds_of(1_700_000_000_123_456_789), 1_700_000_000);
    assert_eq!(rook_core::clock::seconds_of(u128::MAX), u64::MAX);
    assert_eq!(
        rook_core::clock::seconds_of(u64::MAX as u128 * 1_000_000_000 + 999_999_999),
        u64::MAX
    );
    assert_eq!(rook_core::clock::millis_of(0), 0);
    assert_eq!(rook_core::clock::millis_of(999_999), 0);
    assert_eq!(rook_core::clock::millis_of(1_000_000), 1);
    assert_eq!(rook_core::clock::millis_of(1_700_000_000_123_456_789), 1_700_000_000_123);
    assert_eq!(
        rook_core::clock::millis_of((1u128 << 64) * 1_000_000 + 5_000_000),
        5
    );
    assert_eq!(
        rook_core::clock::millis_of(u128::MAX),
        ((u128::MAX / 1_000_000) & (u64::MAX as u128)) as u64
    );
}
