use agnt::calendar::civil_from_days;
use agnt::decimal::{decimal, decimal_padded, decimal_signed, parse_int, parse_uint};
use agnt::engine::task::Task;
use agnt::json::{from_value, parse, render, render_record, to_value, Json};
use agnt::message::UsageStats;
use agnt::order::largest_first;
use agnt::paths::{expand_tilde, join_path};
use agnt::pieces::{
    join_texts, listed, lower_ascii_of, split, split_lines, split_words, take_chars, trimmed,
};
use agnt::search::{begins, contains, ends, replace, strip_prefix};
use agnt::store_trait::StoreError;
use agnt::table::Table;
use agnt::text::{clip_text, size};

#[test]
fn clipping_stops_before_a_character() {
    assert_eq!(clip_text("é中a", 1), "");
    assert_eq!(clip_text("é中a", 2), "é");
    assert_eq!(clip_text("é中a", 4), "é");
    assert_eq!(clip_text("é中a", 5), "é中");
    assert_eq!(clip_text("é中a", 99), "é中a");
    assert_eq!(size("é中a😀"), 10);
}

#[test]
fn numerals_are_read_back() {
    for n in [0u64, 7, 10, 4_294_967_296, u64::MAX] {
        assert_eq!(parse_uint(&decimal(n), u64::MAX), Some(n));
    }
    assert_eq!(parse_uint("256", 255), None);
    assert_eq!(parse_uint("+5", 255), Some(5));
    assert_eq!(parse_uint("", 255), None);
    assert_eq!(parse_uint("1x", 255), None);
    assert_eq!(decimal_signed(i64::MIN), "-9223372036854775808");
    assert_eq!(parse_int("-12"), Some(-12));
    assert_eq!(parse_int("9223372036854775808"), None);
    assert_eq!(decimal_padded(7, 3), "007");
    assert_eq!(decimal_padded(1234, 3), "1234");
}

#[test]
fn days_have_dates() {
    assert_eq!(civil_from_days(0), (1970, 1, 1));
    assert_eq!(civil_from_days(11_016), (2000, 2, 29));
    assert_eq!(civil_from_days(11_017), (2000, 3, 1));
    assert_eq!(civil_from_days(47_540), (2100, 2, 28));
    assert_eq!(civil_from_days(47_541), (2100, 3, 1));
}

#[test]
fn larger_keys_come_first_and_equal_ones_in_order() {
    assert_eq!(largest_first(&vec![3, 9, -1, 9]), vec![1, 3, 0, 2]);
    assert!(largest_first(&vec![]).is_empty());
}

#[test]
fn tables_keep_one_value_per_key() {
    let mut t: Table<u32> = Table::new();
    t.insert("a".into(), 1);
    t.insert("b".into(), 2);
    t.insert("a".into(), 3);
    assert_eq!(t.len(), 2);
    assert_eq!(t.get("a"), Some(&3));
    assert_eq!(t.get("c"), None);
    assert!(t.contains_key("b"));
    assert_eq!((t.key_at(0), *t.value_at(0)), ("a", 3));
}

#[test]
fn texts_are_searched() {
    assert!(contains("abcabd", "abd"));
    assert!(!contains("abcab", "abd"));
    assert!(contains("x", ""));
    assert!(begins("abc", "ab") && ends("abc", "bc"));
    assert_eq!(strip_prefix("abc", "ab").as_deref(), Some("c"));
    assert_eq!(strip_prefix("abc", "b"), None);
    assert_eq!(replace("aXbXX", "X", "--"), "a--b----");
}

#[test]
fn texts_are_cut_and_joined() {
    assert_eq!(split("a,,b", ','), vec!["a", "", "b"]);
    assert_eq!(split_lines("a\r\nb\n\nc"), vec!["a", "b", "", "c"]);
    assert_eq!(split_words(" a  b\u{3000}c "), vec!["a", "b", "c"]);
    assert_eq!(join_texts(&vec!["a".into(), "b".into()], ", "), "a, b");
    assert_eq!(trimmed("\t a b\u{a0}"), "a b");
    assert_eq!(lower_ascii_of("AbÉ"), "abÉ");
    assert_eq!(take_chars("héllo", 2), "hé");
    assert!(listed(&vec!["a".into()], "a"));
    assert!(!listed(&vec!["a".into()], "b"));
}

#[test]
fn paths_are_joined() {
    assert_eq!(join_path("/a", "b"), "/a/b");
    assert_eq!(join_path("/a/", "b"), "/a/b");
    assert_eq!(join_path("/a", "/b"), "/b");
    assert_eq!(expand_tilde("~/x", Some("/home/u")), "/home/u/x");
    assert_eq!(expand_tilde("~/x", None), "~/x");
    assert_eq!(expand_tilde("/x", Some("/home/u")), "/x");
}

#[test]
fn documents_are_read_and_written() {
    let j = parse(" {\"b\": [1, -2, 1.5, null, true], \"a\": \"x\\n\"} ").unwrap();
    assert_eq!(render(&j), "{\"a\":\"x\\n\",\"b\":[1,-2,1.5,null,true]}");
    assert_eq!(j.text_field("a"), Some("x\n"));
    let items = j.array_field("b").unwrap();
    assert_eq!(items[0].as_u64(), Some(1));
    assert!(matches!(items[1], Json::NegInt(-2)));
    assert!(matches!(items[2], Json::Real(_)));
    assert_eq!(items[4].as_bool(), Some(true));
    assert!(parse("{").is_err());
    let again = from_value(to_value(&j));
    assert_eq!(render(&again), render(&j));
}

#[test]
fn objects_are_written_sorted_and_records_as_built() {
    let j = Json::object().with_text("z", "1").with_text("a", "2").with_text("B", "3");
    assert_eq!(render(&j), "{\"B\":\"3\",\"a\":\"2\",\"z\":\"1\"}");
    assert_eq!(render_record(&j), "{\"z\":\"1\",\"a\":\"2\",\"B\":\"3\"}");
    let twice = Json::Obj(vec![("k".into(), Json::UInt(1)), ("k".into(), Json::UInt(2))]);
    assert_eq!(render(&twice), "{\"k\":2}");
    assert_eq!(render(&Json::NegInt(5)), "5");
    assert_eq!(render(&Json::array().plus(Json::NegInt(-5)).plus(Json::text("x"))), "[-5,\"x\"]");
}

#[test]
fn usage_is_capped() {
    let a = UsageStats { prompt_tokens: u32::MAX, completion_tokens: 1 };
    let b = UsageStats { prompt_tokens: 1, completion_tokens: 2 };
    assert_eq!(
        a.accumulate(b),
        UsageStats { prompt_tokens: u32::MAX, completion_tokens: 3 }
    );
    assert_eq!(a.total(), u32::MAX);
    assert_eq!(b.total(), 3);
}

#[test]
fn task_identifiers_are_hexadecimal() {
    let id = Task::new_id();
    let digits = id.strip_prefix("task-").unwrap();
    assert_eq!(digits.len(), 32);
    assert!(digits.chars().all(|c| c.is_ascii_digit() || ('a'..='f').contains(&c)));
    assert_ne!(id, Task::new_id());
}

#[test]
fn store_errors_have_texts() {
    assert_eq!(StoreError::Open("x".into()).to_text(), "store open: x");
    assert_eq!(StoreError::Io("x".into()).to_text(), "store io: x");
    assert_eq!(StoreError::Serde("x".into()).to_text(), "store serde: x");
}
