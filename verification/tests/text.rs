use zai_proxy::encoding::decode_base64url;
use zai_proxy::files::{atomic_tmp_path, lock_note, lock_path_for, plan_lock, unique_tmp_path, LockPlan};
use zai_proxy::failure::{Failure, FailureKind};
use zai_proxy::number::{decimal_string, hex_string, parse_number, radix_string};
use zai_proxy::pairs::lookup;
use zai_proxy::percent::{encoded_query_param, is_percent_decodable, percent_decode, request_query_param};
use zai_proxy::text::{
    begins_with, contains_text, is_blank, is_white_space, join, lines, lowered, next_word, split,
    split_once, strip_prefix, trimmed, trimmed_start,
};

#[test]
fn white_space_is_that_of_std() {
    for u in 0..=0x10ffff_u32 {
        if let Some(c) = char::from_u32(u) {
            assert_eq!(is_white_space(c), c.is_whitespace(), "{u:x}");
        }
    }
}

#[test]
fn trimming_is_that_of_std() {
    for s in ["", " ", "a", " a ", "\u{3000}x y\t\r\n", "\u{85}\u{a0}", "a\u{200b}", " \u{4f60}\u{597d} "] {
        assert_eq!(trimmed(s), s.trim());
        assert_eq!(trimmed_start(s), s.trim_start());
        assert_eq!(is_blank(s), s.trim().is_empty());
    }
}

#[test]
fn splitting_is_that_of_std() {
    for s in ["", "a", "a.b.c", "..", ".a.", "a:b", "\u{4f60}.\u{597d}"] {
        assert_eq!(split(s, '.'), s.split('.').collect::<Vec<_>>());
        let expected = s.split_once('.').map(|(a, b)| (a.to_string(), b.to_string()));
        assert_eq!(split_once(s, '.'), expected);
    }
}

#[test]
fn lines_are_those_of_std() {
    for s in ["", "a", "a\n", "a\nb", "a\r\nb\r\n", "\n\n", "a\r", "\r\n", "a\n\r\nb", "a\rb\n"] {
        assert_eq!(lines(s), s.lines().collect::<Vec<_>>(), "{s:?}");
    }
}

#[test]
fn searching_is_that_of_std() {
    let s = "upstream closed before sending headers, \u{4f60}\u{597d}";
    for pat in ["", "upstream", "headers", "\u{597d}", "header s", s, "closed b"] {
        assert_eq!(contains_text(s, pat), s.contains(pat), "{pat}");
        assert_eq!(begins_with(s, pat), s.starts_with(pat), "{pat}");
        assert_eq!(strip_prefix(s, pat), s.strip_prefix(pat).map(str::to_string), "{pat}");
    }
    assert!(!contains_text("", "a"));
    assert!(contains_text("aab", "ab"));
}

#[test]
fn words_and_case() {
    assert_eq!(next_word("  GET /x  HTTP/1.1"), Some(("GET".to_string(), " /x  HTTP/1.1".to_string())));
    assert_eq!(next_word(" \t\r\n"), None);
    assert_eq!(next_word("one"), Some(("one".to_string(), String::new())));
    assert_eq!(lowered("AbZ\u{c4}-1"), "AbZ\u{c4}-1".to_ascii_lowercase());
    assert_eq!(join(&vec!["a".to_string(), "b".to_string(), String::new()], "--"), "a--b--");
    assert_eq!(join(&Vec::new(), ","), "");
}

#[test]
fn numbers_are_parsed_as_std_does() {
    for s in ["", "0", "+5", "-5", "+", "007", "12a", "18446744073709551615", "18446744073709551616", " 1", "1 ", "++1", "\u{661}"] {
        assert_eq!(parse_number(s, 10, u64::MAX), s.parse::<u64>().ok(), "{s}");
        assert_eq!(parse_number(s, 10, 65535), s.parse::<u16>().ok().map(u64::from), "{s}");
        assert_eq!(parse_number(s, 16, u64::MAX), u64::from_str_radix(s, 16).ok(), "{s}");
    }
    assert_eq!(parse_number("fF", 16, u64::MAX), Some(255));
    assert_eq!(parse_number("65536", 10, 65535), None);
}

#[test]
fn numbers_are_written_as_std_does() {
    for n in [0, 9, 10, 16, 255, 200_000, u64::MAX] {
        assert_eq!(decimal_string(n), n.to_string());
        assert_eq!(hex_string(n), format!("{n:x}"));
        assert_eq!(parse_number(&hex_string(n), 16, u64::MAX), Some(n));
    }
    assert_eq!(radix_string(u128::MAX, 10), u128::MAX.to_string());
}

#[test]
fn percent_pairs_are_decoded() {
    assert_eq!(percent_decode("zai-coding-plan%2Fglm-5"), "zai-coding-plan/glm-5");
    assert_eq!(percent_decode("a+b%20c"), "a b c");
    assert_eq!(percent_decode("%e4%bd%a0"), "\u{4f60}");
    assert_eq!(percent_decode("%+5"), "\u{5}");
}

#[test]
fn percent_signs_without_digits_stay() {
    assert_eq!(percent_decode("100%"), "100%");
    assert_eq!(percent_decode("%4"), "%4");
    assert_eq!(percent_decode("%zz%"), "%zz%");
    assert_eq!(percent_decode("%-1"), "%-1");
}

#[test]
fn plain_text_stays() {
    assert_eq!(percent_decode("glm-4.7_\u{4f60}"), "glm-4.7_\u{4f60}");
    assert_eq!(percent_decode(""), "");
}

#[test]
fn bytes_that_are_no_text_are_replaced() {
    assert_eq!(percent_decode("a%ffb"), "a\u{fffd}b");
}

#[test]
fn cut_characters_cannot_be_decoded() {
    assert!(!is_percent_decodable("%4\u{e9}"));
    assert!(!is_percent_decodable("a%%4\u{e9}"));
    assert!(is_percent_decodable("%\u{e9}x"));
    assert!(is_percent_decodable("%41\u{e9}"));
    assert!(is_percent_decodable("%4"));
}

#[test]
fn query_parameters_are_found() {
    assert_eq!(request_query_param("/internal/user-usage?user_id=123", "user_id"), Some("123".to_string()));
    assert_eq!(request_query_param("/x?a=1&user_id=%37&user_id=8", "user_id"), Some("7".to_string()));
    assert_eq!(request_query_param("/x?flag&b=2", "flag"), Some(String::new()));
    assert_eq!(request_query_param("/x?a=1=2", "a"), Some("1=2".to_string()));
    assert_eq!(request_query_param("/x?a=1", "b"), None);
    assert_eq!(request_query_param("/x", "a"), None);
    assert_eq!(encoded_query_param("/x?a=%41", "a"), Some("%41".to_string()));
}

#[test]
fn the_last_pair_counts() {
    let pairs = vec![
        ("a".to_string(), "1".to_string()),
        ("b".to_string(), "2".to_string()),
        ("a".to_string(), "3".to_string()),
    ];
    assert_eq!(lookup(&pairs, "a"), Some("3"));
    assert_eq!(lookup(&pairs, "b"), Some("2"));
    assert_eq!(lookup(&pairs, "c"), None);
}

#[test]
fn base64_without_padding_is_decoded() {
    assert_eq!(decode_base64url(""), Ok(vec![]));
    assert_eq!(decode_base64url("Zg"), Ok(b"f".to_vec()));
    assert_eq!(decode_base64url("Zm8"), Ok(b"fo".to_vec()));
    assert_eq!(decode_base64url("Zm9vYmE"), Ok(b"fooba".to_vec()));
    assert_eq!(decode_base64url("-_-_"), Ok(vec![0xfb, 0xff, 0xbf]));
}

#[test]
fn base64_that_is_not_canonical_is_refused() {
    assert_eq!(decode_base64url("Zg=="), Err("Invalid padding".to_string()));
    assert_eq!(decode_base64url("Zh"), Err("Invalid last symbol 104, offset 1.".to_string()));
    assert_eq!(decode_base64url("Z"), Err("Invalid input length: 1".to_string()));
    assert_eq!(decode_base64url("+/+/"), Err("Invalid symbol 43, offset 0.".to_string()));
}

#[test]
fn names_of_files_beside_a_store() {
    assert_eq!(lock_path_for(Some("free-usage.jsonl")), ".free-usage.jsonl.lock");
    assert_eq!(lock_path_for(None), ".state.lock");
    assert_eq!(atomic_tmp_path(Some("paid-balances.json"), 1700000000123), ".paid-balances.json.1700000000123.tmp");
    assert_eq!(atomic_tmp_path(None, 0), ".state.0.tmp");
    assert_eq!(unique_tmp_path(42, "headers", 7), "zai-coding-plan-openai-proxy-42-headers-7.tmp");
    assert_ne!(unique_tmp_path(42, "headers", 7), unique_tmp_path(42, "body", 7));
    assert_eq!(lock_note(1, 2), "pid=1 ts=2\n");
}

#[test]
fn a_store_in_use_is_tried_again() {
    let taken = || Failure { kind: FailureKind::AlreadyExists, message: "exists".to_string() };
    assert!(matches!(plan_lock(1, taken(), "p"), LockPlan::Wait(10)));
    assert!(matches!(plan_lock(199, taken(), "p"), LockPlan::Wait(10)));
    match plan_lock(200, taken(), "dir/.a.lock") {
        LockPlan::TimeOut(10, e) => {
            assert_eq!(e.kind, FailureKind::TimedOut);
            assert_eq!(e.message, "timed out waiting for lock: dir/.a.lock");
        }
        other => panic!("{other:?}"),
    }
    let denied = Failure { kind: FailureKind::PermissionDenied, message: "no".to_string() };
    match plan_lock(1, denied, "p") {
        LockPlan::GiveUp(e) => assert_eq!(e.message, "no"),
        other => panic!("{other:?}"),
    }
}

#[test]
fn encoded_text_comes_back_however_it_was_encoded() {
    for form in ["a%2Fb%20%c3%A9", "%61%2f%62+%C3%a9", "a/b+\u{e9}", "a/b%20%C3%A9"] {
        assert_eq!(percent_decode(form), "a/b \u{e9}");
    }
}
