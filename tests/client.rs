use ydcv::lang::{is_chinese, is_chinese_char};
use ydcv::ydclient::{
    after_api_fetch, after_page_fetch, LookupStep, get_salt, get_sign, get_translation_lang, lookup_error_line, new_api_credentials,
    new_api_query, same_text, to_decimal, to_hex, YdClientErr, UNSET_CREDENTIAL,
};

#[test]
fn chinese_words_translate_to_english() {
    assert_eq!("EN", get_translation_lang("你好"));
    assert_eq!("EN", get_translation_lang("abc中"));
    assert_eq!("zh-CHS", get_translation_lang("hello"));
    assert_eq!("zh-CHS", get_translation_lang("Felix"));
    assert_eq!("zh-CHS", get_translation_lang(""));
}

#[test]
fn chinese_characters_and_punctuation() {
    assert!(is_chinese_char('中'));
    assert!(is_chinese_char('\u{4e00}'));
    assert!(is_chinese_char('\u{9fff}'));
    assert!(!is_chinese_char('\u{a000}'));
    assert!(is_chinese_char('，'));
    assert!(is_chinese_char('。'));
    assert!(is_chinese_char('\u{20000}'));
    assert!(is_chinese_char('·'));
    assert!(!is_chinese_char('a'));
    assert!(!is_chinese_char(','));
    assert!(is_chinese("a，b"));
    assert!(!is_chinese("plain ascii"));
    assert!(!is_chinese(""));
}

#[test]
fn decimal_numerals() {
    assert_eq!("0", to_decimal(0));
    assert_eq!("7", to_decimal(7));
    assert_eq!("10", to_decimal(10));
    assert_eq!("65535", to_decimal(65535));
    assert_eq!("4294967295", to_decimal(u32::MAX));
}

#[test]
fn hex_digits_of_bytes() {
    assert_eq!("", to_hex(&vec![]));
    assert_eq!("000fff10", to_hex(&vec![0, 15, 255, 16]));
}

#[test]
fn sign_is_md5_hex_of_concatenation() {
    assert_eq!("d41d8cd98f00b204e9800998ecf8427e", get_sign("", "", "", ""));
    assert_eq!("900150983cd24fb0d6963f7d28e17f72", get_sign("a", "b", "c", ""));
    assert_eq!(get_sign("key", "word", "12", "sec"), get_sign("keyword", "", "12se", "c"));
    assert_ne!(get_sign("key", "word", "12", "sec"), get_sign("key", "word", "13", "sec"));
}

#[test]
fn salt_is_number_in_range() {
    for _ in 0..50 {
        let s = get_salt();
        let n: u32 = s.parse().unwrap();
        assert!((1..65536).contains(&n));
        assert_eq!(s, n.to_string());
    }
}

#[test]
fn built_in_credentials_come_first() {
    let (k, s) = new_api_credentials(Some("bk"), Some("bs"), "ek", "es").unwrap();
    assert_eq!(("bk", "bs"), (k.as_str(), s.as_str()));
}

#[test]
fn environment_credentials_when_not_built_in() {
    let (k, s) = new_api_credentials(Some("bk"), None, "ek", "es").unwrap();
    assert_eq!(("ek", "es"), (k.as_str(), s.as_str()));
}

#[test]
fn unset_credentials_are_an_error() {
    let e = new_api_credentials(None, None, UNSET_CREDENTIAL, "es").unwrap_err();
    assert!(matches!(e, YdClientErr::NewApiValueError));
    let e = new_api_credentials(None, Some("bs"), "ek", UNSET_CREDENTIAL).unwrap_err();
    assert_eq!(
        "New API value Error! Please make sure YD_NEW_APP_KEY and YD_NEW_APP_SEC Environment Variables is set!",
        e.message()
    );
}

#[test]
fn double_failure_message_lists_page_error_first() {
    let e = YdClientErr::NewAndOldAPIError("new failed".to_string(), "old failed".to_string());
    assert_eq!("old failed\nnew failed", e.message());
}

#[test]
fn open_api_query_is_signed() {
    let q = new_api_query("你好", "key", "sec");
    let names: Vec<&str> = q.iter().map(|(n, _)| n.as_str()).collect();
    assert_eq!(vec!["appKey", "q", "from", "to", "salt", "sign"], names);
    assert_eq!("key", q[0].1);
    assert_eq!("你好", q[1].1);
    assert_eq!("auto", q[2].1);
    assert_eq!("EN", q[3].1);
    let salt: u32 = q[4].1.parse().unwrap();
    assert!((1..65536).contains(&salt));
    assert_eq!(get_sign("key", "你好", &q[4].1, "sec"), q[5].1);
    let q = new_api_query("hello", "key", "sec");
    assert_eq!("zh-CHS", q[3].1);
}

#[test]
fn error_line_names_word_and_detail() {
    assert_eq!("Error looking-up word foo: boom", lookup_error_line("foo", "boom"));
}

#[test]
fn text_comparison() {
    assert!(same_text("ydcv-rs", UNSET_CREDENTIAL));
    assert!(!same_text("ydcv", "ydcv-rs"));
    assert!(same_text("", ""));
}

#[test]
fn page_first_then_open_api() {
    assert!(matches!(after_page_fetch(Ok("<html/>".to_string())), LookupStep::ParsePage(b) if b == "<html/>"));
    assert!(matches!(after_page_fetch(Err("down".to_string())), LookupStep::AskOpenApi(e) if e == "down"));
    assert!(matches!(
        after_api_fetch("down".to_string(), Ok("{}".to_string())),
        LookupStep::DecodeReply(b) if b == "{}"
    ));
    match after_api_fetch("page down".to_string(), Err("api down".to_string())) {
        LookupStep::Fail(e) => assert_eq!("page down\napi down", e.message()),
        _ => panic!("expected a failure"),
    }
}

#[test]
fn sign_is_thirty_two_hex_digits() {
    let s = get_sign("app", "词", "123", "secret");
    assert_eq!(32, s.len());
    assert!(s.chars().all(|c| c.is_ascii_digit() || ('a'..='f').contains(&c)));
}
