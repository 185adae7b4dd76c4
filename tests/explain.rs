use serde_json::Value;
use ydcv::formatters::{AnsiFormatter, Formatter, HtmlFormatter, PlainFormatter, WinFormatter};
use ydcv::ydresponse::{ErrorCode, YdBasic, YdResponse, YdResponseInner, YdWeb};

static RAW_FELIX: &'static str = r#"
    {
        "translation":["费利克斯"],
        "basic":{
            "us-phonetic":"'fi:liks",
            "phonetic":"'fi:liks",
            "uk-phonetic":"'fi:liks",
            "explains":["n. 菲力克斯（男子名）；费力克斯制导炸弹"]
        },
        "query":"Felix",
        "errorCode":0,
        "web":[
            {"value":["费利克斯","费利斯","菲力克斯"],"key":"Felix"},
            {"value":["菲利克斯·马加特","马加特","菲利斯·马加夫"],"key":"Felix Magath"},
            {"value":["费利克斯·布洛赫","布洛赫","傅里克"],"key":"Felix Bloch"}
        ]
    }"#;

fn strings(v: &Value) -> Vec<String> {
    v.as_array()
        .unwrap()
        .iter()
        .map(|s| s.as_str().unwrap().to_string())
        .collect()
}

fn opt_string(v: Option<&Value>) -> Option<String> {
    v.and_then(|x| x.as_str()).map(|s| s.to_string())
}

/// Builds a result from a reply of the dictionary, field by field.
fn decode(json: &str) -> YdResponse {
    let v: Value = serde_json::from_str(json).unwrap();
    let error_code = match &v["errorCode"] {
        Value::String(s) => ErrorCode::Text(s.clone()),
        other => match other.as_i64() {
            Some(n) => ErrorCode::Number(n),
            None => ErrorCode::Other,
        },
    };
    let translation = v.get("translation").filter(|t| !t.is_null()).map(strings);
    let basic = v.get("basic").filter(|b| !b.is_null()).map(|b| YdBasic {
        explains: strings(&b["explains"]),
        phonetic: opt_string(b.get("phonetic")),
        us_phonetic: opt_string(b.get("us_phonetic")),
        uk_phonetic: opt_string(b.get("uk_phonetic")),
    });
    let web = v.get("web").filter(|w| !w.is_null()).map(|w| {
        w.as_array()
            .unwrap()
            .iter()
            .map(|e| YdWeb {
                key: e["key"].as_str().unwrap().to_string(),
                value: strings(&e["value"]),
            })
            .collect()
    });
    YdResponse {
        query: v["query"].as_str().unwrap().to_string(),
        error_code,
        inner: YdResponseInner {
            translation,
            basic,
            web,
        },
    }
}

fn svec(items: &[&str]) -> Vec<String> {
    items.iter().map(|s| s.to_string()).collect()
}

fn response(
    query: &str,
    code: ErrorCode,
    translation: Option<Vec<String>>,
    basic: Option<YdBasic>,
    web: Option<Vec<YdWeb>>,
) -> YdResponse {
    YdResponse {
        query: query.to_string(),
        error_code: code,
        inner: YdResponseInner {
            translation,
            basic,
            web,
        },
    }
}

#[test]
fn test_explain_ansi() {
    let result = format!("\n{}\n", decode(RAW_FELIX).explain(&AnsiFormatter::new(false)));
    assert_eq!(
        "
\x1b[4mFelix\x1b[0m [\x1b[33m'fi:liks\x1b[0m] 费利克斯
\x1b[36m  Word Explanation:\x1b[0m
     * n. 菲力克斯（男子名）；费力克斯制导炸弹
\x1b[36m  Web Reference:\x1b[0m
     * \x1b[33mFelix\x1b[0m
       \x1b[35m费利克斯\x1b[0m；\x1b[35m费利斯\x1b[0m；\x1b[35m菲力克斯\x1b[0m
     * \x1b[33mFelix Magath\x1b[0m
       \x1b[35m菲利克斯·马加特\x1b[0m；\x1b[35m马加特\x1b[0m；\x1b[35m菲利斯·马加夫\x1b[0m
     * \x1b[33mFelix Bloch\x1b[0m
       \x1b[35m费利克斯·布洛赫\x1b[0m；\x1b[35m布洛赫\x1b[0m；\x1b[35m傅里克\x1b[0m
",
        result
    );
}

#[test]
fn test_explain_plain() {
    let result = format!("\n{}\n", decode(RAW_FELIX).explain(&PlainFormatter::new(false)));
    assert_eq!(
        "
Felix ['fi:liks] 费利克斯
  Word Explanation:
     * n. 菲力克斯（男子名）；费力克斯制导炸弹
  Web Reference:
     * Felix
       费利克斯；费利斯；菲力克斯
     * Felix Magath
       菲利克斯·马加特；马加特；菲利斯·马加夫
     * Felix Bloch
       费利克斯·布洛赫；布洛赫；傅里克
",
        result
    );
}

#[test]
fn test_explain_html_0() {
    assert_eq!(
        r#"
<u>Felix</u> [<span color="goldenrod">&#x27;fi:liks</span>] 费利克斯
<span color="navy">  Word Explanation:</span>
     * n. 菲力克斯（男子名）；费力克斯制导炸弹
<span color="navy">  Web Reference:</span>
     * <span color="goldenrod">Felix</span>
       <span color="purple">费利克斯</span>；<span color="purple">费利斯</span>；<span color="purple">菲力克斯</span>
     * <span color="goldenrod">Felix Magath</span>
       <span color="purple">菲利克斯·马加特</span>；<span color="purple">马加特</span>；<span color="purple">菲利斯·马加夫</span>
     * <span color="goldenrod">Felix Bloch</span>
       <span color="purple">费利克斯·布洛赫</span>；<span color="purple">布洛赫</span>；<span color="purple">傅里克</span>
"#,
        format!("\n{}\n", decode(RAW_FELIX).explain(&HtmlFormatter::new(false)))
    );
}

#[test]
fn failed_code_renders_only_no_result_line() {
    let mut r = decode(RAW_FELIX);
    r.error_code = ErrorCode::Number(20);
    assert_eq!(" -- No result for this query.", r.explain(&PlainFormatter::new(false)));
    assert_eq!(
        "\x1b[31m -- No result for this query.\x1b[0m",
        r.explain(&AnsiFormatter::new(false))
    );
    r.error_code = ErrorCode::Text("3".to_string());
    assert_eq!(
        "<span color=\"red\"> -- No result for this query.</span>",
        r.explain(&HtmlFormatter::new(false))
    );
    r.error_code = ErrorCode::Other;
    assert_eq!(" -- No result for this query.", r.explain(&PlainFormatter::new(false)));
}

#[test]
fn string_zero_code_is_success() {
    let r = response("hi", ErrorCode::Text("0".to_string()), Some(svec(&["你好"])), None, None);
    assert_eq!("hi\n  Translation:\n    你好", r.explain(&PlainFormatter::new(false)));
}

#[test]
fn empty_result_renders_no_result_line() {
    let r = response("hi", ErrorCode::Number(0), None, None, None);
    assert_eq!(" -- No result for this query.", r.explain(&PlainFormatter::new(false)));
}

#[test]
fn translation_only_renders_three_lines() {
    let r = response(
        "asdakda",
        ErrorCode::Number(0),
        Some(svec(&["a", "b"])),
        None,
        None,
    );
    let out = r.explain(&HtmlFormatter::new(false));
    assert_eq!(3, out.split('\n').count());
    assert_eq!(
        "<u>asdakda</u>\n<span color=\"navy\">  Translation:</span>\n    a；b",
        out
    );
}

#[test]
fn sample_reply_renders_in_plain_text() {
    let raw = r#"{"translation":["费利克斯"],"basic":{"phonetic":"'fi:liks","explains":["n. 菲力克斯（男子名）"]},"query":"Felix","errorCode":0,"web":[{"value":["费利克斯","费利斯"],"key":"Felix"}]}"#;
    assert_eq!(
        "Felix ['fi:liks] 费利克斯\n  Word Explanation:\n     * n. 菲力克斯（男子名）\n  Web Reference:\n     * Felix\n       费利克斯；费利斯",
        decode(raw).explain(&PlainFormatter::new(false))
    );
}

#[test]
fn both_phonetics_and_header_separator() {
    let r = response(
        "go",
        ErrorCode::Number(0),
        Some(svec(&["走", "去"])),
        Some(YdBasic {
            explains: vec![],
            phonetic: Some("g".to_string()),
            us_phonetic: Some("us".to_string()),
            uk_phonetic: Some("uk".to_string()),
        }),
        Some(vec![]),
    );
    assert_eq!(
        "go  UK: [uk], US: [us] 走; 去",
        r.explain(&PlainFormatter::new(false))
    );
    assert_eq!(
        "\x1b[4mgo\x1b[0m  UK: [\x1b[33muk\x1b[0m], US: [\x1b[33mus\x1b[0m] 走; 去",
        r.explain(&AnsiFormatter::new(false))
    );
}

#[test]
fn missing_phonetic_leaves_empty_fragment() {
    let r = response(
        "x",
        ErrorCode::Number(0),
        None,
        None,
        Some(vec![YdWeb {
            key: "k".to_string(),
            value: svec(&["v"]),
        }]),
    );
    assert_eq!(
        "x  \n  Web Reference:\n     * k\n       v",
        r.explain(&PlainFormatter::new(false))
    );
}

#[test]
fn html_escapes_reserved_characters() {
    let h = HtmlFormatter::new(false);
    assert_eq!("<span color=\"goldenrod\">&#x27;a&#x27;</span>", h.yellow("'a'"));
    assert_eq!(
        "&lt;b&gt; &amp; &quot;q&quot;",
        h.default("<b> & \"q\"")
    );
    assert_eq!("<u>&lt;x&gt;</u>", h.underline("<x>"));
    assert_eq!("<span color=\"red\">a&amp;b</span>", h.red("a&b"));
    assert_eq!("<span color=\"purple\">&#x27;</span>", h.purple("'"));
    assert_eq!("<span color=\"navy\">plain</span>", h.cyan("plain"));
}

#[test]
fn html_escapes_explanations() {
    let r = response(
        "comment",
        ErrorCode::Number(0),
        Some(svec(&["评论"])),
        Some(YdBasic {
            explains: svec(&["n. <旧>解说"]),
            phonetic: None,
            us_phonetic: None,
            uk_phonetic: None,
        }),
        None,
    );
    assert_eq!(
        "<u>comment</u>  评论\n<span color=\"navy\">  Word Explanation:</span>\n     * n. &lt;旧&gt;解说",
        r.explain(&HtmlFormatter::new(false))
    );
}

#[test]
fn ansi_styles_wrap_in_escape_codes() {
    let a = AnsiFormatter::new(false);
    assert_eq!("\x1b[31mx\x1b[0m", a.red("x"));
    assert_eq!("\x1b[33mx\x1b[0m", a.yellow("x"));
    assert_eq!("\x1b[35mx\x1b[0m", a.purple("x"));
    assert_eq!("\x1b[36mx\x1b[0m", a.cyan("x"));
    assert_eq!("\x1b[4mx\x1b[0m", a.underline("x"));
    assert_eq!("x", a.default("x"));
}

#[test]
fn win_formatter_keeps_text() {
    let w = WinFormatter::new(true);
    assert!(w.notify);
    assert_eq!("  Translation:", w.cyan("  Translation:"));
    assert_eq!("x", w.red("x"));
    let r = response("hi", ErrorCode::Number(0), Some(svec(&["你好"])), None, None);
    assert_eq!("hi\n  Translation:\n    你好", r.explain(&w));
}

#[test]
fn explain_twice_gives_same_text() {
    let r = decode(RAW_FELIX);
    let f = HtmlFormatter::new(false);
    assert_eq!(r.explain(&f), r.explain(&f));
    let p = PlainFormatter::new(false);
    assert_eq!(r.explain(&p), r.explain(&p));
}

#[test]
fn html_formatter_timeout() {
    let mut h = HtmlFormatter::new(true);
    assert_eq!(30000, h.timeout);
    h.set_timeout(5000);
    assert_eq!(5000, h.timeout);
    assert!(h.notify);
}

#[test]
fn toast_skips_empty_lines() {
    assert_eq!(
        Some(("title".to_string(), "a\nb".to_string())),
        WinFormatter::toast_parts("\ntitle\n\na\nb\n")
    );
    assert_eq!(
        Some(("only".to_string(), "".to_string())),
        WinFormatter::toast_parts("only")
    );
    assert_eq!(None, WinFormatter::toast_parts("\n\n"));
    assert_eq!(None, WinFormatter::toast_parts(""));
}
