use ydcv::formatters::PlainFormatter;
use ydcv::page::{clean_phonetics, labelled_phonetic, web_references};
use ydcv::ydresponse::YdResponse;

fn svec(items: &[&str]) -> Vec<String> {
    items.iter().map(|s| s.to_string()).collect()
}

const ZH_PAGE: &str = "<html><body>\
    <div class=\"basic\"><div class=\"col2\">\
    <div class=\"word-exp\"><span class=\"point\">hello</span></div>\
    <div class=\"word-exp\"><span class=\"point\">hi</span></div>\
    </div></div>\
    <div class=\"phone_con\"><div class=\"per-phone\"><span class=\"phonetic\">/nǐ hǎo/</span></div></div>\
    <div class=\"web_trans\"><div class=\"col2\"><a class=\"point\">你好</a><p class=\"sen-phrase\">Hello ; Hi</p></div></div>\
    </body></html>";

const EN_PAGE: &str = "<html><body>\
    <div class=\"phone_con\">\
    <div class=\"per-phone\"><span>英</span><span class=\"phonetic\">/ˈkɒment/</span></div>\
    <div class=\"per-phone\"><span>美</span><span class=\"phonetic\">/ˈkɑːment/</span></div>\
    </div>\
    <div class=\"basic\"><ul>\
    <li class=\"word-exp\"><span class=\"pos\">n.</span><span class=\"trans\">评论，意见</span></li>\
    <li class=\"word-exp\"><span class=\"pos\">v.</span><span class=\"trans\">发表意见</span></li>\
    </ul></div>\
    <div class=\"web_trans\"><div class=\"col2\"><a class=\"point\">No Comment</a><p class=\"sen-phrase\"> 不予置评 ; 无可奉告 </p></div></div>\
    </body></html>";

#[test]
fn chinese_page_is_parsed() {
    let r = YdResponse::from_html(ZH_PAGE, "你好").unwrap();
    assert_eq!(
        "你好 [nǐ hǎo] hello\n  Word Explanation:\n     * hello\n     * hi\n  Web Reference:\n     * 你好\n       Hello；Hi",
        r.explain(&PlainFormatter::new(false))
    );
}

#[test]
fn english_page_is_parsed() {
    let r = YdResponse::from_html(EN_PAGE, "comment").unwrap();
    assert_eq!(
        "comment  UK: [ˈkɒment], US: [ˈkɑːment] 评论\n  Word Explanation:\n     * n. 评论，意见\n     * v. 发表意见\n  Web Reference:\n     * No Comment\n       不予置评；无可奉告",
        r.explain(&PlainFormatter::new(false))
    );
}

#[test]
fn unlabelled_phonetic_is_used() {
    let page = "<html><body><div class=\"phone_con\"><div class=\"per-phone\">\
    <span class=\"phonetic\">/fuː/</span></div></div>\
    <div class=\"basic\"><ul><li class=\"word-exp\"><span class=\"trans\">富</span></li></ul></div>\
    </body></html>";
    let r = YdResponse::from_html(page, "foo").unwrap();
    assert_eq!(
        "foo [fuː] 富\n  Word Explanation:\n     * 富",
        r.explain(&PlainFormatter::new(false))
    );
}

#[test]
fn no_data_page_gives_no_result() {
    let page = "<html><body><div class=\"no-data-prompt\">nothing found</div></body></html>";
    let r = YdResponse::from_html(page, "asdakda").unwrap();
    assert_eq!("asdakda", r.query);
    assert!(r.inner.translation.is_none() && r.inner.basic.is_none() && r.inner.web.is_none());
    assert_eq!(" -- No result for this query.", r.explain(&PlainFormatter::new(false)));
}

#[test]
fn phonetics_lose_slashes_and_spaces() {
    assert_eq!(svec(&["ab", "c d", ""]), clean_phonetics(&svec(&[" /ab/ ", "/c d/", "//"])));
}

#[test]
fn labels_pick_the_following_text() {
    let p = svec(&["英", "uk1", "美", "us1", "英", "uk2"]);
    assert_eq!(Some("uk2".to_string()), labelled_phonetic(&p, "英"));
    assert_eq!(Some("us1".to_string()), labelled_phonetic(&p, "美"));
    assert_eq!(None, labelled_phonetic(&svec(&["x", "英"]), "英"));
    assert_eq!(None, labelled_phonetic(&svec(&[]), "美"));
}

#[test]
fn web_references_pair_keys_with_phrases() {
    let keys = svec(&["k1", "k2", "k3"]);
    let phrases = vec![svec(&["a ; ", "b"]), svec(&[" c "])];
    let w = web_references(&keys, &phrases);
    assert_eq!(2, w.len());
    assert_eq!("k1", w[0].key);
    assert_eq!(svec(&["a", "b"]), w[0].value);
    assert_eq!(svec(&["c"]), w[1].value);
}

#[test]
fn phonetics_trim_unicode_whitespace() {
    assert_eq!(svec(&["ab"]), clean_phonetics(&svec(&["\u{3000}/ab/\u{a0}\t"])));
    assert_eq!(svec(&["a\u{3000}b"]), clean_phonetics(&svec(&["a\u{3000}b"])));
}

#[test]
fn query_is_kept_verbatim() {
    let page = "<html><body><div class=\"no-data-prompt\">x</div></body></html>";
    let r = YdResponse::from_html(page, "<+*>?_").unwrap();
    assert_eq!("<+*>?_", r.query);
    let r = YdResponse::from_html("<html></html>", "hello").unwrap();
    assert_eq!("hello", r.query);
    assert!(r.inner.basic.is_some() && r.inner.web.is_some());
}

#[test]
fn empty_no_data_prompt_is_ignored() {
    let page = "<html><body><div class=\"no-data-prompt\"></div>\
        <div class=\"basic\"><ul><li class=\"word-exp\"><span class=\"trans\">好</span></li></ul></div>\
        </body></html>";
    let r = YdResponse::from_html(page, "good").unwrap();
    assert_eq!("good  好\n  Word Explanation:\n     * 好", r.explain(&PlainFormatter::new(false)));
}
