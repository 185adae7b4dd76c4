//! Reading a lookup result from a page of the online dictionary: the texts
//! that the page's elements hold, and what the result makes of them.

use vstd::prelude::*;
use crate::lang::{is_chinese, spec_is_chinese};
use crate::text::{
    concat_all, concat_strings, flatten_strings, nested_views, remove_char, split, split_parts,
    trim, trimmed, views,
};
use crate::ydresponse::{
    opt_view, opt_views, web_views, BasicView, ErrorCode, ErrorCodeView, WebView,
    YdBasic, YdResponse, YdResponseInner, YdWeb,
};

verus! {

pub struct InnerView {
    pub translation: Option<Seq<Seq<char>>>,
    pub basic: Option<BasicView>,
    pub web: Option<Seq<WebView>>,
}

impl View for YdResponseInner {
    type V = InnerView;

    open spec fn view(&self) -> InnerView {
        InnerView {
            translation: opt_views(self.translation),
            basic: match self.basic {
                Some(b) => Some(b@),
                None => None,
            },
            web: match self.web {
                Some(w) => Some(web_views(w@)),
                None => None,
            },
        }
    }
}

/// A phonetic text of a page without its slashes and surrounding whitespace.
pub open spec fn clean_phonetic(t: Seq<char>) -> Seq<char> {
    trimmed(t.filter(|c: char| c != '/'))
}

/// Cleans each phonetic text of a page.
pub fn clean_phonetics(texts: &Vec<String>) -> (r: Vec<String>)
    ensures
        views(r@) == views(texts@).map_values(|t: Seq<char>| clean_phonetic(t)),
{
    let mut r: Vec<String> = Vec::new();
    let n = texts.len();
    let mut i: usize = 0;
    while i < n
        invariant
            n == texts@.len(),
            i <= n,
            views(r@) =~= views(texts@).take(i as int).map_values(
                |t: Seq<char>| clean_phonetic(t),
            ),
        decreases n - i,
    {
        let without = remove_char(texts[i].as_str(), '/');
        let c = trim(without.as_str());
        let ghost before = r@;
        r.push(c);
        proof {
            let vs = views(texts@);
            assert(vs.take(i + 1) =~= vs.take(i as int).push(vs[i as int]));
            assert(views(r@) =~= views(before).push(c@));
        }
        i = i + 1;
    }
    proof {
        assert(views(texts@).take(n as int) =~= views(texts@));
    }
    r
}

/// Trims each string of `parts`.
pub fn trim_all(parts: &Vec<String>) -> (r: Vec<String>)
    ensures
        views(r@) == views(parts@).map_values(|t: Seq<char>| trimmed(t)),
{
    let mut r: Vec<String> = Vec::new();
    let n = parts.len();
    let mut i: usize = 0;
    while i < n
        invariant
            n == parts@.len(),
            i <= n,
            views(r@) =~= views(parts@).take(i as int).map_values(|t: Seq<char>| trimmed(t)),
        decreases n - i,
    {
        let c = trim(parts[i].as_str());
        let ghost before = r@;
        r.push(c);
        proof {
            let vs = views(parts@);
            assert(vs.take(i + 1) =~= vs.take(i as int).push(vs[i as int]));
            assert(views(r@) =~= views(before).push(c@));
        }
        i = i + 1;
    }
    proof {
        assert(views(parts@).take(n as int) =~= views(parts@));
    }
    r
}

/// The values of a web reference: the texts of its phrase element run
/// together, split at " ; ", each piece trimmed.
pub open spec fn phrase_values(texts: Seq<Seq<char>>) -> Seq<Seq<char>> {
    split_parts(concat_all(texts), " ; "@).map_values(|v: Seq<char>| trimmed(v))
}

/// The web references of a page: each key with the values of the phrase
/// element at the same position; a key without such an element is dropped.
pub open spec fn web_refs(keys: Seq<Seq<char>>, phrases: Seq<Seq<Seq<char>>>) -> Seq<WebView> {
    Seq::new(
        if keys.len() <= phrases.len() {
            keys.len()
        } else {
            phrases.len()
        },
        |i: int| WebView { key: keys[i], values: phrase_values(phrases[i]) },
    )
}

pub fn web_references(keys: &Vec<String>, phrases: &Vec<Vec<String>>) -> (r: Vec<YdWeb>)
    ensures
        web_views(r@) == web_refs(views(keys@), nested_views(phrases@)),
{
    let n = if keys.len() <= phrases.len() {
        keys.len()
    } else {
        phrases.len()
    };
    let mut r: Vec<YdWeb> = Vec::new();
    let mut i: usize = 0;
    while i < n
        invariant
            n <= keys@.len(),
            n <= phrases@.len(),
            n == web_refs(views(keys@), nested_views(phrases@)).len(),
            i <= n,
            web_views(r@) =~= web_refs(views(keys@), nested_views(phrases@)).take(i as int),
        decreases n - i,
    {
        let phrase = concat_strings(&phrases[i]);
        proof {
            reveal_strlit(" ; ");
        }
        let parts = split(phrase.as_str(), " ; ");
        let value = trim_all(&parts);
        let w = YdWeb { key: keys[i].clone(), value };
        let ghost before = r@;
        r.push(w);
        proof {
            let refs = web_refs(views(keys@), nested_views(phrases@));
            assert(refs.take(i + 1) =~= refs.take(i as int).push(refs[i as int]));
            assert(r@ =~= before.push(w));
            assert(web_views(r@) =~= web_views(before).push(w@));
            assert(w@.values =~= refs[i as int].values);
        }
        i = i + 1;
    }
    proof {
        let refs = web_refs(views(keys@), nested_views(phrases@));
        assert(refs.take(n as int) =~= refs);
    }
    r
}

/// The result parts of a page that looks up Chinese text: `points` are the
/// texts of its translation points, `phonetics` those of its phonetic
/// elements, `keys` and `phrases` those of its web references.
pub open spec fn zh_view(
    points: Seq<Seq<char>>,
    phonetics: Seq<Seq<char>>,
    keys: Seq<Seq<char>>,
    phrases: Seq<Seq<Seq<char>>>,
) -> InnerView {
    InnerView {
        translation: if points.len() > 0 {
            Some(seq![points[0]])
        } else {
            None
        },
        basic: Some(
            BasicView {
                explains: points,
                phonetic: Some(concat_all(phonetics.map_values(|t: Seq<char>| clean_phonetic(t)))),
                us_phonetic: None,
                uk_phonetic: None,
            },
        ),
        web: Some(web_refs(keys, phrases)),
    }
}

pub fn zh_inner(
    points: &Vec<String>,
    phonetics: &Vec<String>,
    keys: &Vec<String>,
    phrases: &Vec<Vec<String>>,
) -> (r: YdResponseInner)
    ensures
        r@ == zh_view(views(points@), views(phonetics@), views(keys@), nested_views(phrases@)),
{
    let cleaned = clean_phonetics(phonetics);
    let phonetic = concat_strings(&cleaned);
    let translation = if points.len() > 0 {
        let mut t: Vec<String> = Vec::new();
        t.push(points[0].clone());
        proof {
            assert(views(t@) =~= seq![views(points@)[0]]);
        }
        Some(t)
    } else {
        None
    };
    let mut explains: Vec<String> = Vec::new();
    let n = points.len();
    let mut i: usize = 0;
    while i < n
        invariant
            n == points@.len(),
            i <= n,
            views(explains@) =~= views(points@).take(i as int),
        decreases n - i,
    {
        let ghost before = explains@;
        explains.push(points[i].clone());
        proof {
            assert(views(explains@) =~= views(before).push(points@[i as int]@));
        }
        i = i + 1;
    }
    let web = web_references(keys, phrases);
    let r = YdResponseInner {
        translation,
        basic: Some(
            YdBasic { explains, phonetic: Some(phonetic), us_phonetic: None, uk_phonetic: None },
        ),
        web: Some(web),
    };
    proof {
        assert(views(points@).take(n as int) =~= views(points@));
        assert(r@ =~= zh_view(views(points@), views(phonetics@), views(keys@), nested_views(phrases@)));
    }
    r
}

/// The text that follows the last of the first `n` texts of `p` equal to
/// `label`; `None` where there is no such text or nothing follows it.
pub open spec fn after_label(p: Seq<Seq<char>>, label: Seq<char>, n: int) -> Option<Seq<char>>
    decreases n,
{
    if n <= 0 {
        None
    } else if p[n - 1] == label {
        if n < p.len() {
            Some(p[n])
        } else {
            None
        }
    } else {
        after_label(p, label, n - 1)
    }
}

/// The phonetic that a page labels with `label` ("英" for the British one,
/// "美" for the American one).
pub fn labelled_phonetic(p: &Vec<String>, label: &str) -> (r: Option<String>)
    ensures
        opt_view(r) == after_label(views(p@), label@, p@.len() as int),
{
    let mut r: Option<String> = None;
    let n = p.len();
    let mut i: usize = 0;
    while i < n
        invariant
            n == p@.len(),
            i <= n,
            opt_view(r) == after_label(views(p@), label@, i as int),
        decreases n - i,
    {
        if crate::ydclient::same_text(p[i].as_str(), label) {
            r = if i + 1 < n {
                Some(p[i + 1].clone())
            } else {
                None
            };
        }
        i = i + 1;
    }
    r
}

/// The first piece of a translation, up to its first "，".
pub open spec fn first_segment(t: Seq<char>) -> Seq<char> {
    let parts = split_parts(t, "，"@);
    if parts.len() > 0 {
        parts[0]
    } else {
        t
    }
}

/// An explanation of a page that looks up English text: the part of speech
/// at the same position, if any, then the translation.
pub open spec fn tagged_explanation(poss: Seq<Seq<char>>, trans: Seq<Seq<char>>, i: int) -> Seq<
    char,
> {
    if i < poss.len() {
        poss[i] + " "@ + trans[i]
    } else {
        trans[i]
    }
}

/// The result parts of a page that looks up English text: `phones` are its
/// cleaned phonetic texts, `uk` and `us` the labelled phonetics, `poss` and
/// `trans` the texts of its parts of speech and translations, `keys` and
/// `phrases` those of its web references.
pub open spec fn en_view(
    phones: Seq<Seq<char>>,
    uk: Option<Seq<char>>,
    us: Option<Seq<char>>,
    poss: Seq<Seq<char>>,
    trans: Seq<Seq<char>>,
    keys: Seq<Seq<char>>,
    phrases: Seq<Seq<Seq<char>>>,
) -> InnerView {
    InnerView {
        translation: if trans.len() > 0 {
            Some(seq![first_segment(trans[0])])
        } else {
            None
        },
        basic: Some(
            BasicView {
                explains: Seq::new(trans.len(), |i: int| tagged_explanation(poss, trans, i)),
                phonetic: if us is Some {
                    us
                } else if uk is Some {
                    uk
                } else if phones.len() > 0 {
                    Some(phones[0])
                } else {
                    None
                },
                us_phonetic: us,
                uk_phonetic: uk,
            },
        ),
        web: Some(web_refs(keys, phrases)),
    }
}

pub fn en_inner(
    phones: &Vec<String>,
    uk: Option<String>,
    us: Option<String>,
    poss: &Vec<String>,
    trans: &Vec<String>,
    keys: &Vec<String>,
    phrases: &Vec<Vec<String>>,
) -> (r: YdResponseInner)
    ensures
        r@ == en_view(
            views(phones@),
            opt_view(uk),
            opt_view(us),
            views(poss@),
            views(trans@),
            views(keys@),
            nested_views(phrases@),
        ),
{
    let ghost tv = views(trans@);
    let ghost pv = views(poss@);
    let translation = if trans.len() > 0 {
        proof {
            reveal_strlit("，");
        }
        let parts = split(trans[0].as_str(), "，");
        let first = if parts.len() > 0 {
            parts[0].clone()
        } else {
            trans[0].clone()
        };
        let mut t: Vec<String> = Vec::new();
        t.push(first);
        proof {
            assert(views(t@) =~= seq![first_segment(tv[0])]);
        }
        Some(t)
    } else {
        None
    };
    let mut explains: Vec<String> = Vec::new();
    let n = trans.len();
    let mut i: usize = 0;
    while i < n
        invariant
            n == trans@.len(),
            tv == views(trans@),
            pv == views(poss@),
            i <= n,
            views(explains@) =~= Seq::new(i as nat, |k: int| tagged_explanation(pv, tv, k)),
        decreases n - i,
    {
        let e = if i < poss.len() {
            let mut e = String::from_str(poss[i].as_str());
            e.append(" ");
            e.append(trans[i].as_str());
            e
        } else {
            trans[i].clone()
        };
        let ghost before = explains@;
        explains.push(e);
        proof {
            assert(views(explains@) =~= views(before).push(e@));
        }
        i = i + 1;
    }
    let phonetic = match &us {
        Some(p) => Some(p.clone()),
        None => match &uk {
            Some(p) => Some(p.clone()),
            None => if phones.len() > 0 {
                Some(phones[0].clone())
            } else {
                None
            },
        },
    };
    let web = web_references(keys, phrases);
    let r = YdResponseInner {
        translation,
        basic: Some(YdBasic { explains, phonetic, us_phonetic: us, uk_phonetic: uk }),
        web: Some(web),
    };
    proof {
        assert(r@ =~= en_view(
            views(phones@),
            opt_view(uk),
            opt_view(us),
            pv,
            tv,
            views(keys@),
            nested_views(phrases@),
        ));
    }
    r
}

/// The texts of the text nodes of each element of the document `body`
/// that `selector` matches, element by element in document order.
pub uninterp spec fn page_texts(body: Seq<char>, selector: Seq<char>) -> Seq<Seq<Seq<char>>>;

/// Whether `selector` is a selector that scraper accepts.
pub uninterp spec fn selector_parses(selector: Seq<char>) -> bool;

/// Relies on scraper: `Selector::parse` accepts or refuses a selector by its
/// text alone; `Html::parse_document` reads any text as a document;
/// `Html::select` yields the matching elements in document order, and
/// `ElementRef::text` the texts of each one's text nodes.
#[verifier::external_body]
fn page_select(body: &str, selector: &str) -> (r: Result<Vec<Vec<String>>, String>)
    ensures
        r is Ok == selector_parses(selector@),
        r is Ok ==> nested_views(r->Ok_0@) == page_texts(body@, selector@),
{
    let selector = scraper::Selector::parse(selector).map_err(|e| e.to_string())?;
    let html = scraper::Html::parse_document(body);
    Ok(html.select(&selector).map(|e| e.text().map(|t| t.to_string()).collect()).collect())
}

/// The texts of all elements of `body` that `selector` matches, in order.
pub open spec fn texts(body: Seq<char>, selector: Seq<char>) -> Seq<Seq<char>> {
    concat_all(page_texts(body, selector))
}

fn texts_of(body: &str, selector: &str) -> (r: Result<Vec<String>, String>)
    ensures
        r is Ok == selector_parses(selector@),
        r is Ok ==> views(r->Ok_0@) == texts(body@, selector@),
{
    match page_select(body, selector) {
        Ok(t) => Ok(flatten_strings(&t)),
        Err(e) => Err(e),
    }
}

/// Whether the selectors read on a page for Chinese text all parse.
pub open spec fn zh_selectors_parse() -> bool {
    &&& selector_parses(".basic .col2 .word-exp .point"@)
    &&& selector_parses(".phone_con .per-phone .phonetic"@)
    &&& selector_parses(".web_trans .col2 .point"@)
    &&& selector_parses(".web_trans .col2 .sen-phrase"@)
}

/// What the page `body` gives for Chinese text.
pub open spec fn zh_page(body: Seq<char>) -> InnerView {
    zh_view(
        texts(body, ".basic .col2 .word-exp .point"@),
        texts(body, ".phone_con .per-phone .phonetic"@),
        texts(body, ".web_trans .col2 .point"@),
        page_texts(body, ".web_trans .col2 .sen-phrase"@),
    )
}

/// Whether the phonetic blocks of the page `body` label no phonetic, so
/// that the phonetics inside them are read instead.
pub open spec fn en_needs_fallback(body: Seq<char>) -> bool {
    let p = texts(body, ".phone_con .per-phone"@).map_values(|t: Seq<char>| clean_phonetic(t));
    after_label(p, "英"@, p.len() as int) is None && after_label(p, "美"@, p.len() as int) is None
}

/// Whether the selectors read on the page `body` for English text all parse.
pub open spec fn en_selectors_parse(body: Seq<char>) -> bool {
    &&& selector_parses(".phone_con .per-phone"@)
    &&& (en_needs_fallback(body) ==> selector_parses(".phone_con .per-phone .phonetic"@))
    &&& selector_parses(".basic .word-exp .pos"@)
    &&& selector_parses(".basic .word-exp .trans"@)
    &&& selector_parses(".web_trans .col2 .point"@)
    &&& selector_parses(".web_trans .col2 .sen-phrase"@)
}

/// The result parts of a page that looks up English text, from its texts:
/// `raw` those of its phonetic blocks, `fallback` those of the phonetics
/// inside them, which count only where no phonetic is labelled.
pub open spec fn en_page_view(
    raw: Seq<Seq<char>>,
    fallback: Seq<Seq<char>>,
    poss: Seq<Seq<char>>,
    trans: Seq<Seq<char>>,
    keys: Seq<Seq<char>>,
    phrases: Seq<Seq<Seq<char>>>,
) -> InnerView {
    let p = raw.map_values(|t: Seq<char>| clean_phonetic(t));
    let uk = after_label(p, "英"@, p.len() as int);
    let us = after_label(p, "美"@, p.len() as int);
    let phones = if uk is None && us is None {
        p + fallback.map_values(|t: Seq<char>| clean_phonetic(t))
    } else {
        p
    };
    en_view(phones, uk, us, poss, trans, keys, phrases)
}

/// What the page `body` gives for English text.
pub open spec fn en_page(body: Seq<char>) -> InnerView {
    en_page_view(
        texts(body, ".phone_con .per-phone"@),
        texts(body, ".phone_con .per-phone .phonetic"@),
        texts(body, ".basic .word-exp .pos"@),
        texts(body, ".basic .word-exp .trans"@),
        texts(body, ".web_trans .col2 .point"@),
        page_texts(body, ".web_trans .col2 .sen-phrase"@),
    )
}

/// Whether the page `body` says it has no data: some "no data" prompt
/// element holds a text node.
pub open spec fn has_no_data(body: Seq<char>) -> bool {
    exists|i: int|
        0 <= i < page_texts(body, ".no-data-prompt"@).len() && (#[trigger] page_texts(
            body,
            ".no-data-prompt"@,
        )[i]).len() > 0
}

/// Whether reading the page `body` for `word` succeeds: the selectors that
/// it reads all parse.
pub open spec fn page_parses(body: Seq<char>, word: Seq<char>) -> bool {
    &&& selector_parses(".no-data-prompt"@)
    &&& (has_no_data(body) || (if spec_is_chinese(word) {
        zh_selectors_parse()
    } else {
        en_selectors_parse(body)
    }))
}

impl YdResponse {
    /// Lookup words by Chinese meaning.
    fn zh2en(body: &str) -> (r: Result<YdResponseInner, String>)
        ensures
            r is Ok == zh_selectors_parse(),
            r is Ok ==> r->Ok_0@ == zh_page(body@),
    {
        let points = match texts_of(body, ".basic .col2 .word-exp .point") {
            Ok(t) => t,
            Err(e) => return Err(e),
        };
        let phonetics = match texts_of(body, ".phone_con .per-phone .phonetic") {
            Ok(t) => t,
            Err(e) => return Err(e),
        };
        let keys = match texts_of(body, ".web_trans .col2 .point") {
            Ok(t) => t,
            Err(e) => return Err(e),
        };
        let phrases = match page_select(body, ".web_trans .col2 .sen-phrase") {
            Ok(t) => t,
            Err(e) => return Err(e),
        };
        Ok(zh_inner(&points, &phonetics, &keys, &phrases))
    }

    /// Lookup words by English word.
    fn en2zh(body: &str) -> (r: Result<YdResponseInner, String>)
        ensures
            r is Ok == en_selectors_parse(body@),
            r is Ok ==> r->Ok_0@ == en_page(body@),
    {
        let raw = match texts_of(body, ".phone_con .per-phone") {
            Ok(t) => t,
            Err(e) => return Err(e),
        };
        let mut phones = clean_phonetics(&raw);
        let uk = labelled_phonetic(&phones, "英");
        let us = labelled_phonetic(&phones, "美");
        let ghost p = views(phones@);
        assert(en_needs_fallback(body@) == (uk is None && us is None));
        if uk.is_none() && us.is_none() {
            let fallback = match texts_of(body, ".phone_con .per-phone .phonetic") {
                Ok(t) => t,
                Err(e) => return Err(e),
            };
            let mut extra = clean_phonetics(&fallback);
            phones.append(&mut extra);
            assert(views(phones@) =~= p + texts(body@, ".phone_con .per-phone .phonetic"@).map_values(
                |t: Seq<char>| clean_phonetic(t),
            ));
        }
        let poss = match texts_of(body, ".basic .word-exp .pos") {
            Ok(t) => t,
            Err(e) => return Err(e),
        };
        let trans = match texts_of(body, ".basic .word-exp .trans") {
            Ok(t) => t,
            Err(e) => return Err(e),
        };
        let keys = match texts_of(body, ".web_trans .col2 .point") {
            Ok(t) => t,
            Err(e) => return Err(e),
        };
        let phrases = match page_select(body, ".web_trans .col2 .sen-phrase") {
            Ok(t) => t,
            Err(e) => return Err(e),
        };
        let inner = en_inner(&phones, uk, us, &poss, &trans, &keys, &phrases);
        Ok(inner)
    }

    /// The result of a dictionary page for `word`: "no data" (code 1 and
    /// nothing else) where the page says so, else code 0 with what the page
    /// gives for Chinese or for English text, as `word` is.
    pub fn from_html(body: &str, word: &str) -> (r: Result<YdResponse, String>)
        ensures
            r is Ok == page_parses(body@, word@),
            r is Ok ==> ({
                let v = r->Ok_0@;
                &&& v.query == word@
                &&& if has_no_data(body@) {
                    &&& v.error_code == ErrorCodeView::Number(1)
                    &&& v.translation is None
                    &&& v.basic is None
                    &&& v.web is None
                } else {
                    &&& v.error_code == ErrorCodeView::Number(0)
                    &&& r->Ok_0.inner@ == if spec_is_chinese(word@) {
                        zh_page(body@)
                    } else {
                        en_page(body@)
                    }
                }
            }),
    {
        let chinese = is_chinese(word);
        let no_data = match page_select(body, ".no-data-prompt") {
            Ok(t) => t,
            Err(e) => return Err(e),
        };
        let ghost nd = page_texts(body@, ".no-data-prompt"@);
        let mut is_no_data = false;
        let mut i: usize = 0;
        while i < no_data.len()
            invariant
                nested_views(no_data@) == nd,
                i <= no_data@.len(),
                is_no_data == exists|j: int| 0 <= j < i && (#[trigger] nd[j]).len() > 0,
            decreases no_data.len() - i,
        {
            assert(nd[i as int].len() == no_data@[i as int]@.len());
            if no_data[i].len() > 0 {
                is_no_data = true;
            }
            i = i + 1;
        }
        if is_no_data {
            return Ok(
                YdResponse {
                    query: String::from_str(word),
                    error_code: ErrorCode::Number(1),
                    inner: YdResponseInner { translation: None, basic: None, web: None },
                },
            );
        }
        let res = if chinese {
            Self::zh2en(body)
        } else {
            Self::en2zh(body)
        };
        match res {
            Ok(inner) => Ok(
                YdResponse { query: String::from_str(word), error_code: ErrorCode::Number(0), inner },
            ),
            Err(e) => Err(e),
        }
    }
}

} // verus!
