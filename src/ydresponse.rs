//! The lookup result and its rendering through a formatter.

use vstd::prelude::*;
use vstd::string::StrSliceExecFns;
use crate::formatters::{AnsiFormatter, Formatter, lemma_ansi_codes};
use crate::text::{join, join_strings, views};

verus! {

/// The error code of a lookup: an integer or a string; anything else a
/// server may send is `Other`.
#[derive(Debug)]
pub enum ErrorCode {
    Number(i64),
    Text(String),
    Other,
}

pub enum ErrorCodeView {
    Number(int),
    Text(Seq<char>),
    Other,
}

impl View for ErrorCode {
    type V = ErrorCodeView;

    open spec fn view(&self) -> ErrorCodeView {
        match self {
            ErrorCode::Number(n) => ErrorCodeView::Number(*n as int),
            ErrorCode::Text(s) => ErrorCodeView::Text(s@),
            ErrorCode::Other => ErrorCodeView::Other,
        }
    }
}

impl ErrorCodeView {
    /// A lookup succeeded when its code is the integer 0 or the string "0".
    pub open spec fn is_success(self) -> bool {
        self == ErrorCodeView::Number(0) || self == ErrorCodeView::Text("0"@)
    }
}

impl ErrorCode {
    pub fn is_success(&self) -> (r: bool)
        ensures
            r == self@.is_success(),
    {
        match self {
            ErrorCode::Number(n) => *n == 0,
            ErrorCode::Text(s) => {
                proof {
                    reveal_strlit("0");
                }
                let t = s.as_str();
                let ok = t.unicode_len() == 1 && t.get_char(0) == '0';
                proof {
                    if ok {
                        assert(s@ =~= "0"@);
                    }
                }
                ok
            },
            ErrorCode::Other => false,
        }
    }
}

/// Basic result structure
#[derive(Debug)]
pub struct YdBasic {
    pub explains: Vec<String>,
    pub phonetic: Option<String>,
    pub us_phonetic: Option<String>,
    pub uk_phonetic: Option<String>,
}

/// Web result structure
#[derive(Debug)]
pub struct YdWeb {
    pub key: String,
    pub value: Vec<String>,
}

/// The parts of a result that the dictionary fills in.
#[derive(Debug)]
pub struct YdResponseInner {
    pub translation: Option<Vec<String>>,
    pub basic: Option<YdBasic>,
    pub web: Option<Vec<YdWeb>>,
}

/// Full response structure
#[derive(Debug)]
pub struct YdResponse {
    pub query: String,
    pub error_code: ErrorCode,
    pub inner: YdResponseInner,
}

pub struct BasicView {
    pub explains: Seq<Seq<char>>,
    pub phonetic: Option<Seq<char>>,
    pub us_phonetic: Option<Seq<char>>,
    pub uk_phonetic: Option<Seq<char>>,
}

pub struct WebView {
    pub key: Seq<char>,
    pub values: Seq<Seq<char>>,
}

pub struct ResponseView {
    pub query: Seq<char>,
    pub error_code: ErrorCodeView,
    pub translation: Option<Seq<Seq<char>>>,
    pub basic: Option<BasicView>,
    pub web: Option<Seq<WebView>>,
}

pub open spec fn opt_view(o: Option<String>) -> Option<Seq<char>> {
    match o {
        Some(s) => Some(s@),
        None => None,
    }
}

pub open spec fn opt_views(o: Option<Vec<String>>) -> Option<Seq<Seq<char>>> {
    match o {
        Some(v) => Some(views(v@)),
        None => None,
    }
}

pub open spec fn web_views(v: Seq<YdWeb>) -> Seq<WebView> {
    v.map_values(|w: YdWeb| w@)
}

impl View for YdBasic {
    type V = BasicView;

    open spec fn view(&self) -> BasicView {
        BasicView {
            explains: views(self.explains@),
            phonetic: opt_view(self.phonetic),
            us_phonetic: opt_view(self.us_phonetic),
            uk_phonetic: opt_view(self.uk_phonetic),
        }
    }
}

impl View for YdWeb {
    type V = WebView;

    open spec fn view(&self) -> WebView {
        WebView { key: self.key@, values: views(self.value@) }
    }
}

impl View for YdResponse {
    type V = ResponseView;

    open spec fn view(&self) -> ResponseView {
        ResponseView {
            query: self.query@,
            error_code: self.error_code@,
            translation: opt_views(self.inner.translation),
            basic: match self.inner.basic {
                Some(b) => Some(b@),
                None => None,
            },
            web: match self.inner.web {
                Some(w) => Some(web_views(w@)),
                None => None,
            },
        }
    }
}

/// The one line shown for a failed or empty lookup.
pub open spec fn no_result_line<F: Formatter>(fmt: F) -> Seq<char> {
    fmt.spec_red(" -- No result for this query."@)
}

/// The pronunciation shown after the query: both the British and the
/// American one where both are known, else the generic one, else nothing.
pub open spec fn phonetic_fragment<F: Formatter>(basic: Option<BasicView>, fmt: F) -> Seq<char> {
    match basic {
        Some(b) => if b.us_phonetic is Some && b.uk_phonetic is Some {
            " UK: ["@ + fmt.spec_yellow(b.uk_phonetic->0) + "], US: ["@ + fmt.spec_yellow(
                b.us_phonetic->0,
            ) + "]"@
        } else if b.phonetic is Some {
            "["@ + fmt.spec_yellow(b.phonetic->0) + "]"@
        } else {
            Seq::empty()
        },
        None => Seq::empty(),
    }
}

/// The first line of a full result: the query, its pronunciation and its
/// translations joined with "; ".
pub open spec fn header_line<F: Formatter>(r: ResponseView, fmt: F) -> Seq<char> {
    fmt.spec_underline(r.query) + " "@ + phonetic_fragment(r.basic, fmt) + " "@ + fmt.spec_default(
        match r.translation {
            Some(t) => join(t, "; "@),
            None => Seq::empty(),
        },
    )
}

pub open spec fn explanation_item<F: Formatter>(e: Seq<char>, fmt: F) -> Seq<char> {
    fmt.spec_default("     * "@ + e)
}

/// The word explanations, under their label; nothing when there are none.
pub open spec fn explanation_lines<F: Formatter>(basic: Option<BasicView>, fmt: F) -> Seq<
    Seq<char>,
> {
    if basic is Some && basic->0.explains.len() > 0 {
        seq![fmt.spec_cyan("  Word Explanation:"@)] + basic->0.explains.map_values(
            |e: Seq<char>| explanation_item(e, fmt),
        )
    } else {
        Seq::empty()
    }
}

/// The values of a web reference, each in purple, joined with "；".
pub open spec fn web_values_line<F: Formatter>(w: WebView, fmt: F) -> Seq<char> {
    "       "@ + join(w.values.map_values(|v: Seq<char>| fmt.spec_purple(v)), "；"@)
}

/// Two lines for each web reference: its key, then its values.
pub open spec fn web_entry_lines<F: Formatter>(ws: Seq<WebView>, fmt: F) -> Seq<Seq<char>>
    decreases ws.len(),
{
    if ws.len() == 0 {
        Seq::empty()
    } else {
        web_entry_lines(ws.drop_last(), fmt) + seq![
            "     * "@ + fmt.spec_yellow(ws.last().key),
            web_values_line(ws.last(), fmt),
        ]
    }
}

/// The web references, under their label; nothing when there are none.
pub open spec fn web_lines<F: Formatter>(web: Option<Seq<WebView>>, fmt: F) -> Seq<Seq<char>> {
    if web is Some && web->0.len() > 0 {
        seq![fmt.spec_cyan("  Web Reference:"@)] + web_entry_lines(web->0, fmt)
    } else {
        Seq::empty()
    }
}

/// Whether a result is rendered as "no result": its code signals a failure,
/// or it carries none of translations, basic information and web references.
pub open spec fn is_no_result(r: ResponseView) -> bool {
    !r.error_code.is_success() || (r.basic is None && r.web is None && r.translation is None)
}

/// Whether a result is rendered in the short form of translations alone.
pub open spec fn is_translation_only(r: ResponseView) -> bool {
    !is_no_result(r) && r.basic is None && r.web is None
}

/// The lines of the rendering of `r` through `fmt`.
pub open spec fn explain_lines<F: Formatter>(r: ResponseView, fmt: F) -> Seq<Seq<char>> {
    if is_no_result(r) {
        seq![no_result_line(fmt)]
    } else if is_translation_only(r) {
        seq![
            fmt.spec_underline(r.query),
            fmt.spec_cyan("  Translation:"@),
            "    "@ + join(r.translation->0, "；"@),
        ]
    } else {
        seq![header_line(r, fmt)] + explanation_lines(r.basic, fmt) + web_lines(r.web, fmt)
    }
}

/// The rendering of `r` through `fmt`: its lines joined with newlines.
pub open spec fn spec_explain<F: Formatter>(r: ResponseView, fmt: F) -> Seq<char> {
    join(explain_lines(r, fmt), "\n"@)
}

fn concat3(a: &str, b: &str, c: &str) -> (r: String)
    ensures
        r@ == a@ + b@ + c@,
{
    let mut r = String::from_str(a);
    r.append(b);
    r.append(c);
    r
}

fn concat2(a: &str, b: &str) -> (r: String)
    ensures
        r@ == a@ + b@,
{
    let mut r = String::from_str(a);
    r.append(b);
    r
}

fn phonetic<F: Formatter>(basic: &Option<YdBasic>, fmt: &F) -> (r: String)
    ensures
        r@ == phonetic_fragment(
            match basic {
                Some(b) => Some(b@),
                None => None,
            },
            *fmt,
        ),
{
    match basic {
        Some(b) => match (&b.us_phonetic, &b.uk_phonetic) {
            (Some(us), Some(uk)) => {
                let uk_y = fmt.yellow(uk.as_str());
                let us_y = fmt.yellow(us.as_str());
                let mut r = concat3(" UK: [", uk_y.as_str(), "], US: [");
                r.append(us_y.as_str());
                r.append("]");
                r
            },
            _ => match &b.phonetic {
                Some(p) => {
                    let y = fmt.yellow(p.as_str());
                    concat3("[", y.as_str(), "]")
                },
                None => String::new(),
            },
        },
        None => String::new(),
    }
}

fn web_values<F: Formatter>(w: &YdWeb, fmt: &F) -> (r: String)
    ensures
        r@ == web_values_line(w@, *fmt),
{
    let mut purples: Vec<String> = Vec::new();
    let n = w.value.len();
    let mut i: usize = 0;
    while i < n
        invariant
            n == w.value@.len(),
            i <= n,
            views(purples@) =~= views(w.value@).take(i as int).map_values(
                |v: Seq<char>| fmt.spec_purple(v),
            ),
        decreases n - i,
    {
        let p = fmt.purple(w.value[i].as_str());
        let ghost before = purples@;
        purples.push(p);
        proof {
            let vs = views(w.value@);
            assert(vs.take(i + 1) =~= vs.take(i as int).push(vs[i as int]));
            assert(purples@ =~= before.push(p));
            assert(views(purples@) =~= views(before).push(p@));
        }
        i = i + 1;
    }
    proof {
        assert(views(w.value@).take(n as int) =~= views(w.value@));
    }
    let joined = join_strings(&purples, "；");
    let mut r = String::from_str("       ");
    r.append(joined.as_str());
    r
}

impl YdResponse {
    /// Explain the result in text format using a formatter
    pub fn explain<F: Formatter>(&self, fmt: &F) -> (r: String)
        ensures
            r@ == spec_explain(self@, *fmt),
    {
        let ghost v = self@;
        let mut result: Vec<String> = Vec::new();
        let translation = &self.inner.translation;
        let basic = &self.inner.basic;
        let web = &self.inner.web;

        if !self.error_code.is_success() || basic.is_none() && web.is_none()
            && translation.is_none() {
            result.push(fmt.red(" -- No result for this query."));
            proof {
                assert(views(result@) =~= explain_lines(v, *fmt));
            }
            return join_strings(&result, "\n");
        }
        if basic.is_none() && web.is_none() {
            if let Some(t) = translation {
                result.push(fmt.underline(self.query.as_str()));
                result.push(fmt.cyan("  Translation:"));
                let joined = join_strings(t, "；");
                let mut line = String::from_str("    ");
                line.append(joined.as_str());
                result.push(line);
                proof {
                    assert(views(result@) =~= explain_lines(v, *fmt));
                }
                return join_strings(&result, "\n");
            }
        }
        let ph = phonetic(basic, fmt);
        let joined = match translation {
            Some(t) => join_strings(t, "; "),
            None => String::new(),
        };
        let def = fmt.default(joined.as_str());
        let under = fmt.underline(self.query.as_str());
        let mut header = concat3(under.as_str(), " ", ph.as_str());
        header.append(" ");
        header.append(def.as_str());
        result.push(header);
        let ghost head = views(result@);
        assert(head =~= seq![header_line(v, *fmt)]);

        if let Some(b) = basic {
            if b.explains.len() > 0 {
                result.push(fmt.cyan("  Word Explanation:"));
                let n = b.explains.len();
                let mut i: usize = 0;
                while i < n
                    invariant
                        n == b.explains@.len(),
                        i <= n,
                        views(result@) =~= head + seq![fmt.spec_cyan("  Word Explanation:"@)]
                            + views(b.explains@).take(i as int).map_values(
                            |e: Seq<char>| explanation_item(e, *fmt),
                        ),
                    decreases n - i,
                {
                    let line = concat2("     * ", b.explains[i].as_str());
                    let d = fmt.default(line.as_str());
                    let ghost before = result@;
                    result.push(d);
                    proof {
                        let es = views(b.explains@);
                        assert(es.take(i + 1) =~= es.take(i as int).push(es[i as int]));
                        assert(result@ =~= before.push(d));
                        assert(views(result@) =~= views(before).push(d@));
                    }
                    i = i + 1;
                }
                proof {
                    assert(views(b.explains@).take(n as int) =~= views(b.explains@));
                }
            }
        }
        let ghost mid = views(result@);
        assert(mid =~= head + explanation_lines(v.basic, *fmt));

        if let Some(ws) = web {
            if ws.len() > 0 {
                result.push(fmt.cyan("  Web Reference:"));
                let n = ws.len();
                let mut i: usize = 0;
                while i < n
                    invariant
                        n == ws@.len(),
                        i <= n,
                        views(result@) =~= mid + seq![fmt.spec_cyan("  Web Reference:"@)]
                            + web_entry_lines(web_views(ws@).take(i as int), *fmt),
                    decreases n - i,
                {
                    let item = &ws[i];
                    let y = fmt.yellow(item.key.as_str());
                    let key_line = concat2("     * ", y.as_str());
                    let values_line = web_values(item, fmt);
                    let ghost before = result@;
                    result.push(key_line);
                    result.push(values_line);
                    proof {
                        let wv = web_views(ws@);
                        assert(wv.take(i + 1).drop_last() =~= wv.take(i as int));
                        assert(wv.take(i + 1).last() == item@);
                        assert(result@ =~= before.push(key_line).push(values_line));
                        assert(views(result@) =~= views(before).push(key_line@).push(
                            values_line@,
                        ));
                        assert(web_entry_lines(wv.take(i + 1), *fmt) =~= web_entry_lines(
                            wv.take(i as int),
                            *fmt,
                        ) + seq![key_line@, values_line@]);
                    }
                    i = i + 1;
                }
                proof {
                    assert(web_views(ws@).take(n as int) =~= web_views(ws@));
                }
            }
        }
        proof {
            assert(views(result@) =~= explain_lines(v, *fmt));
        }
        join_strings(&result, "\n")
    }
}

/// A result whose code signals a failure renders as the single red
/// "no result" line, whatever else it holds.
pub proof fn lemma_failure_renders_no_result<F: Formatter>(r: ResponseView, fmt: F)
    requires
        !r.error_code.is_success(),
    ensures
        explain_lines(r, fmt) == seq![no_result_line(fmt)],
        spec_explain(r, fmt) == fmt.spec_red(" -- No result for this query."@),
{
}

/// A successful result that holds translations alone renders as exactly
/// three lines: the underlined query, the cyan label, and the indented
/// translations joined with "；".
pub proof fn lemma_translation_only_renders_three_lines<F: Formatter>(r: ResponseView, fmt: F)
    requires
        r.error_code.is_success(),
        r.translation is Some,
        r.basic is None,
        r.web is None,
    ensures
        explain_lines(r, fmt).len() == 3,
        spec_explain(r, fmt) == fmt.spec_underline(r.query) + "\n"@ + fmt.spec_cyan(
            "  Translation:"@,
        ) + "\n"@ + ("    "@ + join(r.translation->0, "；"@)),
{
    let lines = explain_lines(r, fmt);
    let nl = "\n"@;
    assert(lines.drop_last().drop_last() =~= seq![lines[0]]);
    assert(lines.drop_last() =~= seq![lines[0], lines[1]]);
    assert(join(seq![lines[0]], nl) == lines[0]);
    assert(join(lines.drop_last(), nl) == lines[0] + nl + lines[1]);
    assert(join(lines, nl) == lines[0] + nl + lines[1] + nl + lines[2]);
}

/// Two lines for each web reference, in order: its key line, then its
/// values line.
pub proof fn lemma_web_entry_lines_shape<F: Formatter>(ws: Seq<WebView>, fmt: F)
    ensures
        web_entry_lines(ws, fmt).len() == 2 * ws.len(),
        forall|j: int|
            0 <= j < ws.len() ==> {
                &&& #[trigger] web_entry_lines(ws, fmt)[2 * j] == "     * "@ + fmt.spec_yellow(
                    ws[j].key,
                )
                &&& web_entry_lines(ws, fmt)[2 * j + 1] == web_values_line(ws[j], fmt)
            },
    decreases ws.len(),
{
    if ws.len() > 0 {
        let pre = ws.drop_last();
        lemma_web_entry_lines_shape(pre, fmt);
        let lines = web_entry_lines(ws, fmt);
        assert forall|j: int| 0 <= j < ws.len() implies {
            &&& #[trigger] lines[2 * j] == "     * "@ + fmt.spec_yellow(ws[j].key)
            &&& lines[2 * j + 1] == web_values_line(ws[j], fmt)
        } by {
            if j < pre.len() {
                assert(pre[j] == ws[j]);
                assert(lines[2 * j] == web_entry_lines(pre, fmt)[2 * j]);
                assert(lines[2 * j + 1] == web_entry_lines(pre, fmt)[2 * j + 1]);
            }
        }
    }
}

/// The ANSI formatter marks up a full result as follows: the query
/// underlined (code 4), the phonetic in yellow (33), the section labels in
/// cyan (36), the keys of web references in yellow and their values in
/// purple (35), each followed by the reset code.
pub proof fn lemma_ansi_rendering(r: ResponseView)
    requires
        !is_no_result(r),
        !is_translation_only(r),
    ensures
        ({
            let lines = explain_lines(r, AnsiFormatter);
            let nx = explanation_lines(r.basic, AnsiFormatter).len() as int;
            &&& lines[0] == "\x1b[4m"@ + r.query + "\x1b[0m"@ + " "@ + phonetic_fragment(
                r.basic,
                AnsiFormatter,
            ) + " "@ + match r.translation {
                Some(t) => join(t, "; "@),
                None => Seq::empty(),
            }
            &&& (r.basic is Some && r.basic->0.explains.len() > 0 ==> lines[1] == "\x1b[36m"@
                + "  Word Explanation:"@ + "\x1b[0m"@)
            &&& (r.web is Some && r.web->0.len() > 0 ==> {
                &&& lines[1 + nx] == "\x1b[36m"@ + "  Web Reference:"@ + "\x1b[0m"@
                &&& forall|j: int|
                    #![trigger r.web->0[j]]
                    0 <= j < r.web->0.len() ==> {
                        &&& lines[2 + nx + 2 * j] == "     * "@ + ("\x1b[33m"@ + r.web->0[j].key
                            + "\x1b[0m"@)
                        &&& lines[3 + nx + 2 * j] == "       "@ + join(
                            r.web->0[j].values.map_values(
                                |v: Seq<char>| "\x1b[35m"@ + v + "\x1b[0m"@,
                            ),
                            "；"@,
                        )
                    }
            })
        }),
        r.basic is Some && r.basic->0.phonetic is Some && !(r.basic->0.us_phonetic is Some
            && r.basic->0.uk_phonetic is Some) ==> phonetic_fragment(r.basic, AnsiFormatter)
            == "["@ + "\x1b[33m"@ + r.basic->0.phonetic->0 + "\x1b[0m"@ + "]"@,
{
    lemma_ansi_codes(r.query);
    lemma_ansi_codes("  Word Explanation:"@);
    lemma_ansi_codes("  Web Reference:"@);
    if r.basic is Some && r.basic->0.phonetic is Some {
        lemma_ansi_codes(r.basic->0.phonetic->0);
    }
    let t = match r.translation {
        Some(t) => join(t, "; "@),
        None => Seq::empty(),
    };
    let lines = explain_lines(r, AnsiFormatter);
    let ex = explanation_lines(r.basic, AnsiFormatter);
    let nx = ex.len() as int;
    assert(lines == seq![header_line(r, AnsiFormatter)] + ex + web_lines(r.web, AnsiFormatter));
    assert(lines[0] == header_line(r, AnsiFormatter));
    if r.basic is Some && r.basic->0.explains.len() > 0 {
        assert(lines[1] == ex[0]);
        assert(AnsiFormatter.spec_cyan("  Word Explanation:"@) == "\x1b[36m"@
            + "  Word Explanation:"@ + "\x1b[0m"@);
    }
    if r.web is Some && r.web->0.len() > 0 {
        let ws = r.web->0;
        let wl = web_lines(r.web, AnsiFormatter);
        assert(lines[1 + nx] == wl[0]);
        lemma_web_entry_lines_shape(ws, AnsiFormatter);
        let el = web_entry_lines(ws, AnsiFormatter);
        assert forall|j: int|
            #![trigger ws[j]]
            0 <= j < ws.len() implies {
            &&& lines[2 + nx + 2 * j] == "     * "@ + ("\x1b[33m"@ + ws[j].key + "\x1b[0m"@)
            &&& lines[3 + nx + 2 * j] == "       "@ + join(
                ws[j].values.map_values(|v: Seq<char>| "\x1b[35m"@ + v + "\x1b[0m"@),
                "；"@,
            )
        } by {
            let w = ws[j];
            assert(el[2 * j] == "     * "@ + AnsiFormatter.spec_yellow(w.key));
            assert(el[2 * j + 1] == web_values_line(w, AnsiFormatter));
            assert(lines[2 + nx + 2 * j] == wl[1 + 2 * j]);
            assert(wl[1 + 2 * j] == el[2 * j]);
            assert(lines[3 + nx + 2 * j] == el[2 * j + 1]);
            lemma_ansi_codes(w.key);
            assert forall|i: int| 0 <= i < w.values.len() implies AnsiFormatter.spec_purple(
                #[trigger] w.values[i],
            ) == "\x1b[35m"@ + w.values[i] + "\x1b[0m"@ by {
                lemma_ansi_codes(w.values[i]);
            }
            assert(w.values.map_values(|v: Seq<char>| AnsiFormatter.spec_purple(v))
                =~= w.values.map_values(|v: Seq<char>| "\x1b[35m"@ + v + "\x1b[0m"@));
        }
    }
    assert(header_line(r, AnsiFormatter) =~= "\x1b[4m"@ + r.query + "\x1b[0m"@ + " "@
        + phonetic_fragment(r.basic, AnsiFormatter) + " "@ + t);
}

} // verus!
