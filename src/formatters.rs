//! Formatters used by `YdResponse::explain`: each maps a semantic style
//! (red, yellow, purple, cyan, underline, default) to markup for one output
//! medium.

use vstd::prelude::*;
use crate::text::{join, join_strings, split, split_parts, views};

verus! {

/// Base trait for formatters. Each styling method wraps (and, for markup
/// media, escapes) its input; the spec functions say exactly how.
pub trait Formatter {
    spec fn spec_red(&self, s: Seq<char>) -> Seq<char>;

    spec fn spec_yellow(&self, s: Seq<char>) -> Seq<char>;

    spec fn spec_purple(&self, s: Seq<char>) -> Seq<char>;

    spec fn spec_cyan(&self, s: Seq<char>) -> Seq<char>;

    spec fn spec_underline(&self, s: Seq<char>) -> Seq<char>;

    spec fn spec_default(&self, s: Seq<char>) -> Seq<char>;

    fn red(&self, s: &str) -> (r: String)
        ensures
            r@ == self.spec_red(s@),
    ;

    fn yellow(&self, s: &str) -> (r: String)
        ensures
            r@ == self.spec_yellow(s@),
    ;

    fn purple(&self, s: &str) -> (r: String)
        ensures
            r@ == self.spec_purple(s@),
    ;

    fn cyan(&self, s: &str) -> (r: String)
        ensures
            r@ == self.spec_cyan(s@),
    ;

    fn underline(&self, s: &str) -> (r: String)
        ensures
            r@ == self.spec_underline(s@),
    ;

    fn default(&self, s: &str) -> (r: String)
        ensures
            r@ == self.spec_default(s@),
    ;
}

/// Plain text formatter: every style is the identity.
#[derive(Debug)]
pub struct PlainFormatter;

impl PlainFormatter {
    pub fn new(_notify: bool) -> (r: PlainFormatter) {
        PlainFormatter
    }
}

impl Formatter for PlainFormatter {
    open spec fn spec_red(&self, s: Seq<char>) -> Seq<char> {
        s
    }

    open spec fn spec_yellow(&self, s: Seq<char>) -> Seq<char> {
        s
    }

    open spec fn spec_purple(&self, s: Seq<char>) -> Seq<char> {
        s
    }

    open spec fn spec_cyan(&self, s: Seq<char>) -> Seq<char> {
        s
    }

    open spec fn spec_underline(&self, s: Seq<char>) -> Seq<char> {
        s
    }

    open spec fn spec_default(&self, s: Seq<char>) -> Seq<char> {
        s
    }

    fn red(&self, s: &str) -> (r: String) {
        s.to_owned()
    }

    fn yellow(&self, s: &str) -> (r: String) {
        s.to_owned()
    }

    fn purple(&self, s: &str) -> (r: String) {
        s.to_owned()
    }

    fn cyan(&self, s: &str) -> (r: String) {
        s.to_owned()
    }

    fn underline(&self, s: &str) -> (r: String) {
        s.to_owned()
    }

    fn default(&self, s: &str) -> (r: String) {
        s.to_owned()
    }
}

/// Formatter for the desktop toasts of Windows: plain text, every style the
/// identity.
#[derive(Debug)]
pub struct WinFormatter {
    pub notify: bool,
}

impl WinFormatter {
    pub fn new(notify: bool) -> (r: WinFormatter)
        ensures
            r.notify == notify,
    {
        WinFormatter { notify }
    }
}

impl Formatter for WinFormatter {
    open spec fn spec_red(&self, s: Seq<char>) -> Seq<char> {
        s
    }

    open spec fn spec_yellow(&self, s: Seq<char>) -> Seq<char> {
        s
    }

    open spec fn spec_purple(&self, s: Seq<char>) -> Seq<char> {
        s
    }

    open spec fn spec_cyan(&self, s: Seq<char>) -> Seq<char> {
        s
    }

    open spec fn spec_underline(&self, s: Seq<char>) -> Seq<char> {
        s
    }

    open spec fn spec_default(&self, s: Seq<char>) -> Seq<char> {
        s
    }

    fn red(&self, s: &str) -> (r: String) {
        s.to_owned()
    }

    fn yellow(&self, s: &str) -> (r: String) {
        s.to_owned()
    }

    fn purple(&self, s: &str) -> (r: String) {
        s.to_owned()
    }

    fn cyan(&self, s: &str) -> (r: String) {
        s.to_owned()
    }

    fn underline(&self, s: &str) -> (r: String) {
        s.to_owned()
    }

    fn default(&self, s: &str) -> (r: String) {
        s.to_owned()
    }
}

/// The non-empty strings of `lines`, in order.
pub open spec fn non_empty(lines: Seq<Seq<char>>) -> Seq<Seq<char>>
    decreases lines.len(),
{
    if lines.len() == 0 {
        Seq::empty()
    } else if lines.last().len() > 0 {
        non_empty(lines.drop_last()).push(lines.last())
    } else {
        non_empty(lines.drop_last())
    }
}

/// The title and text of a toast for `body`: its first non-empty line, and
/// the other non-empty lines joined with newlines; none when every line is
/// empty.
pub open spec fn toast_of(body: Seq<char>) -> Option<(Seq<char>, Seq<char>)> {
    let lines = non_empty(split_parts(body, "\n"@));
    if lines.len() == 0 {
        None
    } else {
        Some((lines[0], join(lines.skip(1), "\n"@)))
    }
}

/// The character views of a pair of strings.
pub open spec fn pair_view(p: (String, String)) -> (Seq<char>, Seq<char>) {
    (p.0@, p.1@)
}

impl WinFormatter {
    /// Toasts hold few lines: their title and text leave out the empty lines.
    pub fn toast_parts(body: &str) -> (r: Option<(String, String)>)
        ensures
            match r {
                Some(p) => toast_of(body@) == Some(pair_view(p)),
                None => toast_of(body@) is None,
            },
    {
        proof {
            reveal_strlit("\n");
        }
        let all = split(body, "\n");
        let ghost av = views(all@);
        let mut lines: Vec<String> = Vec::new();
        let n = all.len();
        let mut i: usize = 0;
        while i < n
            invariant
                n == all@.len(),
                av == views(all@),
                i <= n,
                views(lines@) =~= non_empty(av.take(i as int)),
            decreases n - i,
        {
            proof {
                assert(av.take(i + 1).drop_last() =~= av.take(i as int));
            }
            if !all[i].as_str().is_empty() {
                let ghost before = lines@;
                lines.push(all[i].clone());
                proof {
                    assert(views(lines@) =~= views(before).push(av[i as int]));
                }
            }
            i = i + 1;
        }
        proof {
            assert(av.take(n as int) =~= av);
        }
        if lines.len() == 0 {
            return None;
        }
        let mut rest: Vec<String> = Vec::new();
        let m = lines.len();
        let mut j: usize = 1;
        while j < m
            invariant
                m == lines@.len(),
                1 <= j <= m,
                views(rest@) =~= views(lines@).subrange(1, j as int),
            decreases m - j,
        {
            let ghost before = rest@;
            rest.push(lines[j].clone());
            proof {
                assert(views(rest@) =~= views(before).push(lines@[j as int]@));
            }
            j = j + 1;
        }
        proof {
            assert(views(lines@).skip(1) =~= views(lines@).subrange(1, m as int));
        }
        let text = join_strings(&rest, "\n");
        Some((lines[0].clone(), text))
    }
}

/// The terminal escape sequence that selects the graphic rendition `code`.
pub open spec fn ansi_wrap(code: Seq<char>, s: Seq<char>) -> Seq<char> {
    "\x1b["@ + code + "m"@ + s + "\x1b[0m"@
}

fn ansi(code: &str, s: &str) -> (r: String)
    ensures
        r@ == ansi_wrap(code@, s@),
{
    let mut r = String::from_str("\x1b[");
    r.append(code);
    r.append("m");
    r.append(s);
    r.append("\x1b[0m");
    r
}

/// Ansi escaped colored formatter: red 31, yellow 33, purple 35, cyan 36,
/// underline 4; the default style leaves the text as it is.
#[derive(Debug)]
pub struct AnsiFormatter;

impl AnsiFormatter {
    pub fn new(_notify: bool) -> (r: AnsiFormatter) {
        AnsiFormatter
    }
}

impl Formatter for AnsiFormatter {
    open spec fn spec_red(&self, s: Seq<char>) -> Seq<char> {
        ansi_wrap("31"@, s)
    }

    open spec fn spec_yellow(&self, s: Seq<char>) -> Seq<char> {
        ansi_wrap("33"@, s)
    }

    open spec fn spec_purple(&self, s: Seq<char>) -> Seq<char> {
        ansi_wrap("35"@, s)
    }

    open spec fn spec_cyan(&self, s: Seq<char>) -> Seq<char> {
        ansi_wrap("36"@, s)
    }

    open spec fn spec_underline(&self, s: Seq<char>) -> Seq<char> {
        ansi_wrap("4"@, s)
    }

    open spec fn spec_default(&self, s: Seq<char>) -> Seq<char> {
        s
    }

    fn red(&self, s: &str) -> (r: String) {
        ansi("31", s)
    }

    fn yellow(&self, s: &str) -> (r: String) {
        ansi("33", s)
    }

    fn purple(&self, s: &str) -> (r: String) {
        ansi("35", s)
    }

    fn cyan(&self, s: &str) -> (r: String) {
        ansi("36", s)
    }

    fn underline(&self, s: &str) -> (r: String) {
        ansi("4", s)
    }

    fn default(&self, s: &str) -> (r: String) {
        s.to_owned()
    }
}

/// The entity that stands for `c` in minimally escaped HTML, or `c` itself.
pub open spec fn escape_char(c: char) -> Seq<char> {
    if c == '"' {
        "&quot;"@
    } else if c == '&' {
        "&amp;"@
    } else if c == '\'' {
        "&#x27;"@
    } else if c == '<' {
        "&lt;"@
    } else if c == '>' {
        "&gt;"@
    } else {
        seq![c]
    }
}

/// `s` with each of the five reserved characters replaced by its entity.
pub open spec fn html_escaped(s: Seq<char>) -> Seq<char>
    decreases s.len(),
{
    if s.len() == 0 {
        Seq::empty()
    } else {
        html_escaped(s.drop_last()) + escape_char(s.last())
    }
}

/// Relies on htmlescape::encode_minimal, which writes each character of `s`
/// in turn, replacing `"`, `&`, `'`, `<` and `>` by `&quot;`, `&amp;`,
/// `&#x27;`, `&lt;` and `&gt;`.
#[verifier::external_body]
fn encode_minimal(s: &str) -> (r: String)
    ensures
        r@ == html_escaped(s@),
{
    htmlescape::encode_minimal(s)
}

/// `s` escaped and wrapped in a span of the colour `color`.
pub open spec fn html_span(color: Seq<char>, s: Seq<char>) -> Seq<char> {
    "<span color=\""@ + color + "\">"@ + html_escaped(s) + "</span>"@
}

fn span(color: &str, s: &str) -> (r: String)
    ensures
        r@ == html_span(color@, s@),
{
    let mut r = String::from_str("<span color=\"");
    r.append(color);
    r.append("\">");
    let escaped = encode_minimal(s);
    r.append(escaped.as_str());
    r.append("</span>");
    r
}

/// HTML-style formatter, suitable for desktop notifications: escaped text
/// in coloured spans (red, goldenrod, purple, navy) or `<u>` tags.
#[derive(Debug)]
pub struct HtmlFormatter {
    /// Whether the output goes to a desktop notification.
    pub notify: bool,
    /// How long a notification stays, in milliseconds.
    pub timeout: i32,
}

impl HtmlFormatter {
    pub fn new(notify: bool) -> (r: HtmlFormatter)
        ensures
            r.notify == notify,
            r.timeout == 30000,
    {
        HtmlFormatter { notify, timeout: 30000 }
    }

    pub fn set_timeout(&mut self, timeout: i32)
        ensures
            final(self).timeout == timeout,
            final(self).notify == old(self).notify,
    {
        self.timeout = timeout;
    }
}

impl Formatter for HtmlFormatter {
    open spec fn spec_red(&self, s: Seq<char>) -> Seq<char> {
        html_span("red"@, s)
    }

    open spec fn spec_yellow(&self, s: Seq<char>) -> Seq<char> {
        html_span("goldenrod"@, s)
    }

    open spec fn spec_purple(&self, s: Seq<char>) -> Seq<char> {
        html_span("purple"@, s)
    }

    open spec fn spec_cyan(&self, s: Seq<char>) -> Seq<char> {
        html_span("navy"@, s)
    }

    open spec fn spec_underline(&self, s: Seq<char>) -> Seq<char> {
        "<u>"@ + html_escaped(s) + "</u>"@
    }

    open spec fn spec_default(&self, s: Seq<char>) -> Seq<char> {
        html_escaped(s)
    }

    fn red(&self, s: &str) -> (r: String) {
        span("red", s)
    }

    fn yellow(&self, s: &str) -> (r: String) {
        span("goldenrod", s)
    }

    fn purple(&self, s: &str) -> (r: String) {
        span("purple", s)
    }

    fn cyan(&self, s: &str) -> (r: String) {
        span("navy", s)
    }

    fn underline(&self, s: &str) -> (r: String) {
        let mut r = String::from_str("<u>");
        let escaped = encode_minimal(s);
        r.append(escaped.as_str());
        r.append("</u>");
        r
    }

    fn default(&self, s: &str) -> (r: String) {
        encode_minimal(s)
    }
}

/// Each style of the ANSI formatter is the escape code of its colour, the
/// text, then the reset code.
pub proof fn lemma_ansi_codes(s: Seq<char>)
    ensures
        AnsiFormatter.spec_red(s) == "\x1b[31m"@ + s + "\x1b[0m"@,
        AnsiFormatter.spec_yellow(s) == "\x1b[33m"@ + s + "\x1b[0m"@,
        AnsiFormatter.spec_purple(s) == "\x1b[35m"@ + s + "\x1b[0m"@,
        AnsiFormatter.spec_cyan(s) == "\x1b[36m"@ + s + "\x1b[0m"@,
        AnsiFormatter.spec_underline(s) == "\x1b[4m"@ + s + "\x1b[0m"@,
        AnsiFormatter.spec_default(s) == s,
{
    reveal_strlit("\x1b[");
    reveal_strlit("m");
    reveal_strlit("31");
    reveal_strlit("33");
    reveal_strlit("35");
    reveal_strlit("36");
    reveal_strlit("4");
    reveal_strlit("\x1b[31m");
    reveal_strlit("\x1b[33m");
    reveal_strlit("\x1b[35m");
    reveal_strlit("\x1b[36m");
    reveal_strlit("\x1b[4m");
    assert(AnsiFormatter.spec_red(s) =~= "\x1b[31m"@ + s + "\x1b[0m"@);
    assert(AnsiFormatter.spec_yellow(s) =~= "\x1b[33m"@ + s + "\x1b[0m"@);
    assert(AnsiFormatter.spec_purple(s) =~= "\x1b[35m"@ + s + "\x1b[0m"@);
    assert(AnsiFormatter.spec_cyan(s) =~= "\x1b[36m"@ + s + "\x1b[0m"@);
    assert(AnsiFormatter.spec_underline(s) =~= "\x1b[4m"@ + s + "\x1b[0m"@);
}

/// Escaping text piece by piece is escaping it whole.
pub proof fn lemma_html_escaped_concat(a: Seq<char>, b: Seq<char>)
    ensures
        html_escaped(a + b) == html_escaped(a) + html_escaped(b),
    decreases b.len(),
{
    if b.len() == 0 {
        assert(a + b =~= a);
        assert(html_escaped(a) + html_escaped(b) =~= html_escaped(a));
    } else {
        lemma_html_escaped_concat(a, b.drop_last());
        assert((a + b).drop_last() =~= a + b.drop_last());
        assert((a + b).last() == b.last());
        assert(html_escaped(a + b) =~= html_escaped(a) + html_escaped(b));
    }
}

/// After escaping, no `<`, `>`, `"` or `'` is left in the text.
pub proof fn lemma_html_escaped_has_no_markup(s: Seq<char>)
    ensures
        forall|i: int|
            0 <= i < html_escaped(s).len() ==> {
                let c = #[trigger] html_escaped(s)[i];
                c != '<' && c != '>' && c != '"' && c != '\''
            },
    decreases s.len(),
{
    if s.len() > 0 {
        lemma_html_escaped_has_no_markup(s.drop_last());
        reveal_strlit("&quot;");
        reveal_strlit("&amp;");
        reveal_strlit("&#x27;");
        reveal_strlit("&lt;");
        reveal_strlit("&gt;");
        let e = escape_char(s.last());
        assert(forall|j: int| 0 <= j < e.len() ==> {
            let c = #[trigger] e[j];
            c != '<' && c != '>' && c != '"' && c != '\''
        });
        let pre = html_escaped(s.drop_last());
        assert(html_escaped(s) == pre + e);
        assert forall|i: int| 0 <= i < html_escaped(s).len() implies {
            let c = #[trigger] html_escaped(s)[i];
            c != '<' && c != '>' && c != '"' && c != '\''
        } by {
            if i < pre.len() {
                assert(html_escaped(s)[i] == pre[i]);
            } else {
                assert(html_escaped(s)[i] == e[i - pre.len()]);
            }
        }
    }
}

/// The HTML formatter escapes the text inside its markup: an apostrophe
/// becomes `&#x27;`, whichever style wraps it.
pub proof fn lemma_html_escapes_apostrophe(f: HtmlFormatter, a: Seq<char>, b: Seq<char>)
    ensures
        ({
            let s = a + seq!['\''] + b;
            let inner = html_escaped(a) + "&#x27;"@ + html_escaped(b);
            &&& f.spec_red(s) == "<span color=\"red\">"@ + inner + "</span>"@
            &&& f.spec_yellow(s) == "<span color=\"goldenrod\">"@ + inner + "</span>"@
            &&& f.spec_purple(s) == "<span color=\"purple\">"@ + inner + "</span>"@
            &&& f.spec_cyan(s) == "<span color=\"navy\">"@ + inner + "</span>"@
            &&& f.spec_underline(s) == "<u>"@ + inner + "</u>"@
            &&& f.spec_default(s) == inner
        }),
{
    let s = a + seq!['\''] + b;
    lemma_html_escaped_concat(a + seq!['\''], b);
    lemma_html_escaped_concat(a, seq!['\'']);
    assert(seq!['\''].drop_last() =~= Seq::<char>::empty());
    assert(html_escaped(Seq::<char>::empty()) =~= Seq::<char>::empty());
    assert(escape_char('\'') == "&#x27;"@);
    assert(html_escaped(seq!['\'']) =~= "&#x27;"@);
    reveal_strlit("<span color=\"");
    reveal_strlit("\">");
    reveal_strlit("red");
    reveal_strlit("goldenrod");
    reveal_strlit("purple");
    reveal_strlit("navy");
    reveal_strlit("<span color=\"red\">");
    reveal_strlit("<span color=\"goldenrod\">");
    reveal_strlit("<span color=\"purple\">");
    reveal_strlit("<span color=\"navy\">");
    let inner = html_escaped(a) + "&#x27;"@ + html_escaped(b);
    assert(html_span("red"@, s) =~= "<span color=\"red\">"@ + inner + "</span>"@);
    assert(html_span("goldenrod"@, s) =~= "<span color=\"goldenrod\">"@ + inner + "</span>"@);
    assert(html_span("purple"@, s) =~= "<span color=\"purple\">"@ + inner + "</span>"@);
    assert(html_span("navy"@, s) =~= "<span color=\"navy\">"@ + inner + "</span>"@);
}

} // verus!
