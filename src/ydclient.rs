//! The request side of a lookup: the choice of target language, the salt and
//! signature of the open translation API, its query, and the errors.

use vstd::prelude::*;
use vstd::string::StrSliceExecFns;
use crate::lang::{is_chinese, spec_is_chinese, spec_is_chinese_char};

verus! {

/// The name under which no credential was configured.
pub const UNSET_CREDENTIAL: &'static str = "ydcv-rs";

/// The language a word is translated into: English for Chinese text,
/// simplified Chinese for anything else.
pub open spec fn translation_lang(word: Seq<char>) -> Seq<char> {
    if spec_is_chinese(word) {
        "EN"@
    } else {
        "zh-CHS"@
    }
}

pub fn get_translation_lang(word: &str) -> (r: &'static str)
    ensures
        r@ == translation_lang(word@),
{
    if is_chinese(word) {
        "EN"
    } else {
        "zh-CHS"
    }
}

/// Whether `c` is a letter of the Latin alphabet.
pub open spec fn is_latin_letter(c: char) -> bool {
    ('a' <= c && c <= 'z') || ('A' <= c && c <= 'Z')
}

/// A word with a character of the CJK Unified Ideographs block is
/// translated into English; a word of Latin letters alone into simplified
/// Chinese.
pub proof fn lemma_translation_lang_heuristic(word: Seq<char>)
    ensures
        (exists|i: int|
            0 <= i < word.len() && 0x4e00 <= (#[trigger] word[i]) as u32 <= 0x9fff)
            ==> translation_lang(word) == "EN"@,
        (forall|i: int| 0 <= i < word.len() ==> is_latin_letter(#[trigger] word[i]))
            ==> translation_lang(word) == "zh-CHS"@,
{
    if exists|i: int| 0 <= i < word.len() && 0x4e00 <= (#[trigger] word[i]) as u32 <= 0x9fff {
        let i = choose|i: int| 0 <= i < word.len() && 0x4e00 <= (#[trigger] word[i]) as u32 <= 0x9fff;
        assert(spec_is_chinese_char(word[i]));
    }
    if forall|i: int| 0 <= i < word.len() ==> is_latin_letter(#[trigger] word[i]) {
        assert forall|i: int| 0 <= i < word.len() implies !spec_is_chinese_char(
            #[trigger] word[i],
        ) by {
            assert(is_latin_letter(word[i]));
        }
    }
}

/// The digits of hexadecimal and decimal numerals, lowest value first.
pub const DIGITS: &'static str = "0123456789abcdef";

/// The lower-case digit of value `d`.
pub open spec fn digit(d: int) -> char {
    if d < 10 {
        ('0' as int + d) as char
    } else {
        ('a' as int + d - 10) as char
    }
}

fn digit_str(d: usize) -> (r: &'static str)
    requires
        d < 16,
    ensures
        r@ == seq![digit(d as int)],
{
    proof {
        reveal_strlit("0123456789abcdef");
    }
    let r = DIGITS.substring_char(d, d + 1);
    proof {
        assert(DIGITS@[d as int] == digit(d as int));
        assert(r@ =~= seq![digit(d as int)]);
    }
    r
}

/// The decimal numeral of `n`, without leading zeros.
pub open spec fn decimal(n: nat) -> Seq<char>
    decreases n,
{
    if n < 10 {
        seq![digit(n as int)]
    } else {
        decimal(n / 10) + seq![digit((n % 10) as int)]
    }
}

pub fn to_decimal(n: u32) -> (r: String)
    ensures
        r@ == decimal(n as nat),
    decreases n,
{
    if n < 10 {
        String::from_str(digit_str(n as usize))
    } else {
        let mut r = to_decimal(n / 10);
        r.append(digit_str((n % 10) as usize));
        r
    }
}

/// The two lower-case hexadecimal digits of each byte of `b`, in order.
pub open spec fn hex(b: Seq<u8>) -> Seq<char>
    decreases b.len(),
{
    if b.len() == 0 {
        Seq::empty()
    } else {
        hex(b.drop_last()) + seq![digit(b.last() as int / 16), digit(b.last() as int % 16)]
    }
}

pub fn to_hex(b: &Vec<u8>) -> (r: String)
    ensures
        r@ == hex(b@),
{
    let mut r = String::new();
    let n = b.len();
    let mut i: usize = 0;
    while i < n
        invariant
            n == b@.len(),
            i <= n,
            r@ == hex(b@.take(i as int)),
        decreases n - i,
    {
        proof {
            assert(b@.take(i + 1).drop_last() =~= b@.take(i as int));
        }
        r.append(digit_str((b[i] / 16) as usize));
        r.append(digit_str((b[i] % 16) as usize));
        i = i + 1;
    }
    proof {
        assert(b@.take(n as int) =~= b@);
    }
    r
}

/// The MD5 digest of the UTF-8 encoding of `s`.
pub uninterp spec fn md5_of(s: Seq<char>) -> Seq<u8>;

/// Relies on md5's `Md5::digest` (through the `Digest` trait): the digest of
/// the bytes given, a function of them alone, 16 bytes long (the output
/// size of `Md5`).
#[verifier::external_body]
fn md5_digest(s: &str) -> (r: Vec<u8>)
    ensures
        r@ == md5_of(s@),
        r@.len() == 16,
{
    <md5::Md5 as md5::Digest>::digest(s.as_bytes()).to_vec()
}

/// The signature of a request to the open API: the MD5 digest, in
/// lower-case hexadecimal, of the key, the word, the salt and the secret.
pub open spec fn signature(api_key: Seq<char>, word: Seq<char>, salt: Seq<char>, app_sec: Seq<char>) -> Seq<char> {
    hex(md5_of(api_key + word + salt + app_sec))
}

/// Whether `c` is a lower-case hexadecimal digit.
pub open spec fn is_hex_digit(c: char) -> bool {
    ('0' <= c && c <= '9') || ('a' <= c && c <= 'f')
}

/// The hexadecimal form of `b` has two digits for each byte.
pub proof fn lemma_hex_shape(b: Seq<u8>)
    ensures
        hex(b).len() == 2 * b.len(),
        forall|i: int| 0 <= i < hex(b).len() ==> is_hex_digit(#[trigger] hex(b)[i]),
    decreases b.len(),
{
    if b.len() > 0 {
        lemma_hex_shape(b.drop_last());
        let pre = hex(b.drop_last());
        let d = seq![digit(b.last() as int / 16), digit(b.last() as int % 16)];
        assert(hex(b) == pre + d);
        assert forall|i: int| 0 <= i < hex(b).len() implies is_hex_digit(#[trigger] hex(b)[i]) by {
            if i < pre.len() {
                assert(hex(b)[i] == pre[i]);
            } else {
                assert(hex(b)[i] == d[i - pre.len()]);
            }
        }
    }
}

pub fn get_sign(api_key: &str, word: &str, salt: &str, app_sec: &str) -> (r: String)
    ensures
        r@ == signature(api_key@, word@, salt@, app_sec@),
        r@.len() == 32,
        forall|i: int| 0 <= i < r@.len() ==> is_hex_digit(#[trigger] r@[i]),
{
    let mut text = String::from_str(api_key);
    text.append(word);
    text.append(salt);
    text.append(app_sec);
    let digest = md5_digest(text.as_str());
    proof {
        lemma_hex_shape(digest@);
    }
    to_hex(&digest)
}

/// Relies on rand's `thread_rng` and `Rng::gen_range`, which returns a value
/// of the half-open range `lo..hi` and panics when that range is empty.
#[verifier::external_body]
fn random_in_range(lo: u32, hi: u32) -> (r: u32)
    requires
        lo < hi,
    ensures
        lo <= r < hi,
{
    rand::Rng::gen_range(&mut rand::thread_rng(), lo..hi)
}

/// Whether `s` is the decimal numeral of a salt: a number from 1 to 65535.
pub open spec fn is_salt(s: Seq<char>) -> bool {
    exists|n: nat| 1 <= n < 65536 && s == decimal(n)
}

/// A fresh random salt for a request.
pub fn get_salt() -> (r: String)
    ensures
        is_salt(r@),
{
    let n = random_in_range(1, 65536);
    let r = to_decimal(n);
    assert(is_salt(r@)) by {
        assert(1 <= n as nat && (n as nat) < 65536 && r@ == decimal(n as nat));
    }
    r
}

/// Whether `a` and `b` hold the same characters.
pub fn same_text(a: &str, b: &str) -> (r: bool)
    ensures
        r == (a@ == b@),
{
    let n = a.unicode_len();
    if n != b.unicode_len() {
        return false;
    }
    let mut i: usize = 0;
    while i < n
        invariant
            n == a@.len(),
            n == b@.len(),
            i <= n,
            a@.take(i as int) =~= b@.take(i as int),
        decreases n - i,
    {
        if a.get_char(i) != b.get_char(i) {
            assert(a@[i as int] != b@[i as int]);
            return false;
        }
        proof {
            assert(a@.take(i + 1) =~= a@.take(i as int).push(a@[i as int]));
            assert(b@.take(i + 1) =~= b@.take(i as int).push(b@[i as int]));
        }
        i = i + 1;
    }
    assert(a@ =~= a@.take(n as int));
    assert(b@ =~= b@.take(n as int));
    true
}

/// The failures of a lookup through the client.
#[derive(Debug)]
pub enum YdClientErr {
    /// Both the dictionary page and the open API failed: the open API's
    /// error, then the page's.
    NewAndOldAPIError(String, String),
    /// No key and secret for the open API were configured.
    NewApiValueError,
}

pub open spec fn missing_credentials_message() -> Seq<char> {
    "New API value Error! Please make sure YD_NEW_APP_KEY and YD_NEW_APP_SEC Environment Variables is set!"@
}

impl YdClientErr {
    /// The text of the error: for a double failure the page's error, a
    /// newline, then the open API's.
    pub open spec fn spec_message(&self) -> Seq<char> {
        match self {
            YdClientErr::NewAndOldAPIError(new_api_err, old_api_err) => old_api_err@ + "\n"@
                + new_api_err@,
            YdClientErr::NewApiValueError => missing_credentials_message(),
        }
    }

    pub fn message(&self) -> (r: String)
        ensures
            r@ == self.spec_message(),
    {
        match self {
            YdClientErr::NewAndOldAPIError(new_api_err, old_api_err) => {
                let mut r = String::from_str(old_api_err.as_str());
                r.append("\n");
                r.append(new_api_err.as_str());
                r
            },
            YdClientErr::NewApiValueError => String::from_str(
                "New API value Error! Please make sure YD_NEW_APP_KEY and YD_NEW_APP_SEC Environment Variables is set!",
            ),
        }
    }
}

/// The key and secret used for the open API: those built into the program
/// when both are, else those of the environment when neither is unset.
pub open spec fn spec_credentials(
    built_key: Option<Seq<char>>,
    built_sec: Option<Seq<char>>,
    env_key: Seq<char>,
    env_sec: Seq<char>,
) -> Option<(Seq<char>, Seq<char>)> {
    if built_key is Some && built_sec is Some {
        Some((built_key->0, built_sec->0))
    } else if env_key != UNSET_CREDENTIAL@ && env_sec != UNSET_CREDENTIAL@ {
        Some((env_key, env_sec))
    } else {
        None
    }
}

pub open spec fn opt_str_view(o: Option<&str>) -> Option<Seq<char>> {
    match o {
        Some(s) => Some(s@),
        None => None,
    }
}

/// Chooses the key and secret of the open API. `env_key` and `env_sec` are
/// the values of the environment, `UNSET_CREDENTIAL` where a variable is unset.
pub fn new_api_credentials(
    built_key: Option<&str>,
    built_sec: Option<&str>,
    env_key: &str,
    env_sec: &str,
) -> (r: Result<(String, String), YdClientErr>)
    ensures
        match spec_credentials(opt_str_view(built_key), opt_str_view(built_sec), env_key@, env_sec@) {
            Some((k, s)) => r is Ok && r->Ok_0.0@ == k && r->Ok_0.1@ == s,
            None => r is Err && r->Err_0 is NewApiValueError,
        },
{
    if let (Some(k), Some(s)) = (built_key, built_sec) {
        return Ok((String::from_str(k), String::from_str(s)));
    }
    if !same_text(env_key, UNSET_CREDENTIAL) && !same_text(env_sec, UNSET_CREDENTIAL) {
        Ok((String::from_str(env_key), String::from_str(env_sec)))
    } else {
        Err(YdClientErr::NewApiValueError)
    }
}

/// Whether `q` is the query of a request to the open API for `word`: the
/// key, the word, automatic source language, the target language, a salt and
/// the signature over that salt, in this order.
pub open spec fn is_new_api_query(
    q: Seq<(String, String)>,
    word: Seq<char>,
    api_key: Seq<char>,
    app_sec: Seq<char>,
) -> bool {
    &&& q.len() == 6
    &&& q[0].0@ == "appKey"@ && q[0].1@ == api_key
    &&& q[1].0@ == "q"@ && q[1].1@ == word
    &&& q[2].0@ == "from"@ && q[2].1@ == "auto"@
    &&& q[3].0@ == "to"@ && q[3].1@ == translation_lang(word)
    &&& q[4].0@ == "salt"@ && is_salt(q[4].1@)
    &&& q[5].0@ == "sign"@ && q[5].1@ == signature(api_key, word, q[4].1@, app_sec)
}

/// The query of a request to the open API for `word`, with a fresh salt.
pub fn new_api_query(word: &str, api_key: &str, app_sec: &str) -> (r: Vec<(String, String)>)
    ensures
        is_new_api_query(r@, word@, api_key@, app_sec@),
{
    let to = get_translation_lang(word);
    let salt = get_salt();
    let sign = get_sign(api_key, word, salt.as_str(), app_sec);
    let mut q: Vec<(String, String)> = Vec::new();
    q.push((String::from_str("appKey"), String::from_str(api_key)));
    q.push((String::from_str("q"), String::from_str(word)));
    q.push((String::from_str("from"), String::from_str("auto")));
    q.push((String::from_str("to"), String::from_str(to)));
    q.push((String::from_str("salt"), salt));
    q.push((String::from_str("sign"), sign));
    q
}

/// The line shown in place of a result when looking up `word` failed.
pub open spec fn spec_lookup_error_line(word: Seq<char>, detail: Seq<char>) -> Seq<char> {
    "Error looking-up word "@ + word + ": "@ + detail
}

pub fn lookup_error_line(word: &str, detail: &str) -> (r: String)
    ensures
        r@ == spec_lookup_error_line(word@, detail@),
{
    let mut r = String::from_str("Error looking-up word ");
    r.append(word);
    r.append(": ");
    r.append(detail);
    r
}

/// What a lookup does next, once a fetch has come back.
#[derive(Debug)]
pub enum LookupStep {
    /// Read the result from the dictionary page.
    ParsePage(String),
    /// The page could not be had: ask the open API, keeping the page's error.
    AskOpenApi(String),
    /// Read the result from the open API's reply.
    DecodeReply(String),
    /// Neither could be had.
    Fail(YdClientErr),
}

/// After fetching the dictionary page: read it, or ask the open API.
pub fn after_page_fetch(fetched: Result<String, String>) -> (r: LookupStep)
    ensures
        match fetched {
            Ok(body) => r == LookupStep::ParsePage(body),
            Err(e) => r == LookupStep::AskOpenApi(e),
        },
{
    match fetched {
        Ok(body) => LookupStep::ParsePage(body),
        Err(e) => LookupStep::AskOpenApi(e),
    }
}

/// After asking the open API, the page having failed with `page_err`: read
/// the reply, or fail with both errors.
pub fn after_api_fetch(page_err: String, fetched: Result<String, String>) -> (r: LookupStep)
    ensures
        match fetched {
            Ok(body) => r == LookupStep::DecodeReply(body),
            Err(e) => r == LookupStep::Fail(YdClientErr::NewAndOldAPIError(e, page_err)),
        },
{
    match fetched {
        Ok(body) => LookupStep::DecodeReply(body),
        Err(e) => LookupStep::Fail(YdClientErr::NewAndOldAPIError(e, page_err)),
    }
}

} // verus!
