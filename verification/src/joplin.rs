//! The Joplin Web Clipper side: configuration, readiness, addresses, the
//! access token and the notebook list.
use vstd::prelude::*;

use std::path::PathBuf;

use crate::text::{
    append_chars, blank, chars_of, contains, contains_exec, is_blank, is_white, trim_end_char,
    trim_start_char,
};

verus! {

#[verifier::external_type_specification]
#[verifier::external_body]
pub struct ExPathBuf(PathBuf);

/// `Clone::clone` of `PathBuf`, which the derived `Clone` of `Config` calls.
/// Nothing is claimed of the copy.
pub assume_specification[ <PathBuf as Clone>::clone ](p: &PathBuf) -> PathBuf;

/// Where whisper.cpp lives and how to reach the Joplin Web Clipper.
#[derive(Debug, Clone)]
pub struct Config {
    pub whisper_dir: PathBuf,
    pub whisper_model: PathBuf,
    pub whisper_bin: PathBuf,
    pub joplin_host: String,
    pub joplin_token: String,
}

/// Why the tools are not ready to take a dictation.
#[derive(Clone, Debug, PartialEq, Eq)]
pub enum ReadyError {
    /// Joplin is not installed.
    JoplinMissing,
    /// No Web Clipper token is configured.
    TokenMissing,
    /// The whisper-cli program is not built.
    WhisperBinMissing,
    /// The whisper model file is not there.
    WhisperModelMissing,
    /// The Web Clipper answered the ping with something else; the answer is kept.
    UnexpectedPingReply(String),
}

/// The outcome of the local checks, made in this order: Joplin installed, a
/// token that is not blank, the whisper program, the whisper model.
pub open spec fn readiness(
    joplin_installed: bool,
    token: Seq<char>,
    whisper_bin_exists: bool,
    whisper_model_exists: bool,
) -> Result<(), ReadyError> {
    if !joplin_installed {
        Err(ReadyError::JoplinMissing)
    } else if is_blank(token) {
        Err(ReadyError::TokenMissing)
    } else if !whisper_bin_exists {
        Err(ReadyError::WhisperBinMissing)
    } else if !whisper_model_exists {
        Err(ReadyError::WhisperModelMissing)
    } else {
        Ok(())
    }
}

/// The message shown for a readiness error; `whisper_bin` and `whisper_model`
/// are the configured paths as they are displayed.
pub open spec fn ready_error_text(e: ReadyError, whisper_bin: Seq<char>, whisper_model: Seq<char>) -> Seq<
    char,
> {
    match e {
        ReadyError::JoplinMissing => "Joplin not found — install it from https://joplinapp.org first"@,
        ReadyError::TokenMissing => "JOPLIN_TOKEN not set — enable Joplin Web Clipper and export the token"@,
        ReadyError::WhisperBinMissing => "whisper-cli not found — build whisper.cpp first (missing: "@
            + whisper_bin + ")"@,
        ReadyError::WhisperModelMissing => "Whisper model not found: "@ + whisper_model,
        ReadyError::UnexpectedPingReply(reply) => "Unexpected Joplin Web Clipper ping response: "@
            + reply@,
    }
}

impl ReadyError {
    /// The message shown for this error, naming the configured whisper paths
    /// (as displayed) where they are missing.
    pub fn message(&self, whisper_bin: &str, whisper_model: &str) -> (m: String)
        ensures
            m@ == ready_error_text(*self, whisper_bin@, whisper_model@),
    {
        match self {
            ReadyError::JoplinMissing => String::from_str(
                "Joplin not found — install it from https://joplinapp.org first",
            ),
            ReadyError::TokenMissing => String::from_str(
                "JOPLIN_TOKEN not set — enable Joplin Web Clipper and export the token",
            ),
            ReadyError::WhisperBinMissing => {
                let mut m = String::from_str("whisper-cli not found — build whisper.cpp first (missing: ");
                m.append(whisper_bin);
                m.append(")");
                m
            },
            ReadyError::WhisperModelMissing => {
                let mut m = String::from_str("Whisper model not found: ");
                m.append(whisper_model);
                m
            },
            ReadyError::UnexpectedPingReply(reply) => {
                let mut m = String::from_str("Unexpected Joplin Web Clipper ping response: ");
                m.append(reply.as_str());
                m
            },
        }
    }
}

/// When Joplin is not installed the check fails for that reason, whatever the
/// token and the whisper files.
pub proof fn lemma_readiness_needs_joplin(token: Seq<char>, bin: bool, model: bool)
    ensures
        readiness(false, token, bin, model) == Err::<(), ReadyError>(ReadyError::JoplinMissing),
{
}

/// With Joplin installed, a blank token is refused for that reason, whatever
/// the whisper files.
pub proof fn lemma_readiness_needs_token(token: Seq<char>, bin: bool, model: bool)
    requires
        forall|i: int| 0 <= i < token.len() ==> is_white(#[trigger] token[i]),
    ensures
        readiness(true, token, bin, model) == Err::<(), ReadyError>(ReadyError::TokenMissing),
{
}

/// With Joplin and a token, a missing whisper program is refused for that
/// reason, whatever the model; a missing model is refused only when the
/// program is there.
pub proof fn lemma_readiness_needs_whisper(token: Seq<char>, model: bool)
    requires
        exists|i: int| 0 <= i < token.len() && !is_white(#[trigger] token[i]),
    ensures
        readiness(true, token, false, model) == Err::<(), ReadyError>(ReadyError::WhisperBinMissing),
        readiness(true, token, true, false) == Err::<(), ReadyError>(ReadyError::WhisperModelMissing),
{
}

/// The check passes exactly when Joplin is installed, the token is not blank,
/// and both whisper files are there.
pub proof fn lemma_readiness_passes(installed: bool, token: Seq<char>, bin: bool, model: bool)
    ensures
        readiness(installed, token, bin, model) is Ok <==> (installed && bin && model && exists|i: int|
            0 <= i < token.len() && !is_white(#[trigger] token[i])),
{
}

impl Config {
    /// Checks, from what was found on the machine, that a dictation can be made.
    /// The Web Clipper ping comes after these checks pass (`check_ping_reply`).
    pub fn require_ready(
        &self,
        joplin_installed: bool,
        whisper_bin_exists: bool,
        whisper_model_exists: bool,
    ) -> (res: Result<(), ReadyError>)
        ensures
            res == readiness(
                joplin_installed,
                self.joplin_token@,
                whisper_bin_exists,
                whisper_model_exists,
            ),
    {
        if !joplin_installed {
            Err(ReadyError::JoplinMissing)
        } else if blank(self.joplin_token.as_str()) {
            Err(ReadyError::TokenMissing)
        } else if !whisper_bin_exists {
            Err(ReadyError::WhisperBinMissing)
        } else if !whisper_model_exists {
            Err(ReadyError::WhisperModelMissing)
        } else {
            Ok(())
        }
    }
}

/// The text by which the Web Clipper answers a ping.
pub open spec fn clipper_signature() -> Seq<char> {
    "JoplinClipperServer"@
}

/// Accepts a ping answer that names the Web Clipper server.
pub fn check_ping_reply(reply: &str) -> (res: Result<(), ReadyError>)
    ensures
        contains(reply@, clipper_signature()) ==> res is Ok,
        !contains(reply@, clipper_signature()) ==> (res matches Err(ReadyError::UnexpectedPingReply(r))
            && r@ == reply@),
{
    let text = chars_of(reply);
    let signature = chars_of("JoplinClipperServer");
    if contains_exec(&text, &signature) {
        Ok(())
    } else {
        Err(ReadyError::UnexpectedPingReply(String::from_str(reply)))
    }
}

// ---------------------------------------------------------------------------
// Addresses
// ---------------------------------------------------------------------------

/// A byte that a URL may hold as it is: letters, digits, `-`, `.`, `_`, `~`.
pub open spec fn is_unreserved(b: u8) -> bool {
    (48 <= b <= 57) || (65 <= b <= 90) || (97 <= b <= 122) || b == 45 || b == 46 || b == 95 || b
        == 126
}

/// The upper-case hexadecimal digit of `d < 16`.
pub open spec fn hex_digit(d: u8) -> char {
    if d < 10 {
        ((d + 48) as u32) as char
    } else {
        ((d + 55) as u32) as char
    }
}

/// Percent-encoding: every byte but the unreserved ones becomes `%` and two
/// upper-case hexadecimal digits.
pub open spec fn percent_encode(bytes: Seq<u8>) -> Seq<char>
    decreases bytes.len(),
{
    if bytes.len() == 0 {
        Seq::empty()
    } else {
        let b = bytes[0];
        (if is_unreserved(b) {
            seq![(b as u32) as char]
        } else {
            seq!['%', hex_digit(b / 16), hex_digit(b % 16)]
        }) + percent_encode(bytes.drop_first())
    }
}

/// `urlencoding::encode`, taken to an owned `String`. Claimed, as the crate
/// documents and its source does: every byte of the UTF-8 text is kept when it
/// is an ASCII letter or digit or one of `-_.~`, and is written as `%` and two
/// upper-case hexadecimal digits otherwise.
#[verifier::external_body]
fn url_encode(s: &str) -> (r: String)
    ensures
        r@ == percent_encode(vstd::utf8::encode_utf8(s@)),
{
    urlencoding::encode(s).into_owned()
}

/// The end of `v` without the characters `c` at its end.
fn trim_end_char_bound(v: &Vec<char>, c: char) -> (k: usize)
    ensures
        k <= v.len(),
        trim_end_char(v@, c) == v@.take(k as int),
{
    let mut k: usize = v.len();
    assert(v@.take(k as int) =~= v@);
    while k > 0 && v[k - 1] == c
        invariant
            k <= v.len(),
            trim_end_char(v@, c) == trim_end_char(v@.take(k as int), c),
        decreases k,
    {
        assert(v@.take(k as int).drop_last() =~= v@.take(k - 1));
        k = k - 1;
    }
    k
}

/// The start of `v` without the characters `c` at its start.
fn trim_start_char_bound(v: &Vec<char>, c: char) -> (k: usize)
    ensures
        k <= v.len(),
        trim_start_char(v@, c) == v@.skip(k as int),
{
    let mut k: usize = 0;
    assert(v@.skip(0) =~= v@);
    while k < v.len() && v[k] == c
        invariant
            k <= v.len(),
            trim_start_char(v@, c) == trim_start_char(v@.skip(k as int), c),
        decreases v.len() - k,
    {
        assert(v@.skip(k as int).drop_first() =~= v@.skip(k + 1));
        k = k + 1;
    }
    k
}

/// The address of a Web Clipper call: the host without trailing `/`, the path
/// without leading `/`, and the token percent-encoded.
pub open spec fn api_url_text(host: Seq<char>, path: Seq<char>, token: Seq<char>) -> Seq<char> {
    trim_end_char(host, '/') + "/"@ + trim_start_char(path, '/') + "?token="@ + percent_encode(
        vstd::utf8::encode_utf8(token),
    )
}

/// The address of the Web Clipper ping.
pub open spec fn ping_url_text(host: Seq<char>) -> Seq<char> {
    trim_end_char(host, '/') + "/ping"@
}

/// The address of the Web Clipper endpoint `path`, with the token.
pub fn api_url(config: &Config, path: &str) -> (url: String)
    ensures
        url@ == api_url_text(config.joplin_host@, path@, config.joplin_token@),
{
    let host = chars_of(config.joplin_host.as_str());
    let end: usize = trim_end_char_bound(&host, '/');
    let p = chars_of(path);
    let start: usize = trim_start_char_bound(&p, '/');
    let mut url = String::new();
    append_chars(&mut url, &host, 0, end);
    url.append("/");
    append_chars(&mut url, &p, start, p.len());
    url.append("?token=");
    let token = url_encode(config.joplin_token.as_str());
    url.append(token.as_str());
    proof {
        assert(host@.subrange(0, end as int) =~= host@.take(end as int));
        assert(p@.subrange(start as int, p@.len() as int) =~= p@.skip(start as int));
        assert(Seq::<char>::empty() + host@.take(end as int) =~= host@.take(end as int));
    }
    url
}

/// The address of the Web Clipper ping.
pub fn ping_url(config: &Config) -> (url: String)
    ensures
        url@ == ping_url_text(config.joplin_host@),
{
    let host = chars_of(config.joplin_host.as_str());
    let end: usize = trim_end_char_bound(&host, '/');
    let mut url = String::new();
    append_chars(&mut url, &host, 0, end);
    url.append("/ping");
    proof {
        assert(host@.subrange(0, end as int) =~= host@.take(end as int));
        assert(Seq::<char>::empty() + host@.take(end as int) =~= host@.take(end as int));
    }
    url
}

// ---------------------------------------------------------------------------
// The access token
// ---------------------------------------------------------------------------

/// What serde_json finds at `key` in the JSON text: the string there, if the
/// text is a JSON object whose member `key` is a string.
pub uninterp spec fn json_string_member(text: Seq<char>, key: Seq<char>) -> Option<Seq<char>>;

/// `serde_json::from_str` into a `serde_json::Value`, then the member `key` of
/// it when it is a string (`Value::get` and `Value::as_str`). Claimed: the
/// result is a function of the text and the key alone.
#[verifier::external_body]
fn json_string_at(text: &str, key: &str) -> (r: Option<String>)
    ensures
        r.deep_view() == json_string_member(text@, key@),
{
    let value: serde_json::Value = match serde_json::from_str(text) {
        Ok(v) => v,
        Err(_) => return None,
    };
    match value.get(key) {
        Some(serde_json::Value::String(s)) => Some(s.clone()),
        _ => None,
    }
}

/// A token that is only white space counts as none.
pub open spec fn usable(token: Option<Seq<char>>) -> Option<Seq<char>> {
    match token {
        Some(t) => if is_blank(t) { None } else { Some(t) },
        None => None,
    }
}

/// Keeps a token only if it is not blank.
pub fn usable_token(token: Option<String>) -> (r: Option<String>)
    ensures
        r.deep_view() == usable(token.deep_view()),
{
    match token {
        Some(t) => if blank(t.as_str()) {
            None
        } else {
            Some(t)
        },
        None => None,
    }
}

/// The Web Clipper address used when `JOPLIN_HOST` is not set.
pub open spec fn default_host() -> Seq<char> {
    "http://127.0.0.1:41184"@
}

/// The Web Clipper address: `JOPLIN_HOST` if it is set, else the local default.
pub fn joplin_host_setting(env_host: Option<String>) -> (host: String)
    ensures
        host@ == (match env_host {
            Some(h) => h@,
            None => default_host(),
        }),
{
    match env_host {
        Some(h) => h,
        None => String::from_str("http://127.0.0.1:41184"),
    }
}

/// The token in use: `JOPLIN_TOKEN` unless it is blank, else the one in
/// Joplin's settings text unless it is blank, else none (empty).
pub open spec fn chosen_token(env_token: Option<Seq<char>>, settings: Option<Seq<char>>) -> Seq<char> {
    match usable(env_token) {
        Some(t) => t,
        None => match settings {
            Some(text) => match usable(json_string_member(text, "api.token"@)) {
                Some(t) => t,
                None => Seq::empty(),
            },
            None => Seq::empty(),
        },
    }
}

/// A `JOPLIN_TOKEN` value that is not blank is the token in use, whatever the
/// settings say and whether they could be read.
pub proof fn lemma_environment_token_wins(env: Seq<char>, settings: Option<Seq<char>>)
    requires
        exists|i: int| 0 <= i < env.len() && !is_white(#[trigger] env[i]),
    ensures
        chosen_token(Some(env), settings) == env,
{
}

/// Without a usable `JOPLIN_TOKEN`, a token in the settings that is not blank
/// is the token in use.
pub proof fn lemma_settings_token_used(env: Option<Seq<char>>, text: Seq<char>)
    requires
        env matches Some(e) ==> forall|i: int| 0 <= i < e.len() ==> is_white(#[trigger] e[i]),
        json_string_member(text, "api.token"@) is Some,
        exists|i: int|
            0 <= i < json_string_member(text, "api.token"@).unwrap().len() && !is_white(
                #[trigger] json_string_member(text, "api.token"@).unwrap()[i],
            ),
    ensures
        chosen_token(env, Some(text)) == json_string_member(text, "api.token"@).unwrap(),
{
}

/// Without a usable `JOPLIN_TOKEN` and without a usable token in the settings
/// (none read, none there, or a blank one), the token is empty.
pub proof fn lemma_no_token_is_empty(env: Option<Seq<char>>, settings: Option<Seq<char>>)
    requires
        env matches Some(e) ==> forall|i: int| 0 <= i < e.len() ==> is_white(#[trigger] e[i]),
        settings matches Some(text) ==> (json_string_member(text, "api.token"@) matches Some(t)
            ==> forall|i: int| 0 <= i < t.len() ==> is_white(#[trigger] t[i])),
    ensures
        chosen_token(env, settings) == Seq::<char>::empty(),
{
}

/// The Web Clipper token, from the `JOPLIN_TOKEN` value and the text of
/// Joplin's `settings.json` (if it could be read).
pub fn token_setting(env_token: Option<String>, settings: Option<String>) -> (token: String)
    ensures
        token@ == chosen_token(env_token.deep_view(), settings.deep_view()),
{
    match usable_token(env_token) {
        Some(t) => t,
        None => match settings {
            Some(text) => match token_from_settings(text.as_str()) {
                Some(t) => t,
                None => String::new(),
            },
            None => String::new(),
        },
    }
}

/// The Web Clipper token stored in Joplin's `settings.json` under `api.token`,
/// if there is one that is not blank.
pub fn token_from_settings(settings: &str) -> (r: Option<String>)
    ensures
        r.deep_view() == usable(json_string_member(settings@, "api.token"@)),
{
    usable_token(json_string_at(settings, "api.token"))
}

} // verus!
