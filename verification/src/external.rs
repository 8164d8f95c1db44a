//! Calls into `std` and outside crates whose behaviour this library relies on but does not prove.
use vstd::prelude::*;
use colored::Colorize;
use sha2::Digest;
use vstd::string::StringSliceAdditionalSpecFns;

use crate::python::tests::test_file_pattern;
use crate::text::{ends_with, starts_with};

verus! {

/// What `strip_ansi_escapes::strip` leaves of the bytes `data`.
pub uninterp spec fn ansi_stripped(data: Seq<u8>) -> Seq<u8>;

/// The bytes of `line` with ANSI escape sequences removed (`strip_ansi_escapes::strip`).
/// Stated: the result is a function of the line's bytes alone; which bytes remain is not stated.
#[verifier::external_body]
pub(crate) fn strip_ansi(line: &str) -> (r: Vec<u8>)
    ensures
        r@ == ansi_stripped(line.spec_bytes()),
{
    strip_ansi_escapes::strip(line.as_bytes())
}

/// Decodes UTF-8 bytes into a string (`String::from_utf8`): it succeeds exactly on valid UTF-8
/// and then holds the decoded characters.
#[verifier::external_body]
pub(crate) fn string_from_utf8(bytes: Vec<u8>) -> (r: Result<String, std::string::FromUtf8Error>)
    ensures
        r is Ok <==> vstd::utf8::valid_utf8(bytes@),
        r matches Ok(s) ==> s@ == vstd::utf8::decode_utf8(bytes@),
{
    String::from_utf8(bytes)
}

/// Whether `regex::Regex::new` accepts `pattern`.
pub uninterp spec fn regex_compiles(pattern: Seq<char>) -> bool;

/// Whether the regular expression `pattern` matches somewhere in `haystack` (`regex::Regex::is_match`).
pub uninterp spec fn regex_finds_match(pattern: Seq<char>, haystack: Seq<char>) -> bool;

/// Whether a file name matches `^(test_.*\\.py|.*_test\\.py)$`: it holds no line feed (which
/// `.` does not match, and `^`/`$` only match at the ends of the text), has at least eight
/// characters, and starts with `test_` and ends with `.py`, or ends with `_test.py`.
pub open spec fn test_name_matches(h: Seq<char>) -> bool {
    &&& forall|i: int| 0 <= i < h.len() ==> h[i] != '\n'
    &&& h.len() >= 8
    &&& ((starts_with(h, "test_"@) && ends_with(h, ".py"@)) || ends_with(h, "_test.py"@))
}

/// Compiles `pattern` (`regex::Regex::new`) and tests it on `haystack` (`regex::Regex::is_match`).
/// Stated: compiling succeeds exactly when `pattern` is a valid expression, a function of the
/// pattern alone; the match is a function of pattern and haystack alone. For the pattern of test
/// file names, the regex syntax (anchors, `.` without line feeds, escaped `.`) gives the match
/// as `test_name_matches`.
#[verifier::external_body]
pub(crate) fn regex_is_match(pattern: &str, haystack: &str) -> (r: Result<bool, regex::Error>)
    ensures
        r is Ok <==> regex_compiles(pattern@),
        r matches Ok(b) ==> b == regex_finds_match(pattern@, haystack@) && (pattern@ == test_file_pattern() ==> b
            == test_name_matches(haystack@)),
        r is Ok <== pattern@ == test_file_pattern(),
{
    let re = regex::Regex::new(pattern)?;
    Ok(re.is_match(haystack))
}

/// The lower-case form of `s` (`str::to_lowercase`), a function of `s` alone.
pub uninterp spec fn lowercase(s: Seq<char>) -> Seq<char>;

/// `str::to_lowercase`. Stated: the result is a function of `s` alone, and ASCII upper-case letters
/// become their lower-case forms while every other ASCII character stays.
#[verifier::external_body]
pub(crate) fn to_lowercase(s: &str) -> (r: String)
    ensures
        r@ == lowercase(s@),
        vstd::string::is_ascii(s) ==> r@.len() == s@.len() && forall|i: int|
            0 <= i < s@.len() ==> #[trigger] r@[i] == ascii_lower(s@[i]),
{
    s.to_lowercase()
}

/// The lower-case form of an ASCII character.
pub open spec fn ascii_lower(c: char) -> char {
    if 'A' <= c && c <= 'Z' {
        ((c as u32) + 32) as char
    } else {
        c
    }
}

/// The lower-case hexadecimal SHA-256 digest of the UTF-8 bytes of `data`.
pub uninterp spec fn sha256_hex_of(data: Seq<char>) -> Seq<char>;

/// `sha2::Sha256::digest` of the UTF-8 bytes of `data`, formatted with `{:x}`.
/// Stated: the result is a function of `data` alone, and it is the 32 bytes of the digest as 64
/// lower-case hexadecimal digits.
#[verifier::external_body]
pub(crate) fn sha256_hex(data: &str) -> (r: String)
    ensures
        r@ == sha256_hex_of(data@),
        r@.len() == 64,
        forall|i: int| 0 <= i < r@.len() ==> ('0' <= #[trigger] r@[i] <= '9' || 'a' <= r@[i] <= 'f'),
{
    format!("{:x}", sha2::Sha256::digest(data.as_bytes()))
}

/// The ANSI sequence that starts a style or colour.
pub open spec fn ansi_start(code: Seq<char>) -> Seq<char> {
    seq!['\u{1b}', '['] + code + seq!['m']
}

/// The ANSI sequence that resets all styles.
pub open spec fn ansi_reset() -> Seq<char> {
    seq!['\u{1b}', '[', '0', 'm']
}

/// What `colored` prints for `s` in the style `code`: `s` itself when colouring is off in this
/// process, else `s` between the style's start sequence and the reset sequence.
pub open spec fn painted(s: Seq<char>, code: Seq<char>, r: Seq<char>) -> bool {
    r == s || r == ansi_start(code) + s + ansi_reset()
}

/// `s.green().to_string()` (`colored`). Whether colouring is on depends on the environment, so
/// only the two possible results are stated, for text that holds no reset sequence itself.
#[verifier::external_body]
pub(crate) fn green(s: &str) -> (r: String)
    ensures
        !crate::text::contains(s@, ansi_reset()) ==> painted(s@, seq!['3', '2'], r@),
{
    s.green().to_string()
}

/// `s.red().to_string()` (`colored`); see `green`.
#[verifier::external_body]
pub(crate) fn red(s: &str) -> (r: String)
    ensures
        !crate::text::contains(s@, ansi_reset()) ==> painted(s@, seq!['3', '1'], r@),
{
    s.red().to_string()
}

/// `s.yellow().to_string()` (`colored`); see `green`.
#[verifier::external_body]
pub(crate) fn yellow(s: &str) -> (r: String)
    ensures
        !crate::text::contains(s@, ansi_reset()) ==> painted(s@, seq!['3', '3'], r@),
{
    s.yellow().to_string()
}

/// `s.red().bold().to_string()` (`colored`): bold comes first in the style sequence; see `green`.
#[verifier::external_body]
pub(crate) fn red_bold(s: &str) -> (r: String)
    ensures
        !crate::text::contains(s@, ansi_reset()) ==> painted(s@, seq!['1', ';', '3', '1'], r@),
{
    s.red().bold().to_string()
}

/// `s.yellow().bold().to_string()` (`colored`); see `red_bold`.
#[verifier::external_body]
pub(crate) fn yellow_bold(s: &str) -> (r: String)
    ensures
        !crate::text::contains(s@, ansi_reset()) ==> painted(s@, seq!['1', ';', '3', '3'], r@),
{
    s.yellow().bold().to_string()
}

/// `s.green().bold().to_string()` (`colored`); see `red_bold`.
#[verifier::external_body]
pub(crate) fn green_bold(s: &str) -> (r: String)
    ensures
        !crate::text::contains(s@, ansi_reset()) ==> painted(s@, seq!['1', ';', '3', '2'], r@),
{
    s.green().bold().to_string()
}

/// The views of a list of optional strings.
pub open spec fn opt_views(v: Seq<Option<String>>) -> Seq<Option<Seq<char>>> {
    v.map_values(|o: Option<String>| match o {
        Some(s) => Some(s@),
        None => None,
    })
}

/// For Python source that parses as a module, one entry per top-level statement: the name of a
/// function definition, or nothing for any other statement; nothing when the source does not
/// parse. A function of the source alone.
pub uninterp spec fn python_module_defs(source: Seq<char>) -> Option<Seq<Option<Seq<char>>>>;

/// Parses Python source as a module (`rustpython_parser::parse_tokens` over
/// `rustpython_parser::lexer::lex`, both in `Mode::Module`) and lists its top-level statements,
/// each as the name of a function definition (`Stmt::FunctionDef`) or as nothing. Stated: the
/// result is a function of the source alone, named `python_module_defs`. Parsing in module mode
/// yields a module, so `expect_module` does not panic.
#[verifier::external_body]
pub(crate) fn parse_python_module(source: &str) -> (r: Result<Vec<Option<String>>, rustpython_parser::ParseError>)
    ensures
        match r {
            Ok(v) => python_module_defs(source@) == Some(opt_views(v@)),
            Err(_) => python_module_defs(source@) is None,
        },
{
    let tokens = rustpython_parser::lexer::lex(source, rustpython_parser::Mode::Module);
    let ast = rustpython_parser::parse_tokens(tokens, rustpython_parser::Mode::Module, "<embedded>")?;
    Ok(ast.expect_module().body.into_iter().map(|stmt| match stmt {
        rustpython_parser::ast::Stmt::FunctionDef(def) => Some(def.name.to_string()),
        _ => None,
    }).collect())
}

/// Decodes UTF-8 bytes (`std::str::from_utf8`), copying the text into a `String`: it succeeds
/// exactly on valid UTF-8 and then holds the decoded characters.
#[verifier::external_body]
pub(crate) fn str_from_utf8(bytes: &[u8]) -> (r: Result<String, std::str::Utf8Error>)
    ensures
        r is Ok <==> vstd::utf8::valid_utf8(bytes@),
        r matches Ok(s) ==> s@ == vstd::utf8::decode_utf8(bytes@),
{
    std::str::from_utf8(bytes).map(|s| s.to_string())
}

} // verus!
