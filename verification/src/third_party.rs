//! The calls this library makes into `regex`, `serde_json` and std's path
//! handling, each behind a small trusted item whose contract says what the
//! called function returns.
use vstd::prelude::*;
use crate::text::hex_char;

verus! {

//-------------------------------------------------------------------------
// regex
//-------------------------------------------------------------------------

#[verifier::external_type_specification]
#[verifier::external_body]
pub struct ExRegex(regex::Regex);

#[verifier::external_type_specification]
#[verifier::external_body]
pub struct ExRegexSet(regex::RegexSet);

#[verifier::external_type_specification]
#[verifier::external_body]
pub struct ExBytesRegex(regex::bytes::Regex);

#[verifier::external_type_specification]
#[verifier::external_body]
pub struct ExBytesRegexSet(regex::bytes::RegexSet);

#[verifier::external_type_specification]
#[verifier::external_body]
pub struct ExRegexError(regex::Error);

/// Whether `regex::Regex::new` accepts the pattern.
pub uninterp spec fn str_regex_compiles(pattern: Seq<char>) -> bool;

/// Whether the pattern matches somewhere in the haystack: what
/// `regex::Regex::is_match` answers, and what `regex::RegexSet::matches`
/// reports for each of its patterns (its documentation: the set holds the
/// index of each regex that matches in the haystack).
pub uninterp spec fn str_regex_is_match(pattern: Seq<char>, haystack: Seq<char>) -> bool;

/// What `regex::Regex::replace_all` returns for the pattern, haystack and
/// replacement.
pub uninterp spec fn str_regex_replace_all(pattern: Seq<char>, haystack: Seq<char>, rep: Seq<char>) -> Seq<char>;

/// Whether `regex::RegexSet::new` accepts the patterns.
pub uninterp spec fn str_regex_set_compiles(patterns: Seq<Seq<char>>) -> bool;

/// Whether `regex::bytes::Regex::new` accepts the pattern.
pub uninterp spec fn bytes_regex_compiles(pattern: Seq<char>) -> bool;

/// Whether the pattern matches somewhere in the haystack: whether
/// `regex::bytes::Regex::captures` finds a match, and what
/// `regex::bytes::RegexSet::matches` reports for each of its patterns (its
/// documentation: the set holds the index of each regex that matches in
/// the haystack).
pub uninterp spec fn bytes_regex_finds(pattern: Seq<char>, haystack: Seq<u8>) -> bool;

/// Whether `regex::bytes::RegexSet::new` accepts the patterns.
pub uninterp spec fn bytes_regex_set_compiles(patterns: Seq<Seq<char>>) -> bool;

pub open spec fn strings_view(v: Seq<String>) -> Seq<Seq<char>> {
    v.map_values(|s: String| s@)
}

/// Indices below `n`, in increasing order, as a regex set reports its
/// matches.
pub open spec fn increasing_below(r: Seq<usize>, n: nat) -> bool {
    &&& forall|i: int| 0 <= i < r.len() ==> #[trigger] r[i] < n
    &&& forall|i: int, j: int| 0 <= i < j < r.len() ==> r[i] < r[j]
}

/// A compiled pattern over text, with the pattern it was compiled from.
pub struct CompiledRegex {
    pattern: String,
    inner: regex::Regex,
}

impl CompiledRegex {
    pub closed spec fn pattern(&self) -> Seq<char> {
        self.pattern@
    }
}

/// Compiles `pattern` with `regex::Regex::new`.
#[verifier::external_body]
pub(crate) fn compile_regex(pattern: &str) -> (r: Result<CompiledRegex, regex::Error>)
    ensures
        r is Ok == str_regex_compiles(pattern@),
        r matches Ok(c) ==> c.pattern() == pattern@,
{
    match regex::Regex::new(pattern) {
        Ok(inner) => Ok(CompiledRegex { pattern: pattern.to_string(), inner }),
        Err(e) => Err(e),
    }
}

/// `regex::Regex::is_match`: whether the pattern matches somewhere in the
/// haystack.
#[verifier::external_body]
pub(crate) fn regex_is_match(re: &CompiledRegex, haystack: &str) -> (r: bool)
    ensures
        r == str_regex_is_match(re.pattern(), haystack@),
{
    re.inner.is_match(haystack)
}

/// `regex::Regex::replace_all`: every match replaced by `rep`; a haystack
/// without a match comes back unchanged.
#[verifier::external_body]
pub(crate) fn regex_replace_all(re: &CompiledRegex, haystack: &str, rep: &str) -> (r: String)
    ensures
        r@ == str_regex_replace_all(re.pattern(), haystack@, rep@),
        !str_regex_is_match(re.pattern(), haystack@) ==> r@ == haystack@,
{
    re.inner.replace_all(haystack, rep).into_owned()
}

/// Several compiled patterns over text, with the patterns they were
/// compiled from.
pub struct CompiledRegexSet {
    patterns: Vec<String>,
    inner: regex::RegexSet,
}

impl CompiledRegexSet {
    pub closed spec fn patterns(&self) -> Seq<Seq<char>> {
        strings_view(self.patterns@)
    }
}

/// Compiles `patterns` with `regex::RegexSet::new`.
#[verifier::external_body]
pub(crate) fn compile_regex_set(patterns: &Vec<String>) -> (r: Result<CompiledRegexSet, regex::Error>)
    ensures
        r is Ok == str_regex_set_compiles(strings_view(patterns@)),
        r matches Ok(c) ==> c.patterns() == strings_view(patterns@),
{
    match regex::RegexSet::new(patterns.iter()) {
        Ok(inner) => Ok(CompiledRegexSet { patterns: patterns.clone(), inner }),
        Err(e) => Err(e),
    }
}

/// `regex::RegexSet::matches`: the indices, in increasing order, of the
/// patterns that match somewhere in the haystack.
#[verifier::external_body]
pub(crate) fn regex_set_matches(set: &CompiledRegexSet, haystack: &str) -> (r: Vec<usize>)
    ensures
        increasing_below(r@, set.patterns().len()),
        forall|k: int| 0 <= k < set.patterns().len() ==> (r@.contains(k as usize)
            <==> #[trigger] str_regex_is_match(set.patterns()[k], haystack@)),
{
    set.inner.matches(haystack).into_iter().collect()
}

/// A compiled pattern over bytes, with the pattern it was compiled from.
pub struct CompiledBytesRegex {
    pattern: String,
    inner: regex::bytes::Regex,
}

impl CompiledBytesRegex {
    pub closed spec fn pattern(&self) -> Seq<char> {
        self.pattern@
    }
}

/// Compiles `pattern` with `regex::bytes::Regex::new`.
#[verifier::external_body]
pub(crate) fn compile_bytes_regex(pattern: &str) -> (r: Result<CompiledBytesRegex, regex::Error>)
    ensures
        r is Ok == bytes_regex_compiles(pattern@),
        r matches Ok(c) ==> c.pattern() == pattern@,
{
    match regex::bytes::Regex::new(pattern) {
        Ok(inner) => Ok(CompiledBytesRegex { pattern: pattern.to_string(), inner }),
        Err(e) => Err(e),
    }
}

/// The length of the `Option` that `regex::bytes::Regex::captures` returns:
/// one when the pattern matches somewhere in the haystack, else zero.
#[verifier::external_body]
pub(crate) fn bytes_regex_captures_len(re: &CompiledBytesRegex, haystack: &[u8]) -> (r: usize)
    ensures
        r == (if bytes_regex_finds(re.pattern(), haystack@) { 1usize } else { 0usize }),
{
    re.inner.captures(haystack).iter().len()
}

/// Several compiled patterns over bytes, with the patterns they were
/// compiled from.
pub struct CompiledBytesRegexSet {
    patterns: Vec<String>,
    inner: regex::bytes::RegexSet,
}

impl CompiledBytesRegexSet {
    pub closed spec fn patterns(&self) -> Seq<Seq<char>> {
        strings_view(self.patterns@)
    }
}

/// Compiles `patterns` with `regex::bytes::RegexSet::new`.
#[verifier::external_body]
pub(crate) fn compile_bytes_regex_set(patterns: &Vec<String>) -> (r: Result<CompiledBytesRegexSet, regex::Error>)
    ensures
        r is Ok == bytes_regex_set_compiles(strings_view(patterns@)),
        r matches Ok(c) ==> c.patterns() == strings_view(patterns@),
{
    match regex::bytes::RegexSet::new(patterns.iter()) {
        Ok(inner) => Ok(CompiledBytesRegexSet { patterns: patterns.clone(), inner }),
        Err(e) => Err(e),
    }
}

/// `regex::bytes::RegexSet::matches`: the indices, in increasing order, of
/// the patterns that match somewhere in the haystack.
#[verifier::external_body]
pub(crate) fn bytes_regex_set_matches(set: &CompiledBytesRegexSet, haystack: &[u8]) -> (r: Vec<usize>)
    ensures
        increasing_below(r@, set.patterns().len()),
        forall|k: int| 0 <= k < set.patterns().len() ==> (r@.contains(k as usize)
            <==> #[trigger] bytes_regex_finds(set.patterns()[k], haystack@)),
{
    set.inner.matches(haystack).into_iter().collect()
}

//-------------------------------------------------------------------------
// serde_json
//-------------------------------------------------------------------------

#[verifier::external_type_specification]
#[verifier::external_body]
pub struct ExJsonError(serde_json::Error);

/// How `serde_json` writes one character inside a string: a quote and a
/// backslash behind a backslash, backspace, tab, line feed, form feed and
/// carriage return as `\b \t \n \f \r`, the other control characters
/// below 0x20 as `\u00` and two lowercase hexadecimal digits, any other
/// character as itself.
pub open spec fn json_escape_char(c: char) -> Seq<char> {
    if c == '"' {
        seq!['\\', '"']
    } else if c == '\\' {
        seq!['\\', '\\']
    } else if c == '\u{8}' {
        seq!['\\', 'b']
    } else if c == '\t' {
        seq!['\\', 't']
    } else if c == '\n' {
        seq!['\\', 'n']
    } else if c == '\u{c}' {
        seq!['\\', 'f']
    } else if c == '\r' {
        seq!['\\', 'r']
    } else if (c as int) < 0x20 {
        seq!['\\', 'u', '0', '0', hex_char((c as int / 16) as nat), hex_char((c as int % 16) as nat)]
    } else {
        seq![c]
    }
}

/// A text with each character written as `json_escape_char` writes it.
pub open spec fn json_escape(s: Seq<char>) -> Seq<char>
    decreases s.len(),
{
    if s.len() == 0 {
        Seq::empty()
    } else {
        json_escape(s.drop_last()) + json_escape_char(s.last())
    }
}

/// The JSON string literal that `serde_json::to_string` writes for a text:
/// the escaped text between double quotes.
pub open spec fn json_string_literal(s: Seq<char>) -> Seq<char> {
    seq!['"'] + json_escape(s) + seq!['"']
}

/// `serde_json::to_string` on a text; serialising a `str` into memory does
/// not fail.
#[verifier::external_body]
pub(crate) fn json_quote(s: &str) -> (r: Result<String, serde_json::Error>)
    ensures
        r is Ok,
        r matches Ok(t) ==> t@ == json_string_literal(s@),
{
    serde_json::to_string(s)
}

//-------------------------------------------------------------------------
// blake3
//-------------------------------------------------------------------------

/// The 32 bytes of the BLAKE3 hash `blake3::hash` gives for the input.
pub uninterp spec fn blake3_digest(input: Seq<u8>) -> Seq<u8>;

/// `blake3::hash` of the input, as its bytes.
#[verifier::external_body]
pub(crate) fn blake3_hash(input: &[u8]) -> (r: [u8; 32])
    ensures
        r@ == blake3_digest(input@),
{
    *blake3::hash(input).as_bytes()
}

//-------------------------------------------------------------------------
// std paths
//-------------------------------------------------------------------------

/// The extension `std::path::Path::extension` finds in a path, as text.
pub uninterp spec fn path_extension(path: Seq<char>) -> Option<Seq<char>>;

/// The path `std::path::PathBuf::pop` leaves (its parent, or the path itself
/// when it has none).
pub uninterp spec fn path_after_pop(path: Seq<char>) -> Seq<char>;

/// The path `std::path::PathBuf::push` makes of `base` and `name`.
pub uninterp spec fn path_joined(base: Seq<char>, name: Seq<char>) -> Seq<char>;

/// `std::path::PathBuf::push` of `name` onto `base`.
#[verifier::external_body]
pub(crate) fn join_path(base: &str, name: &str) -> (r: String)
    ensures
        r@ == path_joined(base@, name@),
{
    let mut buf = std::path::PathBuf::from(base);
    buf.push(name);
    buf.to_string_lossy().into_owned()
}

pub open spec fn opt_string_view(o: Option<String>) -> Option<Seq<char>> {
    match o {
        Some(s) => Some(s@),
        None => None,
    }
}

/// `std::path::Path::extension` of the path.
#[verifier::external_body]
pub(crate) fn extension_of(path: &str) -> (r: Option<String>)
    ensures
        opt_string_view(r) == path_extension(path@),
{
    match std::path::Path::new(path).extension() {
        Some(e) => Some(e.to_string_lossy().into_owned()),
        None => None,
    }
}

/// `std::path::PathBuf::pop` on the path.
#[verifier::external_body]
pub(crate) fn pop_path(path: &str) -> (r: String)
    ensures
        r@ == path_after_pop(path@),
{
    let mut buf = std::path::PathBuf::from(path);
    buf.pop();
    buf.to_string_lossy().into_owned()
}

} // verus!
