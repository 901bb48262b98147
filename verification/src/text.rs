//! Positions in a source text and the primitive parsers of the assembler:
//! literal strings, regular expressions, identifiers, labels and integers.

use vstd::prelude::*;
use vstd::string::StringSliceAdditionalSpecFns;
use vstd::utf8::*;

use crate::chars::{is_control, is_control_spec, is_white_space, is_white_space_spec};
use crate::strings::chars_of;

verus! {

broadcast use vstd::string::group_string_axioms;

/// A zero-based line and column in a source text.
#[derive(Debug, Clone, Copy, PartialEq, Eq)]
pub struct Location {
    pub line: usize,
    pub column: usize,
}

/// A position as a pair of mathematical integers (line, column).
pub type Pos = (int, int);

impl Location {
    /// The position this location denotes.
    pub open spec fn pos(self) -> Pos {
        (self.line as int, self.column as int)
    }
}

/// Characters that neither start a new line nor take up a column:
/// control codes that are not white space.
pub open spec fn is_invisible(c: char) -> bool {
    is_control_spec(c) && !is_white_space_spec(c)
}

/// Where a position moves when the character `c` is read.
pub open spec fn step_pos(p: Pos, c: char) -> Pos {
    if c == '\n' {
        (p.0 + 1, 0)
    } else if is_invisible(c) {
        p
    } else {
        (p.0, p.1 + 1)
    }
}

/// Where a position moves when the characters `cs` are read, first to last.
pub open spec fn walk_pos(p: Pos, cs: Seq<char>) -> Pos
    decreases cs.len(),
{
    if cs.len() == 0 {
        p
    } else {
        step_pos(walk_pos(p, cs.drop_last()), cs.last())
    }
}

/// Both coordinates of `p` fit in a `usize`.
pub open spec fn pos_fits(p: Pos) -> bool {
    0 <= p.0 <= usize::MAX && 0 <= p.1 <= usize::MAX
}

/// Every position met while reading `cs` from `p` fits in a `usize`.
pub open spec fn walk_fits(p: Pos, cs: Seq<char>) -> bool {
    forall|i: int| 0 <= i <= cs.len() ==> #[trigger] pos_fits(walk_pos(p, cs.take(i)))
}

/// Reading the empty text leaves a position where it is.
pub proof fn lemma_walk_empty(p: Pos)
    ensures
        walk_pos(p, Seq::<char>::empty()) == p,
{
}

/// Reading `a` and then `b` moves a position as reading `a + b` does.
pub proof fn lemma_walk_concat(p: Pos, a: Seq<char>, b: Seq<char>)
    ensures
        walk_pos(p, a + b) == walk_pos(walk_pos(p, a), b),
    decreases b.len(),
{
    if b.len() == 0 {
        assert(a + b =~= a);
    } else {
        lemma_walk_concat(p, a, b.drop_last());
        assert((a + b).drop_last() =~= a + b.drop_last());
        assert((a + b).last() == b.last());
    }
}

/// The positions met while reading `a + b` from `p` fit exactly when those met
/// while reading `a` from `p`, and then `b` from where `a` ends, fit.
pub proof fn lemma_walk_fits_concat(p: Pos, a: Seq<char>, b: Seq<char>)
    ensures
        walk_fits(p, a + b) <==> (walk_fits(p, a) && walk_fits(walk_pos(p, a), b)),
{
    let ab = a + b;
    if walk_fits(p, ab) {
        assert forall|i: int| 0 <= i <= a.len() implies #[trigger] pos_fits(
            walk_pos(p, a.take(i)),
        ) by {
            assert(ab.take(i) =~= a.take(i));
            assert(pos_fits(walk_pos(p, ab.take(i))));
        }
        assert forall|i: int| 0 <= i <= b.len() implies #[trigger] pos_fits(
            walk_pos(walk_pos(p, a), b.take(i)),
        ) by {
            assert(ab.take(a.len() + i) =~= a + b.take(i));
            lemma_walk_concat(p, a, b.take(i));
            assert(pos_fits(walk_pos(p, ab.take(a.len() + i))));
        }
    }
    if walk_fits(p, a) && walk_fits(walk_pos(p, a), b) {
        assert forall|i: int| 0 <= i <= ab.len() implies #[trigger] pos_fits(
            walk_pos(p, ab.take(i)),
        ) by {
            if i <= a.len() {
                assert(ab.take(i) =~= a.take(i));
                assert(pos_fits(walk_pos(p, a.take(i))));
            } else {
                let j = i - a.len();
                assert(ab.take(i) =~= a + b.take(j));
                lemma_walk_concat(p, a, b.take(j));
                assert(pos_fits(walk_pos(walk_pos(p, a), b.take(j))));
            }
        }
    }
}

/// Fitting along a text implies fitting along each of its prefixes.
pub proof fn lemma_walk_fits_prefix(p: Pos, cs: Seq<char>, n: int)
    requires
        walk_fits(p, cs),
        0 <= n <= cs.len(),
    ensures
        walk_fits(p, cs.take(n)),
{
    assert(cs =~= cs.take(n) + cs.skip(n));
    lemma_walk_fits_concat(p, cs.take(n), cs.skip(n));
}

impl Location {
    /// The location after reading the character `c`: a newline starts the
    /// next line at column 0, an invisible control code changes nothing, and
    /// any other character moves one column to the right.
    pub fn advance_char(&self, c: char) -> (r: Self)
        requires
            pos_fits(step_pos(self.pos(), c)),
        ensures
            r.pos() == step_pos(self.pos(), c),
    {
        if c == '\n' {
            Self { line: self.line + 1, column: 0 }
        } else if is_control(c) && !is_white_space(c) {
            *self
        } else {
            Self { line: self.line, column: self.column + 1 }
        }
    }

    /// The location after reading every character of `s`, first to last.
    pub fn advance_str(&self, s: &str) -> (r: Self)
        requires
            walk_fits(self.pos(), s@),
        ensures
            r.pos() == walk_pos(self.pos(), s@),
    {
        let mut result = *self;
        let ghost cs = s@;
        assert(cs.take(0) =~= Seq::<char>::empty());
        for c in it: s.chars()
            invariant
                cs == s@,
                it.seq() == cs,
                walk_fits(self.pos(), cs),
                result.pos() == walk_pos(self.pos(), cs.take(it.index())),
        {
            let ghost i = it.index();
            proof {
                assert(cs.take(i + 1).drop_last() =~= cs.take(i));
                assert(cs.take(i + 1).last() == c);
                assert(pos_fits(walk_pos(self.pos(), cs.take(i + 1))));
            }
            result = result.advance_char(c);
        }
        assert(cs.take(cs.len() as int) =~= cs);
        result
    }
}

/// Encoding a concatenation encodes each part in turn.
pub proof fn lemma_encode_concat(a: Seq<char>, b: Seq<char>)
    ensures
        encode_utf8(a + b) == encode_utf8(a) + encode_utf8(b),
    decreases a.len(),
{
    if a.len() == 0 {
        assert(a + b =~= b);
        assert(encode_utf8(a) =~= Seq::<u8>::empty());
        assert(encode_utf8(a) + encode_utf8(b) =~= encode_utf8(b));
    } else {
        assert((a + b).drop_first() =~= a.drop_first() + b);
        assert((a + b)[0] == a[0]);
        lemma_encode_concat(a.drop_first(), b);
        assert(encode_utf8(a + b) =~= encode_scalar(a[0] as u32) + encode_utf8(a.drop_first() + b));
        assert(encode_utf8(a) =~= encode_scalar(a[0] as u32) + encode_utf8(a.drop_first()));
    }
}

/// The end of the encoding of a character sequence is a character boundary
/// of any valid encoding that continues it.
pub proof fn lemma_boundary_after_encoding(a: Seq<char>, rest: Seq<u8>)
    requires
        valid_utf8(encode_utf8(a) + rest),
    ensures
        is_char_boundary(encode_utf8(a) + rest, encode_utf8(a).len() as int),
    decreases a.len(),
{
    let ea = encode_utf8(a);
    let whole = ea + rest;
    if a.len() == 0 {
    } else {
        encode_utf8_first_scalar(a);
        let k = encode_scalar(a[0] as u32).len() as int;
        assert(ea =~= encode_scalar(a[0] as u32) + encode_utf8(a.drop_first()));
        assert(whole[0] == ea[0]);
        assert(length_of_first_scalar(whole) == length_of_first_scalar(ea));
        assert(length_of_first_scalar(whole) == k);
        assert(pop_first_scalar(whole) =~= encode_utf8(a.drop_first()) + rest);
        assert(valid_utf8(pop_first_scalar(whole)));
        lemma_boundary_after_encoding(a.drop_first(), rest);
        assert(encode_utf8(a.drop_first()).len() == ea.len() - k);
    }
}

/// A text being prefixed by another, read as characters.
pub open spec fn starts_with_spec(text: Seq<char>, prefix: Seq<char>) -> bool {
    prefix.len() <= text.len() && text.take(prefix.len() as int) == prefix
}

/// The characters encoded by the first `n` bytes of `s`.
pub open spec fn prefix_chars(s: &str, n: int) -> Seq<char> {
    decode_utf8(s.spec_bytes().subrange(0, n))
}

/// Whether `n` splits the bytes of `s` between two characters.
pub open spec fn splits_at(s: &str, n: int) -> bool {
    0 <= n <= s.spec_bytes().len() && is_char_boundary(s.spec_bytes(), n)
}

/// A text still to be read, and the location at which it starts.
#[derive(Debug, Clone, PartialEq)]
pub struct InputString<'a> {
    pub input: &'a str,
    pub location: Location,
}

/// `out` is `input` with its first `n` bytes read.
pub open spec fn advanced_by(input: InputString, n: int, out: InputString) -> bool {
    &&& out.input@ == input.input@.skip(prefix_chars(input.input, n).len() as int)
    &&& input.input@ == prefix_chars(input.input, n) + out.input@
    &&& out.location.pos() == walk_pos(input.location.pos(), prefix_chars(input.input, n))
}

impl<'a> InputString<'a> {
    /// The whole of `input`, starting at line 0, column 0.
    pub fn new(input: &'a str) -> (r: Self)
        ensures
            r.input == input,
            r.location.pos() == (0int, 0int),
    {
        Self { input, location: Location { line: 0, column: 0 } }
    }

    /// The text after its first `len` bytes, and the location where it starts.
    pub fn advance_len(&self, len: usize) -> (r: Self)
        requires
            splits_at(self.input, len as int),
            walk_fits(self.location.pos(), prefix_chars(self.input, len as int)),
        ensures
            advanced_by(*self, len as int, r),
            r.input.spec_bytes() == self.input.spec_bytes().subrange(
                len as int,
                self.input.spec_bytes().len() as int,
            ),
    {
        let ghost bytes = self.input.spec_bytes();
        proof {
            broadcast use vstd::utf8::group_utf8_lib;

            assert(valid_utf8(bytes));
        }
        let (head, tail) = self.input.split_at(len);
        proof {
            broadcast use vstd::utf8::group_utf8_lib;

            let b0 = bytes.subrange(0, len as int);
            let b1 = bytes.subrange(len as int, bytes.len() as int);
            assert(head.spec_bytes() == b0);
            assert(decode_utf8(encode_utf8(head@)) == head@);
            assert(decode_utf8(encode_utf8(tail@)) == tail@);
            assert(decode_utf8(encode_utf8(self.input@)) == self.input@);
            decode_utf8_split(bytes, len as int);
            assert(self.input@ =~= head@ + tail@);
            assert(tail@ =~= self.input@.skip(head@.len() as int));
        }
        Self { input: tail, location: self.location.advance_str(head) }
    }
}

/// A message and the location it is about.
#[derive(Debug, Clone, PartialEq)]
pub struct Error {
    pub message: String,
    pub location: Location,
}

/// A parsed value and the text that follows it.
#[derive(Debug, Clone, PartialEq)]
pub struct Success<'a, T> {
    pub result: T,
    pub remainder: InputString<'a>,
}

/// What a parser returns.
pub type ParseResult<'a, T> = Result<Success<'a, T>, Error>;

/// Whether the bytes of `s` begin with the bytes of `prefix`.
fn bytes_start_with(s: &str, prefix: &str) -> (r: bool)
    ensures
        r == (prefix.spec_bytes().len() <= s.spec_bytes().len() && s.spec_bytes().subrange(
            0,
            prefix.spec_bytes().len() as int,
        ) == prefix.spec_bytes()),
{
    let a = s.as_bytes();
    let b = prefix.as_bytes();
    if b.len() > a.len() {
        return false;
    }
    let mut i: usize = 0;
    while i < b.len()
        invariant
            a@ == s.spec_bytes(),
            b@ == prefix.spec_bytes(),
            b.len() <= a.len(),
            i <= b.len(),
            forall|j: int| 0 <= j < i ==> a@[j] == b@[j],
        decreases b.len() - i,
    {
        if a[i] != b[i] {
            assert(s.spec_bytes().subrange(0, b.len() as int)[i as int] != b@[i as int]);
            return false;
        }
        i = i + 1;
    }
    assert(s.spec_bytes().subrange(0, b.len() as int) =~= b@);
    true
}

/// The characters of `s`, starting at those of `prefix` exactly when its
/// bytes start with the bytes of `prefix`; then the end of those bytes
/// splits `s` between characters.
proof fn lemma_prefix_bytes_chars(s: &str, prefix: &str)
    ensures
        starts_with_spec(s@, prefix@) <==> (prefix.spec_bytes().len() <= s.spec_bytes().len()
            && s.spec_bytes().subrange(0, prefix.spec_bytes().len() as int)
            == prefix.spec_bytes()),
        starts_with_spec(s@, prefix@) ==> splits_at(s, prefix.spec_bytes().len() as int)
            && prefix_chars(s, prefix.spec_bytes().len() as int) == prefix@,
{
    broadcast use vstd::utf8::group_utf8_lib;

    let sb = s.spec_bytes();
    let pb = prefix.spec_bytes();
    let n = pb.len() as int;
    if starts_with_spec(s@, prefix@) {
        let rest = s@.skip(prefix@.len() as int);
        assert(s@ =~= prefix@ + rest);
        lemma_encode_concat(prefix@, rest);
        assert(sb =~= pb + encode_utf8(rest));
        assert(sb.subrange(0, n) =~= pb);
        lemma_boundary_after_encoding(prefix@, encode_utf8(rest));
        assert(decode_utf8(encode_utf8(prefix@)) == prefix@);
    }
    if n <= sb.len() && sb.subrange(0, n) == pb {
        let rest = sb.subrange(n, sb.len() as int);
        assert(sb =~= pb + rest);
        assert(valid_utf8(sb));
        lemma_boundary_after_encoding(prefix@, rest);
        decode_utf8_split(sb, n);
        assert(decode_utf8(sb) == s@);
        assert(decode_utf8(pb) == prefix@);
        assert(s@ =~= prefix@ + decode_utf8(rest));
        assert(s@.take(prefix@.len() as int) =~= prefix@);
    }
}

/// Reads the literal `s` at the start of `input`. It succeeds with `s` and
/// the text after it exactly when the input starts with `s`; otherwise the
/// error says which literal was expected, at the input's location.
pub fn parse_literal_str<'a, 'b>(input: &InputString<'a>, s: &'b str) -> (r: ParseResult<'a, &'b str>)
    requires
        starts_with_spec(input.input@, s@) ==> walk_fits(input.location.pos(), s@),
    ensures
        match r {
            Ok(success) => {
                &&& starts_with_spec(input.input@, s@)
                &&& success.result == s
                &&& success.remainder.input@ == input.input@.skip(s@.len() as int)
                &&& success.remainder.location.pos() == walk_pos(input.location.pos(), s@)
            },
            Err(e) => {
                &&& !starts_with_spec(input.input@, s@)
                &&& e.message@ == "expected \""@ + s@ + "\""@
                &&& e.location == input.location
            },
        },
{
    proof {
        lemma_prefix_bytes_chars(input.input, s);
    }
    if bytes_start_with(input.input, s) {
        let n = s.as_bytes().len();
        assert(n == s.spec_bytes().len());
        assert(starts_with_spec(input.input@, s@));
        assert(prefix_chars(input.input, n as int) == s@);
        let remainder = input.advance_len(n);
        Ok(Success { result: s, remainder })
    } else {
        let mut message = String::from_str("expected \"");
        message.append(s);
        message.append("\"");
        Err(Error { message, location: input.location })
    }
}

/// The first `n` bytes of a text split between characters are followed by
/// the rest of its characters.
pub proof fn lemma_prefix_chars_split(s: &str, n: int)
    requires
        splits_at(s, n),
    ensures
        s@ == prefix_chars(s, n) + decode_utf8(s.spec_bytes().subrange(n, s.spec_bytes().len() as int)),
        prefix_chars(s, n).len() <= s@.len(),
{
    broadcast use vstd::utf8::group_utf8_lib;

    let bytes = s.spec_bytes();
    assert(valid_utf8(bytes));
    decode_utf8_split(bytes, n);
    assert(decode_utf8(encode_utf8(s@)) == s@);
}

/// Fitting along a whole text implies fitting along the characters of any
/// prefix of its bytes that ends between characters.
pub proof fn lemma_walk_fits_prefix_bytes(p: Pos, s: &str, n: int)
    requires
        splits_at(s, n),
        walk_fits(p, s@),
    ensures
        walk_fits(p, prefix_chars(s, n)),
{
    lemma_prefix_chars_split(s, n);
    let pre = prefix_chars(s, n);
    assert(s@.take(pre.len() as int) =~= pre);
    lemma_walk_fits_prefix(p, s@, pre.len() as int);
}

/// The leftmost-first match of the regular expression `pattern` in
/// `haystack`, as the byte offsets of its start and end; `None` when nothing
/// matches or `pattern` is not a valid regular expression.
pub uninterp spec fn regex_find_spec(pattern: Seq<char>, haystack: Seq<char>) -> Option<(usize, usize)>;

/// A match, when there is one, lies in `s`, starts no later than it ends,
/// and both of its ends split `s` between characters.
pub open spec fn match_in_bounds(s: &str, found: Option<(usize, usize)>) -> bool {
    found matches Some((b, e)) ==> b <= e && splits_at(s, b as int) && splits_at(s, e as int)
}

/// Compiles `pattern` with `regex::Regex::new` and, when it compiles, looks
/// for its leftmost-first match in `haystack` with `Regex::find`, giving the
/// match's `start()` and `end()`. Claimed: the result is a function of the
/// pattern and the haystack alone, and a match lies within the haystack on
/// character boundaries with its start no later than its end (a `Match`
/// is a slice of the haystack). What the pattern matches is left unsaid.
#[verifier::external_body]
fn regex_find(pattern: &str, haystack: &str) -> (r: Option<(usize, usize)>)
    ensures
        r == regex_find_spec(pattern@, haystack@),
        match_in_bounds(haystack, r),
{
    match regex::Regex::new(pattern) {
        Ok(re) => re.find(haystack).map(|m| (m.start(), m.end())),
        Err(_) => None,
    }
}

/// The `Debug` rendering of a string: quoted, with special characters escaped.
pub uninterp spec fn debug_str_spec(s: Seq<char>) -> Seq<char>;

/// Formats `s` with `{:?}`. Claimed: the result is a function of `s` alone.
#[verifier::external_body]
pub(crate) fn debug_str(s: &str) -> (r: String)
    ensures
        r@ == debug_str_spec(s@),
{
    format!("{:?}", s)
}

/// The message of a failed regular-expression parse: the `Debug` rendering
/// of a compiled `regex::Regex` is `Regex(` and the quoted pattern and `)`.
pub open spec fn regex_expected_message(pattern: Seq<char>) -> Seq<char> {
    "expected Regex("@ + debug_str_spec(pattern) + ")"@
}

/// What parsing a regular expression at the start of `input` gives, when
/// `found` is where the expression first matches in the input: the matched
/// text when the match starts at the very beginning, an error otherwise.
pub open spec fn regex_outcome<'a>(
    input: InputString<'a>,
    pattern: Seq<char>,
    found: Option<(usize, usize)>,
    r: ParseResult<'a, &'a str>,
) -> bool {
    match r {
        Ok(success) => {
            &&& found matches Some((b, e)) && b == 0 && success.result@ == prefix_chars(
                input.input,
                e as int,
            ) && advanced_by(input, e as int, success.remainder)
        },
        Err(err) => {
            &&& !(found matches Some((b, _)) && b == 0)
            &&& err.message@ == regex_expected_message(pattern)
            &&& err.location == input.location
        },
    }
}

/// Parses the match `found` of the regular expression `pattern` at the
/// start of `input`: it succeeds with the matched text exactly when the match
/// starts at the beginning of the input.
pub fn parse_regex_match<'a>(input: &InputString<'a>, pattern: &str, found: Option<(
    usize,
    usize,
)>) -> (r: ParseResult<'a, &'a str>)
    requires
        match_in_bounds(input.input, found),
        match found {
            Some((b, e)) => b == 0 ==> walk_fits(
                input.location.pos(),
                prefix_chars(input.input, e as int),
            ),
            None => true,
        },
    ensures
        regex_outcome(*input, pattern@, found, r),
{
    match found {
        Some((start, end)) if start == 0 => {
            proof {
                broadcast use vstd::utf8::group_utf8_lib;

                assert(valid_utf8(input.input.spec_bytes()));
            }
            let (result, _) = input.input.split_at(end);
            proof {
                broadcast use vstd::utf8::group_utf8_lib;

                assert(decode_utf8(encode_utf8(result@)) == result@);
            }
            Ok(Success { result, remainder: input.advance_len(end) })
        },
        _ => {
            let mut message = String::from_str("expected Regex(");
            let shown = debug_str(pattern);
            message.append(shown.as_str());
            message.append(")");
            Err(Error { message, location: input.location })
        },
    }
}

/// Parses the regular expression `pattern` at the start of `input`.
pub fn parse_regex<'a>(input: &InputString<'a>, pattern: &str) -> (r: ParseResult<'a, &'a str>)
    requires
        walk_fits(input.location.pos(), input.input@),
    ensures
        regex_outcome(*input, pattern@, regex_find_spec(pattern@, input.input@), r),
{
    let found = regex_find(pattern, input.input);
    proof {
        if let Some((_, e)) = found {
            lemma_walk_fits_prefix_bytes(input.location.pos(), input.input, e as int);
        }
    }
    parse_regex_match(input, pattern, found)
}

/// The white space that the assembler skips: spaces, tabs and line breaks.
pub open spec fn whitespace_pattern() -> Seq<char> {
    "[ \t\n\r]*"@
}

/// The shape of an identifier: a letter or underscore, then letters,
/// digits and underscores.
pub open spec fn identifier_pattern() -> Seq<char> {
    "[a-zA-Z_][a-zA-Z0-9_]*"@
}

/// The shape of an integer literal: an optional minus sign, then digits and
/// underscores.
pub open spec fn integer_pattern() -> Seq<char> {
    "\\-?[0-9_]+"@
}

/// The text of `input` after the white space at its start; `input` itself
/// when none is matched there.
pub fn skip_whitespace<'a>(input: &InputString<'a>) -> (r: InputString<'a>)
    requires
        walk_fits(input.location.pos(), input.input@),
    ensures
        match regex_find_spec(whitespace_pattern(), input.input@) {
            Some((b, e)) => if b == 0 {
                advanced_by(*input, e as int, r)
            } else {
                r == *input
            },
            None => r == *input,
        },
{
    match parse_regex(input, "[ \t\n\r]*") {
        Ok(Success { result: _, remainder }) => remainder,
        Err(_) => InputString { input: input.input, location: input.location },
    }
}

/// Parses an identifier at the start of `input`.
pub fn parse_identifier<'a>(input: &InputString<'a>) -> (r: ParseResult<'a, &'a str>)
    requires
        walk_fits(input.location.pos(), input.input@),
    ensures
        match r {
            Ok(success) => regex_outcome(
                *input,
                identifier_pattern(),
                regex_find_spec(identifier_pattern(), input.input@),
                Ok(success),
            ),
            Err(err) => {
                &&& !(regex_find_spec(identifier_pattern(), input.input@) matches Some((b, _))
                    && b == 0)
                &&& err.message@ == "expected identifier"@
                &&& err.location == input.location
            },
        },
{
    match parse_regex(input, "[a-zA-Z_][a-zA-Z0-9_]*") {
        Ok(success) => Ok(success),
        Err(_) => Err(
            Error { message: String::from_str("expected identifier"), location: input.location },
        ),
    }
}

/// The number of characters of the identifier at the start of `s`, when the
/// identifier pattern matches there.
pub open spec fn identifier_len(s: &str) -> Option<int> {
    match regex_find_spec(identifier_pattern(), s@) {
        Some((b, e)) => if b == 0 {
            Some(prefix_chars(s, e as int).len() as int)
        } else {
            None
        },
        None => None,
    }
}

/// Parses an optional label, an identifier directly followed by `:`, at the
/// start of `input`. It never fails: without a label it gives `None` and
/// the input unchanged.
pub fn parse_label<'a>(input: &InputString<'a>) -> (r: ParseResult<'a, Option<&'a str>>)
    requires
        walk_fits(input.location.pos(), input.input@),
    ensures
        r is Ok,
        match r {
            Ok(success) => match identifier_len(input.input) {
                Some(n) => if n < input.input@.len() && input.input@[n] == ':' {
                    &&& success.result matches Some(name) && name@ == input.input@.take(n)
                    &&& success.remainder.input@ == input.input@.skip(n + 1)
                    &&& success.remainder.location.pos() == walk_pos(
                        input.location.pos(),
                        input.input@.take(n + 1),
                    )
                } else {
                    success.result is None && success.remainder == *input
                },
                None => success.result is None && success.remainder == *input,
            },
            Err(_) => false,
        },
{
    match parse_identifier(input) {
        Ok(Success { result: identifier, remainder }) => {
            let ghost found = regex_find_spec(identifier_pattern(), input.input@);
            let ghost e = found->Some_0.1 as int;
            let ghost pre = prefix_chars(input.input, e);
            proof {
                lemma_walk_fits_concat(input.location.pos(), pre, remainder.input@);
                reveal_strlit(":");
                assert(":"@.len() == 1 && ":"@[0] == ':');
                if 0 < remainder.input@.len() && remainder.input@[0] == ':' {
                    assert(remainder.input@.take(1) =~= ":"@);
                }
                if starts_with_spec(remainder.input@, ":"@) {
                    assert(remainder.input@.take(1)[0] == remainder.input@[0]);
                    lemma_walk_fits_prefix(remainder.location.pos(), remainder.input@, 1);
                }
                if 0 < remainder.input@.len() {
                    assert(remainder.input@[0] == input.input@[pre.len() as int]);
                }
            }
            match parse_literal_str(&remainder, ":") {
                Ok(Success { result: _, remainder: rest }) => {
                    proof {
                        reveal_strlit(":");
                        assert(input.input@.take(pre.len() as int + 1) =~= pre + ":"@);
                        lemma_walk_concat(input.location.pos(), pre, ":"@);
                        assert(pre =~= input.input@.take(pre.len() as int));
                        assert(rest.input@ =~= input.input@.skip(pre.len() as int + 1));
                    }
                    Ok(Success { result: Some(identifier), remainder: rest })
                },
                Err(_) => Ok(
                    Success {
                        result: None,
                        remainder: InputString { input: input.input, location: input.location },
                    },
                ),
            }
        },
        Err(_) => Ok(
            Success {
                result: None,
                remainder: InputString { input: input.input, location: input.location },
            },
        ),
    }
}

/// Whether `c` is one of the ASCII digits `0` to `9`.
pub open spec fn is_digit_spec(c: char) -> bool {
    '0' <= c && c <= '9'
}

/// Whether every character of `ds` is a decimal digit.
pub open spec fn all_digits(ds: Seq<char>) -> bool {
    forall|i: int| 0 <= i < ds.len() ==> is_digit_spec(#[trigger] ds[i])
}

/// The value of a sequence of decimal digits.
pub open spec fn digits_value(ds: Seq<char>) -> int
    decreases ds.len(),
{
    if ds.len() == 0 {
        0
    } else {
        digits_value(ds.drop_last()) * 10 + ((ds.last() as u32) - 48)
    }
}

/// The `i32` written in `s`: an optional `+` or `-` sign followed by at least
/// one decimal digit and nothing else, whose value fits in an `i32`.
pub open spec fn i32_from_str_spec(s: Seq<char>) -> Option<i32> {
    let signed = s.len() > 0 && (s[0] == '-' || s[0] == '+');
    let ds = if signed {
        s.drop_first()
    } else {
        s
    };
    let v = if signed && s[0] == '-' {
        -digits_value(ds)
    } else {
        digits_value(ds)
    };
    if ds.len() > 0 && all_digits(ds) && i32::MIN <= v <= i32::MAX {
        Some(v as i32)
    } else {
        None
    }
}

/// The value of digits is never negative.
pub(crate) proof fn lemma_digits_value_nonnegative(ds: Seq<char>)
    requires
        forall|k: int| 0 <= k < ds.len() ==> is_digit_spec(#[trigger] ds[k]),
    ensures
        digits_value(ds) >= 0,
    decreases ds.len(),
{
    if ds.len() > 0 {
        lemma_digits_value_nonnegative(ds.drop_last());
    }
}

/// Reading more digits never makes the value smaller.
pub(crate) proof fn lemma_digits_value_grows(ds: Seq<char>, n: int)
    requires
        0 <= n <= ds.len(),
        forall|k: int| 0 <= k < ds.len() ==> is_digit_spec(#[trigger] ds[k]),
    ensures
        digits_value(ds.take(n)) <= digits_value(ds),
    decreases ds.len(),
{
    if n < ds.len() {
        assert(ds.drop_last().take(n) =~= ds.take(n));
        lemma_digits_value_grows(ds.drop_last(), n);
        lemma_digits_value_nonnegative(ds.drop_last());
    } else {
        assert(ds.take(n) =~= ds);
    }
}

/// Reads `s` as an `i32` the way `str::parse::<i32>` does: an optional `+`
/// or `-` sign followed by decimal digits only, whose value is in range.
fn i32_from_str(s: &str) -> (r: Option<i32>)
    ensures
        r == i32_from_str_spec(s@),
{
    let c = chars_of(s);
    let n = c.len();
    let signed = n > 0 && (c[0] == '-' || c[0] == '+');
    let negative = signed && c[0] == '-';
    let start: usize = if signed {
        1
    } else {
        0
    };
    let ghost ds = if signed {
        s@.drop_first()
    } else {
        s@
    };
    assert(ds =~= c@.subrange(start as int, n as int));
    assert(signed == (s@.len() > 0 && (s@[0] == '-' || s@[0] == '+')));
    if start == n {
        return None;
    }
    let mut v: u64 = 0;
    let mut over = false;
    let mut k = start;
    assert(ds.take(0) =~= Seq::<char>::empty());
    while k < n
        invariant
            start <= k <= n == c@.len(),
            c@ == s@,
            ds == c@.subrange(start as int, n as int),
            ds == (if s@.len() > 0 && (s@[0] == '-' || s@[0] == '+') {
                s@.drop_first()
            } else {
                s@
            }),
            negative == (s@.len() > 0 && s@[0] == '-'),
            signed == (s@.len() > 0 && (s@[0] == '-' || s@[0] == '+')),
            start == (if signed {
                1usize
            } else {
                0usize
            }),
            forall|j: int| 0 <= j < k - start ==> is_digit_spec(#[trigger] ds[j]),
            !over ==> v == digits_value(ds.take(k - start)) && v <= 0x8000_0000,
            over ==> digits_value(ds.take(k - start)) > 0x8000_0000,
        decreases n - k,
    {
        if !('0' <= c[k] && c[k] <= '9') {
            assert(ds[k - start] == c@[k as int]);
            assert(!is_digit_spec(ds[k - start]));
            assert(!all_digits(ds));
            return None;
        }
        let ghost m = k - start;
        proof {
            assert(ds.take(m + 1).drop_last() =~= ds.take(m));
            assert(ds.take(m + 1).last() == c@[k as int]);
            assert(forall|j: int| 0 <= j < m + 1 ==> is_digit_spec(#[trigger] ds.take(m + 1)[j]));
            lemma_digits_value_nonnegative(ds.take(m));
            if over {
                lemma_digits_value_grows(ds.take(m + 1), m);
                assert(ds.take(m + 1).take(m) =~= ds.take(m));
            }
        }
        if !over {
            v = v * 10 + (c[k] as u32 - 48) as u64;
            if v > 0x8000_0000 {
                over = true;
            }
        }
        k = k + 1;
    }
    assert(ds.take(n - start) =~= ds);
    if over {
        None
    } else if negative {
        Some((0i64 - v as i64) as i32)
    } else if v <= 0x7fff_ffff {
        Some(v as i32)
    } else {
        None
    }
}

/// Parses a decimal `i32` at the start of `input`: the integer pattern must
/// match at the start, and its text must read as an `i32`.
pub fn parse_i32<'a>(input: &InputString<'a>) -> (r: ParseResult<'a, i32>)
    requires
        walk_fits(input.location.pos(), input.input@),
    ensures
        ({
            let found = regex_find_spec(integer_pattern(), input.input@);
            match r {
                Ok(success) => found matches Some((b, e)) && b == 0 && i32_from_str_spec(
                    prefix_chars(input.input, e as int),
                ) == Some(success.result) && advanced_by(*input, e as int, success.remainder),
                Err(err) => {
                    &&& !(found matches Some((b, e)) && b == 0 && i32_from_str_spec(
                        prefix_chars(input.input, e as int),
                    ) is Some)
                    &&& err.message@ == "expected i32"@
                    &&& err.location == input.location
                },
            }
        }),
{
    if let Ok(Success { result, remainder }) = parse_regex(input, "\\-?[0-9_]+") {
        if let Some(value) = i32_from_str(result) {
            return Ok(Success { result: value, remainder });
        }
    }
    Err(Error { message: String::from_str("expected i32"), location: input.location })
}

} // verus!
