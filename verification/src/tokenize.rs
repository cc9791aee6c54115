//! The tokenizer: scans source text left to right into a token sequence
//! terminated by exactly one `EndOfInput`.
//!
//! The scanning discipline is maximal munch: at each position the longest
//! possible lexeme of the applicable class is consumed, and only then
//! classified.  In particular an identifier run that merely starts with a
//! keyword (`"internal"` against `in`) is one identifier, never a keyword
//! plus a remainder.
//!
//! The whole behaviour is defined by the specification function
//! [`spec_tokenize`]; the executable [`Tokenizer::tokenize`] is proved to
//! return exactly what it describes.

use crate::token::digit_val;
use crate::token::digit_value;
use crate::token::ident_char;
use crate::token::ident_start_char;
use crate::token::is_digit_char;
use crate::token::is_ident_char;
use crate::token::is_ident_start_char;
use crate::token::is_numeric_char;
use crate::token::is_whitespace_char;
use crate::token::keyword_token;
use crate::token::numeric_char;
use crate::token::spec_keyword;
use crate::token::whitespace_char;
use crate::token::FloatLiteral;
use crate::token::Token;
use crate::token::TokenV;
use vstd::prelude::*;

verus! {

/// The ways tokenizing can fail.
#[derive(Debug, PartialEq, Eq, Structural, Clone, Copy)]
pub enum TokenizeErrType {
    /// A character that can start no token; also reported, at the start of a
    /// numeric run, when a numeric literal's digits exceed the value range a
    /// token can carry.
    UnexpectedCharacter(char),
    /// A numeric run holding two or more dots.
    IllegalFloatLiteral,
    /// A string literal opened but never closed before end of input.
    UnterminatedStringLiteral,
}

/// A tokenizing failure: its kind and the character offset into the source
/// at which it was detected.
#[derive(Debug, PartialEq, Eq, Structural, Clone, Copy)]
pub struct TokenizeErr {
    pub err_type: TokenizeErrType,
    pub location: usize,
}

/// Length of the maximal run of characters satisfying `f` starting at `pos`.
pub open spec fn run_len(s: Seq<char>, pos: int, f: spec_fn(char) -> bool) -> nat
    decreases s.len() - pos when pos <= s.len()
{
    if pos < 0 || pos >= s.len() {
        0
    } else if f(s[pos]) {
        1 + run_len(s, pos + 1, f)
    } else {
        0
    }
}

/// The value of a digit string read in base ten.
pub open spec fn digits_value(ds: Seq<char>) -> nat
    decreases ds.len(),
{
    if ds.len() == 0 {
        0
    } else {
        digits_value(ds.drop_last()) * 10 + digit_val(ds.last())
    }
}

/// How many dots a numeric run holds.
pub open spec fn num_dots(s: Seq<char>) -> nat
    decreases s.len(),
{
    if s.len() == 0 {
        0
    } else {
        num_dots(s.drop_last()) + if s.last() == '.' {
            1nat
        } else {
            0nat
        }
    }
}

/// The index of the first dot of a run (the run's length if it has none).
pub open spec fn dot_index(s: Seq<char>) -> nat
    decreases s.len(),
{
    if s.len() == 0 {
        0
    } else if s[0] == '.' {
        0
    } else {
        1 + dot_index(s.subrange(1, s.len() as int))
    }
}

/// Scans the numeric run starting at `pos` (a digit or a dot): no dot gives
/// an integer, exactly one dot a float, two or more an illegal float; a lone
/// dot is the period token.  A run whose digits exceed what a token can
/// carry is reported at the run's start.
pub open spec fn spec_scan_number(s: Seq<char>, pos: int) -> Result<(TokenV, int), TokenizeErr>
    recommends
        0 <= pos < s.len(),
        is_numeric_char(s[pos]),
{
    let n = run_len(s, pos, |ch: char| is_numeric_char(ch)) as int;
    let run = s.subrange(pos, pos + n);
    let dots = num_dots(run);
    if dots == 0 {
        if digits_value(run) <= u64::MAX {
            Ok((TokenV::Integer(digits_value(run)), pos + n))
        } else {
            Err(TokenizeErr {
                err_type: TokenizeErrType::UnexpectedCharacter(s[pos]),
                location: pos as usize,
            })
        }
    } else if dots >= 2 {
        Err(TokenizeErr { err_type: TokenizeErrType::IllegalFloatLiteral, location: pos as usize })
    } else if n == 1 {
        Ok((TokenV::Period, pos + 1))
    } else {
        let di = dot_index(run) as int;
        let ip = run.subrange(0, di);
        let fp = run.subrange(di + 1, n);
        if digits_value(ip) <= u64::MAX && digits_value(fp) <= u64::MAX && fp.len() <= u64::MAX {
            Ok(
                (
                    TokenV::Float {
                        int_part: digits_value(ip),
                        frac_part: digits_value(fp),
                        frac_len: fp.len(),
                    },
                    pos + n,
                ),
            )
        } else {
            Err(TokenizeErr {
                err_type: TokenizeErrType::UnexpectedCharacter(s[pos]),
                location: pos as usize,
            })
        }
    }
}

/// The punctuation and operator table: single-character tokens.
pub open spec fn spec_punct(c: char) -> Option<TokenV> {
    if c == ':' {
        Some(TokenV::Colon)
    } else if c == ';' {
        Some(TokenV::SemiColon)
    } else if c == ',' {
        Some(TokenV::Comma)
    } else if c == '(' {
        Some(TokenV::BrancketStart)
    } else if c == ')' {
        Some(TokenV::BrancketEnd)
    } else if c == '{' {
        Some(TokenV::CurlyBracketStart)
    } else if c == '}' {
        Some(TokenV::CurlyBracketEnd)
    } else if c == '[' {
        Some(TokenV::SquareBracketStart)
    } else if c == ']' {
        Some(TokenV::SquareBracketEnd)
    } else if c == '=' {
        Some(TokenV::EqualOpe)
    } else if c == '+' {
        Some(TokenV::PlusOpe)
    } else if c == '-' {
        Some(TokenV::MinusOpe)
    } else if c == '*' {
        Some(TokenV::MulOpe)
    } else if c == '/' {
        Some(TokenV::DivOpe)
    } else if c == '<' {
        Some(TokenV::GreaterOpe)
    } else if c == '>' {
        Some(TokenV::LesserOpe)
    } else {
        None
    }
}

/// Scans exactly one token at `pos`, which must not be whitespace, and
/// returns it with the position just past it, or the failure.  Priority:
/// identifier run (classified against the keyword table only as a whole),
/// numeric run, string literal, punctuation.
pub open spec fn spec_scan(s: Seq<char>, pos: int) -> Result<(TokenV, int), TokenizeErr>
    recommends
        0 <= pos < s.len(),
        !is_whitespace_char(s[pos]),
{
    let c = s[pos];
    if is_ident_start_char(c) {
        let n = run_len(s, pos, |ch: char| is_ident_char(ch)) as int;
        let lex = s.subrange(pos, pos + n);
        match spec_keyword(lex) {
            Some(t) => Ok((t, pos + n)),
            None => Ok((TokenV::Identifier(lex), pos + n)),
        }
    } else if is_numeric_char(c) {
        spec_scan_number(s, pos)
    } else if c == '"' {
        let n = run_len(s, pos + 1, |ch: char| ch != '"') as int;
        if pos + 1 + n >= s.len() {
            Err(TokenizeErr {
                err_type: TokenizeErrType::UnterminatedStringLiteral,
                location: pos as usize,
            })
        } else {
            Ok((TokenV::StringLiteral(s.subrange(pos + 1, pos + 1 + n)), pos + n + 2))
        }
    } else {
        match spec_punct(c) {
            Some(t) => Ok((t, pos + 1)),
            None => Err(TokenizeErr {
                err_type: TokenizeErrType::UnexpectedCharacter(c),
                location: pos as usize,
            }),
        }
    }
}

/// The tokens of `s` from position `pos` on: whitespace is skipped, tokens
/// are scanned one after the other, and exactly one `EndOfInput` closes the
/// sequence; the first failure is returned instead.
pub open spec fn spec_tokenize_from(s: Seq<char>, pos: int) -> Result<Seq<TokenV>, TokenizeErr>
    decreases s.len() - pos when 0 <= pos <= s.len() via spec_tokenize_from_decreases
{
    if pos >= s.len() {
        Ok(seq![TokenV::EndOfInput])
    } else if is_whitespace_char(s[pos]) {
        spec_tokenize_from(s, pos + 1)
    } else {
        match spec_scan(s, pos) {
            Ok((t, next)) => match spec_tokenize_from(s, next) {
                Ok(rest) => Ok(seq![t] + rest),
                Err(e) => Err(e),
            },
            Err(e) => Err(e),
        }
    }
}

#[via_fn]
proof fn spec_tokenize_from_decreases(s: Seq<char>, pos: int) {
    if 0 <= pos < s.len() && !is_whitespace_char(s[pos]) {
        lemma_spec_scan_bounds(s, pos);
    }
}

/// The complete tokenization of a source text.
pub open spec fn spec_tokenize(s: Seq<char>) -> Result<Seq<TokenV>, TokenizeErr> {
    spec_tokenize_from(s, 0)
}

/// A maximal run never reaches past the end of the sequence.
pub proof fn lemma_run_len_le(s: Seq<char>, pos: int, f: spec_fn(char) -> bool)
    requires
        0 <= pos <= s.len(),
    ensures
        pos + run_len(s, pos, f) <= s.len(),
    decreases s.len() - pos,
{
    if pos < s.len() && f(s[pos]) {
        lemma_run_len_le(s, pos + 1, f);
    }
}

/// Characterization of a maximal run: its chars satisfy `f` and the char
/// just past it, if any, does not.
pub proof fn lemma_run_len_exact(s: Seq<char>, pos: int, end: int, f: spec_fn(char) -> bool)
    requires
        0 <= pos <= end <= s.len(),
        forall|j: int| pos <= j < end ==> f(s[j]),
        end == s.len() || !f(s[end]),
    ensures
        run_len(s, pos, f) == end - pos,
    decreases end - pos,
{
    if pos < end {
        lemma_run_len_exact(s, pos + 1, end, f);
    }
}

/// A scanned token always stands strictly inside the input: scanning
/// advances, and never past the end.
pub proof fn lemma_spec_scan_bounds(s: Seq<char>, pos: int)
    requires
        0 <= pos < s.len(),
    ensures
        match spec_scan(s, pos) {
            Ok((t, next)) => pos < next <= s.len(),
            Err(e) => true,
        },
{
    let c = s[pos];
    if is_ident_start_char(c) {
        let f = |ch: char| is_ident_char(ch);
        lemma_run_len_le(s, pos, f);
        assert(run_len(s, pos, f) >= 1);
    } else if is_numeric_char(c) {
        let f = |ch: char| is_numeric_char(ch);
        lemma_run_len_le(s, pos, f);
        assert(run_len(s, pos, f) >= 1);
    } else if c == '"' {
        lemma_run_len_le(s, pos + 1, |ch: char| ch != '"');
    }
}

/// Every digit-valued prefix is bounded by the value of the whole run.
pub proof fn lemma_digits_value_prefix_le(ds: Seq<char>, k: int)
    requires
        0 <= k <= ds.len(),
    ensures
        digits_value(ds.subrange(0, k)) <= digits_value(ds),
    decreases ds.len() - k,
{
    if k == ds.len() {
        assert(ds.subrange(0, k) =~= ds);
    } else {
        assert(ds.subrange(0, k + 1).drop_last() =~= ds.subrange(0, k));
        assert(ds.subrange(0, k + 1).last() == ds[k]);
        lemma_digits_value_prefix_le(ds, k + 1);
    }
}

/// The tokenizer.  `new` binds the source text; `tokenize` consumes the
/// tokenizer and scans the whole text.  The cursor is a character offset.
#[derive(Debug)]
pub struct Tokenizer {
    pub source_str: String,
    pub now_index: usize,
}

impl Tokenizer {
    /// Binds a source text, with the cursor at its start.
    pub fn new(source_str: &str) -> (t: Self)
        ensures
            t.source_str@ == source_str@,
            t.now_index == 0,
    {
        Tokenizer { source_str: source_str.to_owned(), now_index: 0 }
    }

    /// Scans the whole source into its token sequence, exactly as
    /// [`spec_tokenize`] describes: on success the tokens (one `EndOfInput`,
    /// last), otherwise the first failure with its offset.
    pub fn tokenize(self) -> (r: Result<Vec<Token>, TokenizeErr>)
        requires
            self.now_index == 0,
        ensures
            match (r, spec_tokenize(self.source_str@)) {
                (Ok(v), Ok(ts)) => v.deep_view() == ts,
                (Err(e), Err(es)) => e == es,
                _ => false,
            },
    {
        let s = self.source_str.as_str();
        let n = s.unicode_len();
        let ghost sv = s@;
        let mut out: Vec<Token> = Vec::new();
        let mut pos: usize = 0;
        loop
            invariant
                pos <= n,
                n as nat == sv.len(),
                s@ == sv,
                sv == self.source_str@,
                spec_tokenize_from(sv, 0) == match spec_tokenize_from(sv, pos as int) {
                    Ok(rest) => Ok::<Seq<TokenV>, TokenizeErr>(out.deep_view() + rest),
                    Err(e) => Err::<Seq<TokenV>, TokenizeErr>(e),
                },
            decreases n - pos,
        {
            if pos == n {
                let ghost pre = out.deep_view();
                out.push(Token::EndOfInput);
                proof {
                    assert(spec_tokenize_from(sv, pos as int) == Ok::<Seq<TokenV>, TokenizeErr>(
                        seq![TokenV::EndOfInput],
                    ));
                    assert(out.deep_view() =~= pre + seq![TokenV::EndOfInput]);
                }
                return Ok(out);
            }
            let c = s.get_char(pos);
            if whitespace_char(c) {
                proof {
                    assert(spec_tokenize_from(sv, pos as int) == spec_tokenize_from(
                        sv,
                        pos + 1 as int,
                    ));
                }
                pos = pos + 1;
            } else {
                match scan_token(s, pos) {
                    Ok((t, next)) => {
                        let ghost pre = out.deep_view();
                        let ghost tv = t@;
                        out.push(t);
                        proof {
                            assert(out.deep_view() =~= pre + seq![tv]);
                            assert(spec_tokenize_from(sv, pos as int) == match spec_tokenize_from(
                                sv,
                                next as int,
                            ) {
                                Ok(rest) => Ok::<Seq<TokenV>, TokenizeErr>(seq![tv] + rest),
                                Err(e) => Err::<Seq<TokenV>, TokenizeErr>(e),
                            });
                            if spec_tokenize_from(sv, next as int) is Ok {
                                let rest = spec_tokenize_from(sv, next as int)->Ok_0;
                                assert((pre + seq![tv]) + rest =~= pre + (seq![tv] + rest));
                            }
                        }
                        pos = next;
                    },
                    Err(e) => {
                        proof {
                            assert(spec_tokenize_from(sv, pos as int) == Err::<
                                Seq<TokenV>,
                                TokenizeErr,
                            >(e));
                        }
                        return Err(e);
                    },
                }
            }
        }
    }
}

/// Scans the maximal identifier run starting at `pos`.
fn ident_run_end(s: &str, pos: usize) -> (end: usize)
    requires
        pos <= s@.len() <= usize::MAX,
    ensures
        pos <= end <= s@.len(),
        end - pos == run_len(s@, pos as int, |ch: char| is_ident_char(ch)),
        forall|j: int| pos <= j < end ==> is_ident_char(s@[j]),
{
    let n = s.unicode_len();
    let mut i: usize = pos;
    while i < n && ident_char(s.get_char(i))
        invariant
            pos <= i <= n,
            n as nat == s@.len(),
            forall|j: int| pos <= j < i ==> is_ident_char(s@[j]),
        decreases n - i,
    {
        i = i + 1;
    }
    proof {
        lemma_run_len_exact(s@, pos as int, i as int, |ch: char| is_ident_char(ch));
    }
    i
}

/// Scans the maximal numeric (digit-or-dot) run starting at `pos`.
fn numeric_run_end(s: &str, pos: usize) -> (end: usize)
    requires
        pos <= s@.len() <= usize::MAX,
    ensures
        pos <= end <= s@.len(),
        end - pos == run_len(s@, pos as int, |ch: char| is_numeric_char(ch)),
        forall|j: int| pos <= j < end ==> is_numeric_char(s@[j]),
        end == s@.len() || !is_numeric_char(s@[end as int]),
{
    let n = s.unicode_len();
    let mut i: usize = pos;
    while i < n && numeric_char(s.get_char(i))
        invariant
            pos <= i <= n,
            n as nat == s@.len(),
            forall|j: int| pos <= j < i ==> is_numeric_char(s@[j]),
        decreases n - i,
    {
        i = i + 1;
    }
    proof {
        lemma_run_len_exact(s@, pos as int, i as int, |ch: char| is_numeric_char(ch));
    }
    i
}

/// Reads the digits `s[start..end]` in base ten, or reports that their value
/// does not fit the carrier.
fn digits_to_u64(s: &str, start: usize, end: usize) -> (r: Option<u64>)
    requires
        start <= end <= s@.len() <= usize::MAX,
        forall|j: int| start <= j < end ==> is_digit_char(s@[j]),
    ensures
        match r {
            Some(v) => v as nat == digits_value(s@.subrange(start as int, end as int)),
            None => digits_value(s@.subrange(start as int, end as int)) > u64::MAX,
        },
{
    let ghost run = s@.subrange(start as int, end as int);
    let mut v: u64 = 0;
    let mut i: usize = start;
    while i < end
        invariant
            start <= i <= end <= s@.len(),
            forall|j: int| start <= j < end ==> is_digit_char(s@[j]),
            v as nat == digits_value(s@.subrange(start as int, i as int)),
            run == s@.subrange(start as int, end as int),
        decreases end - i,
    {
        let c = s.get_char(i);
        let d = digit_value(c);
        let ghost pre = s@.subrange(start as int, i as int);
        let ghost cur = s@.subrange(start as int, i + 1 as int);
        proof {
            assert(cur.drop_last() =~= pre);
            assert(cur.last() == s@[i as int]);
        }
        let step = match v.checked_mul(10) {
            Some(m) => m.checked_add(d),
            None => None,
        };
        match step {
            Some(nv) => {
                v = nv;
            },
            None => {
                proof {
                    assert(digits_value(cur) > u64::MAX);
                    assert(run.subrange(0, (i + 1 - start) as int) =~= cur);
                    lemma_digits_value_prefix_le(run, (i + 1 - start) as int);
                }
                return None;
            },
        }
        i = i + 1;
    }
    proof {
        assert(s@.subrange(start as int, i as int) =~= run);
    }
    Some(v)
}

/// Scans the numeric run at `pos` into its token, following
/// [`spec_scan_number`].
fn scan_number(s: &str, pos: usize) -> (r: Result<(Token, usize), TokenizeErr>)
    requires
        pos < s@.len() <= usize::MAX,
        is_numeric_char(s@[pos as int]),
    ensures
        match r {
            Ok((t, next)) => spec_scan_number(s@, pos as int) == Ok::<(TokenV, int), TokenizeErr>(
                (t@, next as int),
            ) && pos < next <= s@.len(),
            Err(e) => spec_scan_number(s@, pos as int) == Err::<(TokenV, int), TokenizeErr>(e),
        },
{
    let end = numeric_run_end(s, pos);
    assert(end > pos);
    let ghost run = s@.subrange(pos as int, end as int);

    // Count the dots and remember the first.
    let mut dots: usize = 0;
    let mut first_dot: usize = end;
    let mut i: usize = pos;
    while i < end
        invariant
            pos <= i <= end <= s@.len(),
            run == s@.subrange(pos as int, end as int),
            dots <= i - pos,
            dots as nat == num_dots(run.subrange(0, i - pos)),
            first_dot == end || (pos <= first_dot < i && s@[first_dot as int] == '.'),
            dots == 0 <==> first_dot == end,
            forall|j: int| pos <= j < i && j < first_dot ==> s@[j] != '.',
        decreases end - i,
    {
        let ghost pre = run.subrange(0, i - pos);
        let ghost cur = run.subrange(0, i + 1 - pos);
        proof {
            assert(cur.drop_last() =~= pre);
            assert(cur.last() == run[i - pos]);
            assert(run[i - pos] == s@[i as int]);
        }
        let c = s.get_char(i);
        if c == '.' {
            dots = dots + 1;
            if first_dot == end {
                first_dot = i;
            }
        }
        i = i + 1;
    }
    proof {
        assert(run.subrange(0, end - pos) =~= run);
    }

    if dots == 0 {
        // with no dot, every char of the run is a digit
        assert forall|j: int| pos <= j < end implies is_digit_char(s@[j]) by {
            assert(is_numeric_char(s@[j]));
            assert(s@[j] != '.');
        }
        match digits_to_u64(s, pos, end) {
            Some(v) => Ok((Token::Integer(v), end)),
            None => Err(
                TokenizeErr {
                    err_type: TokenizeErrType::UnexpectedCharacter(s.get_char(pos)),
                    location: pos,
                },
            ),
        }
    } else if dots >= 2 {
        Err(TokenizeErr { err_type: TokenizeErrType::IllegalFloatLiteral, location: pos })
    } else if end - pos == 1 {
        assert(run.len() == 1);
        Ok((Token::Period, pos + 1))
    } else {
        // exactly one dot: split the run around it
        let di = first_dot;
        proof {
            assert(run[di - pos] == s@[di as int]);
            assert forall|j: int| 0 <= j < di - pos implies run[j] != '.' by {
                assert(run[j] == s@[j + pos]);
            }
            lemma_dot_index_at(run, di - pos);
            assert(run.subrange(0, di - pos) =~= s@.subrange(pos as int, di as int));
            assert(run.subrange(di - pos + 1, run.len() as int) =~= s@.subrange(
                di + 1 as int,
                end as int,
            ));
            lemma_single_dot_digits(run, di - pos);
        }
        assert forall|j: int| pos <= j < end && j != di implies is_digit_char(s@[j]) by {
            assert(run[j - pos] == s@[j]);
            assert(is_numeric_char(s@[j]));
        }
        let ip = match digits_to_u64(s, pos, di) {
            Some(v) => v,
            None => {
                return Err(
                    TokenizeErr {
                        err_type: TokenizeErrType::UnexpectedCharacter(s.get_char(pos)),
                        location: pos,
                    },
                );
            },
        };
        let fp = match digits_to_u64(s, di + 1, end) {
            Some(v) => v,
            None => {
                return Err(
                    TokenizeErr {
                        err_type: TokenizeErrType::UnexpectedCharacter(s.get_char(pos)),
                        location: pos,
                    },
                );
            },
        };
        let fl = (end - di - 1) as u64;
        Ok((Token::Float(FloatLiteral { int_part: ip, frac_part: fp, frac_len: fl }), end))
    }
}

/// The first dot of a run is where `dot_index` says.
pub proof fn lemma_dot_index_at(run: Seq<char>, k: int)
    requires
        0 <= k < run.len(),
        run[k] == '.',
        forall|j: int| 0 <= j < k ==> run[j] != '.',
    ensures
        dot_index(run) == k,
    decreases k,
{
    if k > 0 {
        let tail = run.subrange(1, run.len() as int);
        lemma_dot_index_at(tail, k - 1);
    }
}

/// In a run with exactly one dot, every other character that is numeric is a
/// digit.
pub proof fn lemma_single_dot_digits(run: Seq<char>, k: int)
    requires
        0 <= k < run.len(),
        run[k] == '.',
        num_dots(run) == 1,
    ensures
        forall|j: int| 0 <= j < run.len() && j != k ==> run[j] != '.',
{
    assert forall|j: int| 0 <= j < run.len() && j != k implies run[j] != '.' by {
        if run[j] == '.' {
            let a = if j < k {
                j
            } else {
                k
            };
            let b = if j < k {
                k
            } else {
                j
            };
            lemma_two_dots(run, a, b);
        }
    }
}

/// Two distinct dots force a dot count of at least two.
proof fn lemma_two_dots(run: Seq<char>, a: int, b: int)
    requires
        0 <= a < b < run.len(),
        run[a] == '.',
        run[b] == '.',
    ensures
        num_dots(run) >= 2,
{
    lemma_num_dots_prefix_le(run, b + 1);
    assert(run.subrange(0, b + 1).drop_last() =~= run.subrange(0, b));
    assert(run.subrange(0, b + 1).last() == run[b]);
    lemma_num_dots_prefix_le(run.subrange(0, b), a + 1);
    assert(run.subrange(0, b).subrange(0, a + 1) =~= run.subrange(0, a + 1));
    assert(run.subrange(0, a + 1).drop_last() =~= run.subrange(0, a));
    assert(run.subrange(0, a + 1).last() == run[a]);
}

/// Dot counts grow with the prefix.
proof fn lemma_num_dots_prefix_le(s: Seq<char>, k: int)
    requires
        0 <= k <= s.len(),
    ensures
        num_dots(s.subrange(0, k)) <= num_dots(s),
    decreases s.len() - k,
{
    if k == s.len() {
        assert(s.subrange(0, k) =~= s);
    } else {
        assert(s.subrange(0, k + 1).drop_last() =~= s.subrange(0, k));
        lemma_num_dots_prefix_le(s, k + 1);
    }
}

/// Scans one token at `pos` (not whitespace), following [`spec_scan`].
fn scan_token(s: &str, pos: usize) -> (r: Result<(Token, usize), TokenizeErr>)
    requires
        pos < s@.len() <= usize::MAX,
        !is_whitespace_char(s@[pos as int]),
    ensures
        match r {
            Ok((t, next)) => spec_scan(s@, pos as int) == Ok::<(TokenV, int), TokenizeErr>(
                (t@, next as int),
            ) && pos < next <= s@.len(),
            Err(e) => spec_scan(s@, pos as int) == Err::<(TokenV, int), TokenizeErr>(e),
        },
{
    let c = s.get_char(pos);
    if ident_start_char(c) {
        let end = ident_run_end(s, pos);
        assert(end > pos);
        let lex = s.substring_char(pos, end);
        assert(lex@ == s@.subrange(pos as int, end as int));
        match keyword_token(lex) {
            Some(t) => Ok((t, end)),
            None => Ok((Token::Identifier(lex.to_owned()), end)),
        }
    } else if numeric_char(c) {
        scan_number(s, pos)
    } else if c == '"' {
        let n = s.unicode_len();
        let mut i: usize = pos + 1;
        while i < n && s.get_char(i) != '"'
            invariant
                pos + 1 <= i <= n,
                n as nat == s@.len(),
                forall|j: int| pos + 1 <= j < i ==> s@[j] != '"',
            decreases n - i,
        {
            i = i + 1;
        }
        proof {
            lemma_run_len_exact(s@, pos + 1 as int, i as int, |ch: char| ch != '"');
        }
        if i == n {
            Err(TokenizeErr { err_type: TokenizeErrType::UnterminatedStringLiteral, location: pos })
        } else {
            let content = s.substring_char(pos + 1, i);
            assert(content@ == s@.subrange(pos + 1 as int, i as int));
            Ok((Token::StringLiteral(content.to_owned()), i + 1))
        }
    } else {
        let tok = if c == ':' {
            Some(Token::Colon)
        } else if c == ';' {
            Some(Token::SemiColon)
        } else if c == ',' {
            Some(Token::Comma)
        } else if c == '(' {
            Some(Token::BrancketStart)
        } else if c == ')' {
            Some(Token::BrancketEnd)
        } else if c == '{' {
            Some(Token::CurlyBracketStart)
        } else if c == '}' {
            Some(Token::CurlyBracketEnd)
        } else if c == '[' {
            Some(Token::SquareBracketStart)
        } else if c == ']' {
            Some(Token::SquareBracketEnd)
        } else if c == '=' {
            Some(Token::EqualOpe)
        } else if c == '+' {
            Some(Token::PlusOpe)
        } else if c == '-' {
            Some(Token::MinusOpe)
        } else if c == '*' {
            Some(Token::MulOpe)
        } else if c == '/' {
            Some(Token::DivOpe)
        } else if c == '<' {
            Some(Token::GreaterOpe)
        } else if c == '>' {
            Some(Token::LesserOpe)
        } else {
            None
        };
        match tok {
            Some(t) => Ok((t, pos + 1)),
            None => Err(TokenizeErr {
                err_type: TokenizeErrType::UnexpectedCharacter(c),
                location: pos,
            }),
        }
    }
}

} // verus!
