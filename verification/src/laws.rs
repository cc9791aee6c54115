//! Laws of the tokenizer, stated over [`spec_tokenize`] and proved once and
//! for all: the sentinel invariant, the keyword-boundary guarantee of
//! maximal munch, the numeric-literal rules, and insensitivity to
//! whitespace inserted at a token boundary.

use crate::token::is_ident_char;
use crate::token::is_ident_start_char;
use crate::token::is_numeric_char;
use crate::token::is_whitespace_char;
use crate::token::spec_keyword;
use crate::token::TokenV;
use crate::tokenize::digits_value;
use crate::tokenize::dot_index;
use crate::tokenize::lemma_run_len_exact;
use crate::tokenize::lemma_spec_scan_bounds;
use crate::tokenize::num_dots;
use crate::tokenize::run_len;
use crate::tokenize::spec_scan;
use crate::tokenize::spec_tokenize;
use crate::tokenize::spec_tokenize_from;
use crate::tokenize::TokenizeErr;
use crate::tokenize::TokenizeErrType;
use vstd::prelude::*;

verus! {

broadcast use vstd::seq::group_seq_axioms;

/// A scanned token is never the sentinel: `EndOfInput` is appended by the
/// tokenizer alone.
proof fn lemma_scan_not_sentinel(s: Seq<char>, pos: int)
    requires
        0 <= pos < s.len(),
    ensures
        match spec_scan(s, pos) {
            Ok((t, n)) => t != TokenV::EndOfInput,
            Err(_) => true,
        },
{
}

/// The sentinel invariant: a successful tokenization holds exactly one
/// `EndOfInput`, always last, even for empty input.
pub proof fn lemma_tokenize_sentinel(s: Seq<char>, ts: Seq<TokenV>)
    requires
        spec_tokenize(s) == Ok::<Seq<TokenV>, TokenizeErr>(ts),
    ensures
        ts.len() >= 1,
        ts.last() == TokenV::EndOfInput,
        forall|i: int| 0 <= i < ts.len() - 1 ==> ts[i] != TokenV::EndOfInput,
{
    lemma_tokenize_from_sentinel(s, 0, ts);
}

proof fn lemma_tokenize_from_sentinel(s: Seq<char>, pos: int, ts: Seq<TokenV>)
    requires
        0 <= pos <= s.len(),
        spec_tokenize_from(s, pos) == Ok::<Seq<TokenV>, TokenizeErr>(ts),
    ensures
        ts.len() >= 1,
        ts.last() == TokenV::EndOfInput,
        forall|i: int| 0 <= i < ts.len() - 1 ==> ts[i] != TokenV::EndOfInput,
    decreases s.len() - pos,
{
    if pos >= s.len() {
    } else if is_whitespace_char(s[pos]) {
        lemma_tokenize_from_sentinel(s, pos + 1, ts);
    } else {
        match spec_scan(s, pos) {
            Ok((t, next)) => {
                lemma_spec_scan_bounds(s, pos);
                lemma_scan_not_sentinel(s, pos);
                match spec_tokenize_from(s, next) {
                    Ok(rest) => {
                        lemma_tokenize_from_sentinel(s, next, rest);
                        assert(ts == seq![t] + rest);
                        assert(ts.last() == rest.last());
                    },
                    Err(_) => {},
                }
            },
            Err(_) => {},
        }
    }
}

/// Keyword boundary, the maximal-munch guarantee: a whole-input identifier
/// run that is not itself a keyword is one `Identifier` token, never a
/// keyword plus a remainder — in particular an identifier that merely has a
/// keyword as a strict prefix, such as `"infinity"` against `in`.
pub proof fn lemma_keyword_boundary(s: Seq<char>)
    requires
        s.len() >= 1,
        is_ident_start_char(s[0]),
        forall|i: int| 0 <= i < s.len() ==> is_ident_char(s[i]),
        spec_keyword(s) is None,
    ensures
        spec_tokenize(s) == Ok::<Seq<TokenV>, TokenizeErr>(
            seq![TokenV::Identifier(s), TokenV::EndOfInput],
        ),
{
    let f = |ch: char| is_ident_char(ch);
    lemma_run_len_exact(s, 0, s.len() as int, f);
    assert(s.subrange(0, s.len() as int) =~= s);
    assert(!is_whitespace_char(s[0]));
    assert(spec_scan(s, 0) == Ok::<(TokenV, int), TokenizeErr>(
        (TokenV::Identifier(s), s.len() as int),
    ));
    assert(spec_tokenize_from(s, s.len() as int) == Ok::<Seq<TokenV>, TokenizeErr>(
        seq![TokenV::EndOfInput],
    ));
    assert(seq![TokenV::Identifier(s)] + seq![TokenV::EndOfInput] =~= seq![
        TokenV::Identifier(s),
        TokenV::EndOfInput,
    ]);
}

/// Canonical keyword lexemes: a whole-input identifier run that the keyword
/// table classifies is exactly that keyword token — with
/// [`lemma_keyword_boundary`], every identifier-class lexeme tokenizes to
/// its own single token.
pub proof fn lemma_keyword_lexeme(s: Seq<char>, t: TokenV)
    requires
        s.len() >= 1,
        is_ident_start_char(s[0]),
        forall|i: int| 0 <= i < s.len() ==> is_ident_char(s[i]),
        spec_keyword(s) == Some(t),
    ensures
        spec_tokenize(s) == Ok::<Seq<TokenV>, TokenizeErr>(seq![t, TokenV::EndOfInput]),
{
    let f = |ch: char| is_ident_char(ch);
    lemma_run_len_exact(s, 0, s.len() as int, f);
    assert(s.subrange(0, s.len() as int) =~= s);
    assert(!is_whitespace_char(s[0]));
    assert(spec_scan(s, 0) == Ok::<(TokenV, int), TokenizeErr>((t, s.len() as int)));
    assert(spec_tokenize_from(s, s.len() as int) == Ok::<Seq<TokenV>, TokenizeErr>(
        seq![TokenV::EndOfInput],
    ));
    assert(seq![t] + seq![TokenV::EndOfInput] =~= seq![t, TokenV::EndOfInput]);
}

/// Canonical punctuation lexemes: a source of exactly one character from the
/// punctuation table is exactly that token.
pub proof fn lemma_punctuation_lexeme(c: char, t: TokenV)
    requires
        crate::tokenize::spec_punct(c) == Some(t),
    ensures
        spec_tokenize(seq![c]) == Ok::<Seq<TokenV>, TokenizeErr>(seq![t, TokenV::EndOfInput]),
{
    let s = seq![c];
    assert(!is_whitespace_char(c));
    assert(!is_ident_start_char(c));
    assert(!is_numeric_char(c) || c == '.');
    if c == '.' {
        let f = |ch: char| is_numeric_char(ch);
        lemma_run_len_exact(s, 0, 1, f);
        assert(s.subrange(0, 1) =~= s);
        assert(spec_scan(s, 0) == Ok::<(TokenV, int), TokenizeErr>((TokenV::Period, 1)));
    } else {
        assert(spec_scan(s, 0) == Ok::<(TokenV, int), TokenizeErr>((t, 1)));
    }
    assert(spec_tokenize_from(s, 1) == Ok::<Seq<TokenV>, TokenizeErr>(seq![TokenV::EndOfInput]));
    assert(seq![t] + seq![TokenV::EndOfInput] =~= seq![t, TokenV::EndOfInput]);
}

/// A whole-input run of digits with no dot is one `Integer` token carrying
/// the digits' base-ten value, whenever that value fits the carrier.
pub proof fn lemma_integer_literal(s: Seq<char>)
    requires
        s.len() >= 1,
        forall|i: int| 0 <= i < s.len() ==> crate::token::is_digit_char(s[i]),
        digits_value(s) <= u64::MAX,
    ensures
        spec_tokenize(s) == Ok::<Seq<TokenV>, TokenizeErr>(
            seq![TokenV::Integer(digits_value(s)), TokenV::EndOfInput],
        ),
{
    let f = |ch: char| is_numeric_char(ch);
    assert forall|i: int| 0 <= i < s.len() implies f(s[i]) by {
        assert(crate::token::is_digit_char(s[i]));
    }
    lemma_run_len_exact(s, 0, s.len() as int, f);
    assert(s.subrange(0, s.len() as int) =~= s);
    lemma_no_dots(s);
    assert(!is_whitespace_char(s[0]) && !is_ident_start_char(s[0]));
    assert(spec_scan(s, 0) == Ok::<(TokenV, int), TokenizeErr>(
        (TokenV::Integer(digits_value(s)), s.len() as int),
    ));
    assert(spec_tokenize_from(s, s.len() as int) == Ok::<Seq<TokenV>, TokenizeErr>(
        seq![TokenV::EndOfInput],
    ));
    assert(seq![TokenV::Integer(digits_value(s))] + seq![TokenV::EndOfInput] =~= seq![
        TokenV::Integer(digits_value(s)),
        TokenV::EndOfInput,
    ]);
}

proof fn lemma_no_dots(s: Seq<char>)
    requires
        forall|i: int| 0 <= i < s.len() ==> s[i] != '.',
    ensures
        num_dots(s) == 0,
    decreases s.len(),
{
    if s.len() > 0 {
        lemma_no_dots(s.drop_last());
    }
}

/// Numeric-literal rule, the float half: a whole-input run of digits with
/// exactly one dot (at `k`) is one `Float` token carrying the digits on
/// either side of the dot, whenever those fit the carrier.
pub proof fn lemma_float_literal(s: Seq<char>, k: int)
    requires
        s.len() >= 2,
        s.len() <= u64::MAX,
        0 <= k < s.len(),
        s[k] == '.',
        forall|i: int| 0 <= i < s.len() ==> is_numeric_char(s[i]),
        num_dots(s) == 1,
        digits_value(s.subrange(0, k)) <= u64::MAX,
        digits_value(s.subrange(k + 1, s.len() as int)) <= u64::MAX,
    ensures
        spec_tokenize(s) == Ok::<Seq<TokenV>, TokenizeErr>(
            seq![
                TokenV::Float {
                    int_part: digits_value(s.subrange(0, k)),
                    frac_part: digits_value(s.subrange(k + 1, s.len() as int)),
                    frac_len: (s.len() - k - 1) as nat,
                },
                TokenV::EndOfInput,
            ],
        ),
{
    let f = |ch: char| is_numeric_char(ch);
    lemma_run_len_exact(s, 0, s.len() as int, f);
    assert(s.subrange(0, s.len() as int) =~= s);
    crate::tokenize::lemma_single_dot_digits(s, k);
    assert forall|j: int| 0 <= j < k implies s[j] != '.' by {}
    crate::tokenize::lemma_dot_index_at(s, k);
    assert(dot_index(s) == k);
    assert(!is_whitespace_char(s[0]) && !is_ident_start_char(s[0]));
    let tok = TokenV::Float {
        int_part: digits_value(s.subrange(0, k)),
        frac_part: digits_value(s.subrange(k + 1, s.len() as int)),
        frac_len: (s.len() - k - 1) as nat,
    };
    assert(spec_scan(s, 0) == Ok::<(TokenV, int), TokenizeErr>((tok, s.len() as int)));
    assert(spec_tokenize_from(s, s.len() as int) == Ok::<Seq<TokenV>, TokenizeErr>(
        seq![TokenV::EndOfInput],
    ));
    assert(seq![tok] + seq![TokenV::EndOfInput] =~= seq![tok, TokenV::EndOfInput]);
}

/// Numeric-literal rule, the failure half: a whole-input numeric run with
/// two or more dots fails with `IllegalFloatLiteral` at the run's start.
pub proof fn lemma_illegal_float_literal(s: Seq<char>)
    requires
        s.len() >= 1,
        forall|i: int| 0 <= i < s.len() ==> is_numeric_char(s[i]),
        num_dots(s) >= 2,
    ensures
        spec_tokenize(s) == Err::<Seq<TokenV>, TokenizeErr>(
            TokenizeErr { err_type: TokenizeErrType::IllegalFloatLiteral, location: 0 },
        ),
{
    let f = |ch: char| is_numeric_char(ch);
    lemma_run_len_exact(s, 0, s.len() as int, f);
    assert(s.subrange(0, s.len() as int) =~= s);
    assert(!is_whitespace_char(s[0]) && !is_ident_start_char(s[0]));
    assert(spec_scan(s, 0) == Err::<(TokenV, int), TokenizeErr>(
        TokenizeErr { err_type: TokenizeErrType::IllegalFloatLiteral, location: 0 },
    ));
}

/// The positions that scanning visits: `lex_reaches(s, pos, b)` holds when
/// the tokenizer, started at `pos`, arrives at `b` after some number of
/// whitespace skips and whole tokens — that is, `b` is a token boundary.
pub open spec fn lex_reaches(s: Seq<char>, pos: int, b: int) -> bool
    decreases s.len() - pos when 0 <= pos <= s.len() via lex_reaches_decreases
{
    pos == b || (pos < s.len() && pos < b && (if is_whitespace_char(s[pos]) {
        lex_reaches(s, pos + 1, b)
    } else {
        match spec_scan(s, pos) {
            Ok((t, next)) => next <= b && lex_reaches(s, next, b),
            Err(_) => false,
        }
    }))
}

#[via_fn]
proof fn lex_reaches_decreases(s: Seq<char>, pos: int, b: int) {
    if 0 <= pos < s.len() && !is_whitespace_char(s[pos]) {
        lemma_spec_scan_bounds(s, pos);
    }
}

/// The characters of a maximal run satisfy its class, and the character
/// just past it, if any, does not.
proof fn lemma_run_len_chars_stop(s: Seq<char>, pos: int, f: spec_fn(char) -> bool)
    requires
        0 <= pos <= s.len(),
    ensures
        pos + run_len(s, pos, f) <= s.len(),
        forall|j: int| pos <= j < pos + run_len(s, pos, f) ==> f(s[j]),
        pos + run_len(s, pos, f) == s.len() || !f(s[pos + run_len(s, pos, f)]),
    decreases s.len() - pos,
{
    if pos < s.len() && f(s[pos]) {
        lemma_run_len_chars_stop(s, pos + 1, f);
    }
}

/// Scanning looks only at the token's own characters and, for the two
/// run-based classes, one character past them; so two texts that agree up
/// to `bound` give the same token whenever the scan ends by `bound` and the
/// second text continues, if at all, with whitespace there.
proof fn lemma_scan_prefix_ws(s1: Seq<char>, s2: Seq<char>, pos: int, bound: int, t: TokenV, n: int)
    requires
        0 <= pos < bound,
        bound <= s1.len(),
        bound <= s2.len(),
        s1.subrange(0, bound) == s2.subrange(0, bound),
        !is_whitespace_char(s1[pos]),
        spec_scan(s1, pos) == Ok::<(TokenV, int), TokenizeErr>((t, n)),
        n <= bound,
        bound == s2.len() || is_whitespace_char(s2[bound]),
    ensures
        spec_scan(s2, pos) == Ok::<(TokenV, int), TokenizeErr>((t, n)),
{
    assert forall|j: int| 0 <= j < bound implies s1[j] == s2[j] by {
        assert(s1.subrange(0, bound)[j] == s1[j]);
        assert(s2.subrange(0, bound)[j] == s2[j]);
    }
    let c = s1[pos];
    if is_ident_start_char(c) {
        let f = |ch: char| is_ident_char(ch);
        let m = run_len(s1, pos, f) as int;
        lemma_run_len_chars_stop(s1, pos, f);
        assert(n == pos + m);
        if pos + m < s2.len() {
            if pos + m < bound {
                assert(!f(s2[pos + m]));
            } else {
                assert(is_whitespace_char(s2[pos + m]));
                assert(!f(s2[pos + m]));
            }
        }
        lemma_run_len_exact(s2, pos, pos + m, f);
        assert(s1.subrange(pos, pos + m) =~= s2.subrange(pos, pos + m));
    } else if is_numeric_char(c) {
        let f = |ch: char| is_numeric_char(ch);
        let m = run_len(s1, pos, f) as int;
        lemma_run_len_chars_stop(s1, pos, f);
        if pos + m < s2.len() {
            if pos + m < bound {
                assert(!f(s2[pos + m]));
            } else {
                assert(is_whitespace_char(s2[pos + m]));
                assert(!f(s2[pos + m]));
            }
        }
        lemma_run_len_exact(s2, pos, pos + m, f);
        assert(s1.subrange(pos, pos + m) =~= s2.subrange(pos, pos + m));
    } else if c == '"' {
        let f = |ch: char| ch != '"';
        let m = run_len(s1, pos + 1, f) as int;
        lemma_run_len_chars_stop(s1, pos + 1, f);
        // the scan succeeded, so the closing quote stands at pos + 1 + m,
        // strictly inside the common prefix
        assert(pos + 1 + m < s1.len());
        assert(n == pos + m + 2);
        assert(s1[pos + 1 + m] == '"');
        assert(pos + 1 + m < bound);
        assert(s2[pos + 1 + m] == '"');
        lemma_run_len_exact(s2, pos + 1, pos + 1 + m, f);
        assert(pos + 1 + m < s2.len());
        assert(s1.subrange(pos + 1, pos + 1 + m) =~= s2.subrange(pos + 1, pos + 1 + m));
    } else {
    }
}

/// Skipping a stretch of whitespace does not change what is tokenized.
proof fn lemma_lex_ws_skip(s: Seq<char>, p: int, q: int)
    requires
        0 <= p <= q <= s.len(),
        forall|j: int| p <= j < q ==> is_whitespace_char(s[j]),
    ensures
        spec_tokenize_from(s, p) == spec_tokenize_from(s, q),
    decreases q - p,
{
    if p < q {
        lemma_lex_ws_skip(s, p + 1, q);
    }
}

/// Pointwise reading of equal suffixes: the character at `j` of the first
/// text is the character at the corresponding position of the second.
proof fn lemma_suffix_pointwise(s1: Seq<char>, p1: int, s2: Seq<char>, p2: int, j: int)
    requires
        0 <= p1 <= s1.len(),
        0 <= p2 <= s2.len(),
        s1.subrange(p1, s1.len() as int) == s2.subrange(p2, s2.len() as int),
        p1 <= j < s1.len(),
    ensures
        s2.len() - p2 == s1.len() - p1,
        s2[p2 + (j - p1)] == s1[j],
{
    let a = s1.subrange(p1, s1.len() as int);
    let b = s2.subrange(p2, s2.len() as int);
    assert(a == b);
    assert(a.len() == s1.len() - p1);
    assert(b.len() == s2.len() - p2);
    assert(a[j - p1] == s1[j]);
    assert(b[j - p1] == s2[p2 + (j - p1)]);
}

/// Two texts with the same suffix tokenize that suffix alike: if the first
/// succeeds from its position, the second returns the very same tokens.
proof fn lemma_lex_suffix(s1: Seq<char>, p1: int, s2: Seq<char>, p2: int)
    requires
        0 <= p1 <= s1.len(),
        0 <= p2 <= s2.len(),
        s1.subrange(p1, s1.len() as int) == s2.subrange(p2, s2.len() as int),
    ensures
        match spec_tokenize_from(s1, p1) {
            Ok(ts) => spec_tokenize_from(s2, p2) == Ok::<Seq<TokenV>, TokenizeErr>(ts),
            Err(_) => true,
        },
    decreases s1.len() - p1,
{
    let a = s1.subrange(p1, s1.len() as int);
    let b = s2.subrange(p2, s2.len() as int);
    assert(a == b);
    assert(a.len() == s1.len() - p1);
    assert(b.len() == s2.len() - p2);
    assert(s1.len() - p1 == s2.len() - p2);
    if p1 == s1.len() {
    } else {
        lemma_suffix_pointwise(s1, p1, s2, p2, p1);
        assert(s1[p1] == s2[p2]);
        if is_whitespace_char(s1[p1]) {
            assert(s1.subrange(p1 + 1, s1.len() as int) =~= s2.subrange(p2 + 1, s2.len() as int))
                by {
                assert forall|i: int|
                    #![trigger s1.subrange(p1 + 1, s1.len() as int)[i]]
                    0 <= i < s1.len() - p1 - 1 implies s1.subrange(p1 + 1, s1.len() as int)[i]
                    == s2.subrange(p2 + 1, s2.len() as int)[i] by {
                    lemma_suffix_pointwise(s1, p1, s2, p2, p1 + 1 + i);
                }
            }
            lemma_lex_suffix(s1, p1 + 1, s2, p2 + 1);
        } else {
            match spec_scan(s1, p1) {
                Ok((t, n1)) => {
                    lemma_spec_scan_bounds(s1, p1);
                    let d = n1 - p1;
                    lemma_scan_suffix(s1, p1, s2, p2, t, n1);
                    assert(s1.subrange(p1 + d, s1.len() as int) =~= s2.subrange(
                        p2 + d,
                        s2.len() as int,
                    )) by {
                        assert forall|i: int|
                            #![trigger s1.subrange(p1 + d, s1.len() as int)[i]]
                            0 <= i < s1.len() - p1 - d implies s1.subrange(
                            p1 + d,
                            s1.len() as int,
                        )[i] == s2.subrange(p2 + d, s2.len() as int)[i] by {
                            lemma_suffix_pointwise(s1, p1, s2, p2, p1 + d + i);
                        }
                    }
                    lemma_lex_suffix(s1, p1 + d, s2, p2 + d);
                },
                Err(_) => {},
            }
        }
    }
}

/// Two texts with the same suffix scan the same token at corresponding
/// positions.
proof fn lemma_scan_suffix(s1: Seq<char>, p1: int, s2: Seq<char>, p2: int, t: TokenV, n1: int)
    requires
        0 <= p1 < s1.len(),
        0 <= p2 < s2.len(),
        s1.subrange(p1, s1.len() as int) == s2.subrange(p2, s2.len() as int),
        spec_scan(s1, p1) == Ok::<(TokenV, int), TokenizeErr>((t, n1)),
    ensures
        spec_scan(s2, p2) == Ok::<(TokenV, int), TokenizeErr>((t, p2 + (n1 - p1))),
{
    let a = s1.subrange(p1, s1.len() as int);
    let b = s2.subrange(p2, s2.len() as int);
    assert(a == b);
    assert(a.len() == s1.len() - p1);
    assert(b.len() == s2.len() - p2);
    assert(s1.len() - p1 == s2.len() - p2);
    lemma_suffix_pointwise(s1, p1, s2, p2, p1);
    let c = s1[p1];
    assert(s2[p2] == c);
    if is_ident_start_char(c) {
        let f = |ch: char| is_ident_char(ch);
        let m = run_len(s1, p1, f) as int;
        lemma_run_len_chars_stop(s1, p1, f);
        assert forall|j: int| p2 <= j < p2 + m implies f(s2[j]) by {
            lemma_suffix_pointwise(s1, p1, s2, p2, p1 + (j - p2));
        }
        if p1 + m < s1.len() {
            lemma_suffix_pointwise(s1, p1, s2, p2, p1 + m);
            assert(s2[p2 + m] == s1[p1 + m]);
        }
        lemma_run_len_exact(s2, p2, p2 + m, f);
        assert(s1.subrange(p1, p1 + m) =~= s2.subrange(p2, p2 + m)) by {
            assert forall|i: int|
                #![trigger s1.subrange(p1, p1 + m)[i]]
                0 <= i < m implies s1.subrange(p1, p1 + m)[i] == s2.subrange(p2, p2 + m)[i] by {
                lemma_suffix_pointwise(s1, p1, s2, p2, p1 + i);
            }
        }
    } else if is_numeric_char(c) {
        let f = |ch: char| is_numeric_char(ch);
        let m = run_len(s1, p1, f) as int;
        lemma_run_len_chars_stop(s1, p1, f);
        assert forall|j: int| p2 <= j < p2 + m implies f(s2[j]) by {
            lemma_suffix_pointwise(s1, p1, s2, p2, p1 + (j - p2));
        }
        if p1 + m < s1.len() {
            lemma_suffix_pointwise(s1, p1, s2, p2, p1 + m);
            assert(s2[p2 + m] == s1[p1 + m]);
        }
        lemma_run_len_exact(s2, p2, p2 + m, f);
        assert(s1.subrange(p1, p1 + m) =~= s2.subrange(p2, p2 + m)) by {
            assert forall|i: int|
                #![trigger s1.subrange(p1, p1 + m)[i]]
                0 <= i < m implies s1.subrange(p1, p1 + m)[i] == s2.subrange(p2, p2 + m)[i] by {
                lemma_suffix_pointwise(s1, p1, s2, p2, p1 + i);
            }
        }
    } else if c == '"' {
        let f = |ch: char| ch != '"';
        let m = run_len(s1, p1 + 1, f) as int;
        lemma_run_len_chars_stop(s1, p1 + 1, f);
        assert(p1 + 1 + m < s1.len());
        assert forall|j: int| p2 + 1 <= j < p2 + 1 + m implies f(s2[j]) by {
            lemma_suffix_pointwise(s1, p1, s2, p2, p1 + (j - p2));
        }
        lemma_suffix_pointwise(s1, p1, s2, p2, p1 + 1 + m);
        assert(s2[p2 + 1 + m] == s1[p1 + 1 + m]);
        lemma_run_len_exact(s2, p2 + 1, p2 + 1 + m, f);
        assert(s1.subrange(p1 + 1, p1 + 1 + m) =~= s2.subrange(p2 + 1, p2 + 1 + m)) by {
            assert forall|i: int|
                #![trigger s1.subrange(p1 + 1, p1 + 1 + m)[i]]
                0 <= i < m implies s1.subrange(p1 + 1, p1 + 1 + m)[i] == s2.subrange(
                p2 + 1,
                p2 + 1 + m,
            )[i] by {
                lemma_suffix_pointwise(s1, p1, s2, p2, p1 + 1 + i);
            }
        }
    } else {
    }
}

/// Inserting whitespace at a token boundary, the inductive core: before the
/// boundary both texts scan the very same tokens; at the boundary the
/// inserted stretch is skipped and the equal suffixes take over.
proof fn lemma_ws_insert_from(u: Seq<char>, w: Seq<char>, v: Seq<char>, pos: int)
    requires
        forall|i: int| 0 <= i < w.len() ==> is_whitespace_char(w[i]),
        0 <= pos <= u.len(),
        lex_reaches(u + v, pos, u.len() as int),
    ensures
        match spec_tokenize_from(u + v, pos) {
            Ok(ts) => spec_tokenize_from(u + w + v, pos) == Ok::<Seq<TokenV>, TokenizeErr>(ts),
            Err(_) => true,
        },
    decreases u.len() - pos,
{
    let s1 = u + v;
    let s2 = u + w + v;
    let b = u.len() as int;
    assert forall|j: int| 0 <= j < b implies s1[j] == s2[j] by {
        assert(s1[j] == u[j]);
        assert(s2[j] == u[j]);
    }
    if pos == b {
        assert forall|j: int| b <= j < b + w.len() implies is_whitespace_char(s2[j]) by {
            assert(s2[j] == w[j - b]);
        }
        lemma_lex_ws_skip(s2, b, b + w.len() as int);
        assert(s1.subrange(pos, s1.len() as int) =~= s2.subrange(
            b + w.len(),
            s2.len() as int,
        ));
        lemma_lex_suffix(s1, pos, s2, b + w.len() as int);
    } else {
        assert(pos < b);
        assert(s1[pos] == s2[pos]);
        if is_whitespace_char(s1[pos]) {
            lemma_ws_insert_from(u, w, v, pos + 1);
        } else {
            match spec_scan(s1, pos) {
                Ok((t, n)) => {
                    lemma_spec_scan_bounds(s1, pos);
                    assert(n <= b && lex_reaches(s1, n, b));
                    assert(s1.subrange(0, b) =~= s2.subrange(0, b));
                    if w.len() == 0 {
                        lemma_scan_suffix(s1, pos, s2, pos, t, n);
                    } else {
                        assert(is_whitespace_char(s2[b]));
                        lemma_scan_prefix_ws(s1, s2, pos, b, t, n);
                    }
                    lemma_ws_insert_from(u, w, v, n);
                },
                Err(_) => {
                    assert(false);
                },
            }
        }
    }
}

/// Whitespace insensitivity: inserting any stretch of spaces, tabs and
/// newlines at a token boundary of a source text — any position `u.len()`
/// that the scanner visits between tokens — never changes the token
/// sequence of a text that tokenizes successfully.
pub proof fn lemma_whitespace_insertion(u: Seq<char>, w: Seq<char>, v: Seq<char>)
    requires
        forall|i: int| 0 <= i < w.len() ==> is_whitespace_char(w[i]),
        lex_reaches(u + v, 0, u.len() as int),
    ensures
        match spec_tokenize(u + v) {
            Ok(ts) => spec_tokenize(u + w + v) == Ok::<Seq<TokenV>, TokenizeErr>(ts),
            Err(_) => true,
        },
{
    lemma_ws_insert_from(u, w, v, 0);
}

} // verus!
