//! Parser for the formula language.
//!
//! The grammar, with single characters quoted:
//!
//! ```text
//! expression    := term (binary_op expression)?
//! term          := property | literal_value | count_call | '(' expression ')'
//! property      := ident '.' ident
//! literal_value := number | string | bool
//! count_call    := "count(" ident ')'
//! ```
//!
//! Tokens may be separated by blanks and tabs.  An identifier is a letter or
//! underscore followed by letters, digits and underscores; `true` and `false`
//! are the boolean literals; a number is a run of decimal digits that fits in
//! a 64-bit value; a string literal is delimited by double quotes and has no
//! escape sequences.  The whole input must be consumed: trailing text is a
//! grammar mismatch.

use vstd::prelude::*;
use vstd::string::StrSliceExecFns;
use vstd::string::StringExecFns;

verus! {

/// A binary operator of the formula language.
#[derive(Debug, PartialEq, Eq, Structural, Hash, Clone, Copy)]
pub enum FormulaOp {
    Lt,
    Eq,
    NotEq,
    LtEq,
    GtEq,
    Gt,
    Add,
    And,
    Or,
}

/// An error from the formula parser.
#[derive(Debug)]
pub enum FormulaError {
    /// The input was empty.
    Empty,
    /// The input did not match the grammar; carries the offending input.
    ParseError(String),
    /// Any other failure, described in prose.
    Other(String),
}

/// Mathematical model of a formula parser error.
pub enum SpecFormulaErr {
    Empty,
    ParseError(Seq<char>),
    Other(Seq<char>),
}

impl View for FormulaError {
    type V = SpecFormulaErr;

    open spec fn view(&self) -> SpecFormulaErr {
        match self {
            FormulaError::Empty => SpecFormulaErr::Empty,
            FormulaError::ParseError(s) => SpecFormulaErr::ParseError(s@),
            FormulaError::Other(s) => SpecFormulaErr::Other(s@),
        }
    }
}

/// An atomic formula: a property reference, a literal, or a count call.
#[derive(Debug, PartialEq, Eq, Hash, Clone)]
pub enum FormulaTerm {
    Property(String, String),
    Number(u64),
    Boolean(bool),
    String(String),
    CountCall(String),
}

/// A formula expression: a term, or a binary operation over two expressions.
#[derive(Debug, PartialEq, Eq, Hash)]
pub enum FormulaExpr {
    Binary { lhs: Box<FormulaExpr>, rhs: Box<FormulaExpr>, binary_op: FormulaOp },
    Term(FormulaTerm),
}

/// Mathematical model of a term: strings are sequences of characters.
pub enum SpecTerm {
    Property(Seq<char>, Seq<char>),
    Number(u64),
    Boolean(bool),
    StrLit(Seq<char>),
    CountCall(Seq<char>),
}

/// Mathematical model of an expression.
pub enum SpecExpr {
    Binary { lhs: Box<SpecExpr>, rhs: Box<SpecExpr>, binary_op: FormulaOp },
    Term(SpecTerm),
}

impl View for FormulaTerm {
    type V = SpecTerm;

    open spec fn view(&self) -> SpecTerm {
        match self {
            FormulaTerm::Property(a, b) => SpecTerm::Property(a@, b@),
            FormulaTerm::Number(n) => SpecTerm::Number(*n),
            FormulaTerm::Boolean(b) => SpecTerm::Boolean(*b),
            FormulaTerm::String(s) => SpecTerm::StrLit(s@),
            FormulaTerm::CountCall(s) => SpecTerm::CountCall(s@),
        }
    }
}

/// The model of an expression, structurally.
pub open spec fn expr_view(e: FormulaExpr) -> SpecExpr
    decreases e,
{
    match e {
        FormulaExpr::Binary { lhs, rhs, binary_op } => SpecExpr::Binary {
            lhs: Box::new(expr_view(*lhs)),
            rhs: Box::new(expr_view(*rhs)),
            binary_op: binary_op,
        },
        FormulaExpr::Term(t) => SpecExpr::Term(t@),
    }
}

impl View for FormulaExpr {
    type V = SpecExpr;

    open spec fn view(&self) -> SpecExpr {
        expr_view(*self)
    }
}

impl FormulaTerm {
    /// The payload of a string literal term, if this is one.
    pub fn str_value(&self) -> (r: Option<&str>)
        ensures
            match r {
                Some(s) => self@ matches SpecTerm::StrLit(w) && w == s@,
                None => !(self@ is StrLit),
            },
    {
        match self {
            FormulaTerm::String(s) => Some(s.as_str()),
            _ => None,
        }
    }
}

impl FormulaExpr {
    /// The term of this expression, if it is not a binary expression.
    pub fn term(&self) -> (r: Option<&FormulaTerm>)
        ensures
            match r {
                Some(t) => self@ == SpecExpr::Term(t@),
                None => !(self@ is Term),
            },
    {
        match self {
            FormulaExpr::Term(t) => Some(t),
            _ => None,
        }
    }
}

/// One lexical token of the formula language.
#[derive(Debug, PartialEq, Eq, Clone)]
pub enum Token {
    Ident(String),
    Number(u64),
    StrLit(String),
    BoolLit(bool),
    LParen,
    RParen,
    Dot,
    Op(FormulaOp),
}

/// Mathematical model of a token.
pub enum SpecToken {
    Ident(Seq<char>),
    Number(u64),
    StrLit(Seq<char>),
    BoolLit(bool),
    LParen,
    RParen,
    Dot,
    Op(FormulaOp),
}

impl View for Token {
    type V = SpecToken;

    open spec fn view(&self) -> SpecToken {
        match self {
            Token::Ident(s) => SpecToken::Ident(s@),
            Token::Number(n) => SpecToken::Number(*n),
            Token::StrLit(s) => SpecToken::StrLit(s@),
            Token::BoolLit(b) => SpecToken::BoolLit(*b),
            Token::LParen => SpecToken::LParen,
            Token::RParen => SpecToken::RParen,
            Token::Dot => SpecToken::Dot,
            Token::Op(op) => SpecToken::Op(*op),
        }
    }
}

pub open spec fn token_views(v: Seq<Token>) -> Seq<SpecToken> {
    v.map_values(|t: Token| t@)
}

pub open spec fn is_blank_char(c: char) -> bool {
    c == ' ' || c == '\t'
}

pub open spec fn is_digit_char(c: char) -> bool {
    '0' as int <= c as int && c as int <= '9' as int
}

pub open spec fn is_ident_start_char(c: char) -> bool {
    ('a' as int <= c as int && c as int <= 'z' as int) || ('A' as int <= c as int && c as int
        <= 'Z' as int) || c == '_'
}

pub open spec fn is_ident_char(c: char) -> bool {
    is_ident_start_char(c) || is_digit_char(c)
}

/// The first position at or after `i` that does not hold a blank.
pub open spec fn spec_skip_blanks(s: Seq<char>, i: int) -> int
    decreases s.len() - i,
{
    if 0 <= i < s.len() && is_blank_char(s[i]) {
        spec_skip_blanks(s, i + 1)
    } else {
        i
    }
}

/// The end of the identifier-character run that starts at `i`.
pub open spec fn spec_scan_ident(s: Seq<char>, i: int) -> int
    decreases s.len() - i,
{
    if 0 <= i < s.len() && is_ident_char(s[i]) {
        spec_scan_ident(s, i + 1)
    } else {
        i
    }
}

/// The end of the digit run that starts at `i`.
pub open spec fn spec_scan_digits(s: Seq<char>, i: int) -> int
    decreases s.len() - i,
{
    if 0 <= i < s.len() && is_digit_char(s[i]) {
        spec_scan_digits(s, i + 1)
    } else {
        i
    }
}

/// The position of the first double quote at or after `i`, if any.
pub open spec fn spec_scan_string_end(s: Seq<char>, i: int) -> Option<int>
    decreases s.len() - i,
{
    if i < 0 || i >= s.len() {
        None
    } else if s[i] == '"' {
        Some(i)
    } else {
        spec_scan_string_end(s, i + 1)
    }
}

/// The numeric value of the decimal digits `s[i..j]`.
pub open spec fn spec_digits_value(s: Seq<char>, i: int, j: int) -> int
    decreases j - i,
{
    if i >= j {
        0
    } else {
        spec_digits_value(s, i, j - 1) * 10 + (s[j - 1] as int - '0' as int)
    }
}

pub open spec fn count_keyword() -> Seq<char> {
    seq!['c', 'o', 'u', 'n', 't']
}

pub open spec fn true_keyword() -> Seq<char> {
    seq!['t', 'r', 'u', 'e']
}

pub open spec fn false_keyword() -> Seq<char> {
    seq!['f', 'a', 'l', 's', 'e']
}

/// The token that starts at position `i`, which must hold a non-blank
/// character, together with the position just after it.  `None` is a lexical
/// error: an unknown character, an unterminated string literal, a lone `&`,
/// `|` or `!`, or a number too large for 64 bits.
pub open spec fn spec_next_token(s: Seq<char>, i: int) -> Option<(SpecToken, int)> {
    let c = s[i];
    if is_ident_start_char(c) {
        let j = spec_scan_ident(s, i);
        let w = s.subrange(i, j);
        if w == true_keyword() {
            Some((SpecToken::BoolLit(true), j))
        } else if w == false_keyword() {
            Some((SpecToken::BoolLit(false), j))
        } else {
            Some((SpecToken::Ident(w), j))
        }
    } else if is_digit_char(c) {
        let j = spec_scan_digits(s, i);
        let v = spec_digits_value(s, i, j);
        if v <= u64::MAX {
            Some((SpecToken::Number(v as u64), j))
        } else {
            None
        }
    } else if c == '"' {
        match spec_scan_string_end(s, i + 1) {
            Some(q) => Some((SpecToken::StrLit(s.subrange(i + 1, q)), q + 1)),
            None => None,
        }
    } else if c == '(' {
        Some((SpecToken::LParen, i + 1))
    } else if c == ')' {
        Some((SpecToken::RParen, i + 1))
    } else if c == '.' {
        Some((SpecToken::Dot, i + 1))
    } else if c == '&' {
        if i + 1 < s.len() && s[i + 1] == '&' {
            Some((SpecToken::Op(FormulaOp::And), i + 2))
        } else {
            None
        }
    } else if c == '|' {
        if i + 1 < s.len() && s[i + 1] == '|' {
            Some((SpecToken::Op(FormulaOp::Or), i + 2))
        } else {
            None
        }
    } else if c == '!' {
        if i + 1 < s.len() && s[i + 1] == '=' {
            Some((SpecToken::Op(FormulaOp::NotEq), i + 2))
        } else {
            None
        }
    } else if c == '>' {
        if i + 1 < s.len() && s[i + 1] == '=' {
            Some((SpecToken::Op(FormulaOp::GtEq), i + 2))
        } else {
            Some((SpecToken::Op(FormulaOp::Gt), i + 1))
        }
    } else if c == '<' {
        if i + 1 < s.len() && s[i + 1] == '=' {
            Some((SpecToken::Op(FormulaOp::LtEq), i + 2))
        } else {
            Some((SpecToken::Op(FormulaOp::Lt), i + 1))
        }
    } else if c == '=' {
        Some((SpecToken::Op(FormulaOp::Eq), i + 1))
    } else if c == '+' {
        Some((SpecToken::Op(FormulaOp::Add), i + 1))
    } else {
        None
    }
}

/// The token sequence of `s[i..]`, or `None` on a lexical error.
pub open spec fn spec_tokenize(s: Seq<char>, i: int) -> Option<Seq<SpecToken>>
    decreases s.len() - i,
{
    let j = spec_skip_blanks(s, i);
    if j >= s.len() {
        Some(Seq::empty())
    } else {
        match spec_next_token(s, j) {
            None => None,
            Some((t, k)) => if i < k && k <= s.len() {
                match spec_tokenize(s, k) {
                    None => None,
                    Some(rest) => Some(seq![t] + rest),
                }
            } else {
                None
            },
        }
    }
}

/// Parses one term starting at token `i`.
pub open spec fn spec_parse_term(toks: Seq<SpecToken>, i: int) -> Option<(SpecExpr, int)>
    decreases toks.len() - i, 0int,
{
    if i < 0 || i >= toks.len() {
        None
    } else {
        match toks[i] {
            SpecToken::Ident(w) => {
                if i + 1 < toks.len() && toks[i + 1] is Dot {
                    if i + 2 < toks.len() && toks[i + 2] is Ident {
                        Some((SpecExpr::Term(SpecTerm::Property(w, toks[i + 2]->Ident_0)), i + 3))
                    } else {
                        None
                    }
                } else if w == count_keyword() && i + 1 < toks.len() && toks[i + 1] is LParen {
                    if i + 2 < toks.len() && toks[i + 2] is Ident && i + 3 < toks.len() && toks[i
                        + 3] is RParen {
                        Some((SpecExpr::Term(SpecTerm::CountCall(toks[i + 2]->Ident_0)), i + 4))
                    } else {
                        None
                    }
                } else {
                    None
                }
            },
            SpecToken::Number(v) => Some((SpecExpr::Term(SpecTerm::Number(v)), i + 1)),
            SpecToken::StrLit(w) => Some((SpecExpr::Term(SpecTerm::StrLit(w)), i + 1)),
            SpecToken::BoolLit(b) => Some((SpecExpr::Term(SpecTerm::Boolean(b)), i + 1)),
            SpecToken::LParen => match spec_parse_expr(toks, i + 1) {
                None => None,
                Some((e, j)) => if j < toks.len() && toks[j] is RParen {
                    Some((e, j + 1))
                } else {
                    None
                },
            },
            _ => None,
        }
    }
}

/// Parses one expression starting at token `i`: a term, optionally followed
/// by a binary operator and a further expression.
pub open spec fn spec_parse_expr(toks: Seq<SpecToken>, i: int) -> Option<(SpecExpr, int)>
    decreases toks.len() - i, 1int,
{
    match spec_parse_term(toks, i) {
        None => None,
        Some((lhs, j)) => if i < j && j < toks.len() && toks[j] is Op {
            match spec_parse_expr(toks, j + 1) {
                None => None,
                Some((rhs, k)) => Some(
                    (
                        SpecExpr::Binary {
                            lhs: Box::new(lhs),
                            rhs: Box::new(rhs),
                            binary_op: toks[j]->Op_0,
                        },
                        k,
                    ),
                ),
            }
        } else {
            Some((lhs, j))
        },
    }
}

fn is_blank(c: char) -> (b: bool)
    ensures
        b == is_blank_char(c),
{
    c == ' ' || c == '\t'
}

fn is_digit(c: char) -> (b: bool)
    ensures
        b == is_digit_char(c),
{
    let u = c as u32;
    ('0' as u32) <= u && u <= ('9' as u32)
}

fn is_ident_start(c: char) -> (b: bool)
    ensures
        b == is_ident_start_char(c),
{
    let u = c as u32;
    (('a' as u32) <= u && u <= ('z' as u32)) || (('A' as u32) <= u && u <= ('Z' as u32)) || c
        == '_'
}

fn is_ident(c: char) -> (b: bool)
    ensures
        b == is_ident_char(c),
{
    is_ident_start(c) || is_digit(c)
}

fn skip_blanks(s: &str, n: usize, i: usize) -> (j: usize)
    requires
        n == s@.len(),
        i <= n,
    ensures
        j == spec_skip_blanks(s@, i as int),
        i <= j <= n,
        j == n || !is_blank_char(s@[j as int]),
{
    let mut j: usize = i;
    loop
        invariant
            i <= j <= n,
            n == s@.len(),
            spec_skip_blanks(s@, i as int) == spec_skip_blanks(s@, j as int),
        decreases n - j,
    {
        if j < n && is_blank(s.get_char(j)) {
            proof {
                assert(spec_skip_blanks(s@, j as int) == spec_skip_blanks(s@, j + 1));
            }
            j = j + 1;
        } else {
            proof {
                assert(spec_skip_blanks(s@, j as int) == j as int);
            }
            return j;
        }
    }
}

fn scan_ident(s: &str, n: usize, i: usize) -> (j: usize)
    requires
        n == s@.len(),
        i <= n,
    ensures
        j == spec_scan_ident(s@, i as int),
        i <= j <= n,
{
    let mut j: usize = i;
    loop
        invariant
            i <= j <= n,
            n == s@.len(),
            spec_scan_ident(s@, i as int) == spec_scan_ident(s@, j as int),
        decreases n - j,
    {
        if j < n && is_ident(s.get_char(j)) {
            proof {
                assert(spec_scan_ident(s@, j as int) == spec_scan_ident(s@, j + 1));
            }
            j = j + 1;
        } else {
            proof {
                assert(spec_scan_ident(s@, j as int) == j as int);
            }
            return j;
        }
    }
}

fn scan_digits(s: &str, n: usize, i: usize) -> (j: usize)
    requires
        n == s@.len(),
        i <= n,
    ensures
        j == spec_scan_digits(s@, i as int),
        i <= j <= n,
        forall|m: int| i <= m < j ==> is_digit_char(s@[m]),
{
    let mut j: usize = i;
    loop
        invariant
            i <= j <= n,
            n == s@.len(),
            spec_scan_digits(s@, i as int) == spec_scan_digits(s@, j as int),
            forall|m: int| i <= m < j ==> is_digit_char(s@[m]),
        decreases n - j,
    {
        if j < n && is_digit(s.get_char(j)) {
            proof {
                assert(spec_scan_digits(s@, j as int) == spec_scan_digits(s@, j + 1));
            }
            j = j + 1;
        } else {
            proof {
                assert(spec_scan_digits(s@, j as int) == j as int);
            }
            return j;
        }
    }
}

fn scan_string_end(s: &str, n: usize, i: usize) -> (r: Option<usize>)
    requires
        n == s@.len(),
        i <= n,
    ensures
        match r {
            Some(q) => spec_scan_string_end(s@, i as int) == Some(q as int) && i <= q < n,
            None => spec_scan_string_end(s@, i as int) is None,
        },
{
    let mut j: usize = i;
    loop
        invariant
            i <= j <= n,
            n == s@.len(),
            spec_scan_string_end(s@, i as int) == spec_scan_string_end(s@, j as int),
        decreases n - j,
    {
        if j >= n {
            proof {
                assert(spec_scan_string_end(s@, j as int) is None);
            }
            return None;
        }
        if s.get_char(j) == '"' {
            proof {
                assert(spec_scan_string_end(s@, j as int) == Some(j as int));
            }
            return Some(j);
        }
        proof {
            assert(spec_scan_string_end(s@, j as int) == spec_scan_string_end(s@, j + 1));
        }
        j = j + 1;
    }
}

proof fn lemma_digits_value_grows(s: Seq<char>, i: int, k: int, j: int)
    requires
        0 <= i <= k <= j <= s.len(),
        forall|m: int| i <= m < j ==> is_digit_char(s[m]),
        spec_digits_value(s, i, k) >= 0,
    ensures
        spec_digits_value(s, i, j) >= spec_digits_value(s, i, k),
    decreases j - k,
{
    if j > k {
        lemma_digits_value_grows(s, i, k, j - 1);
        assert(spec_digits_value(s, i, j) == spec_digits_value(s, i, j - 1) * 10 + (s[j - 1] as int
            - '0' as int));
        assert(spec_digits_value(s, i, j - 1) * 10 >= spec_digits_value(s, i, j - 1));
    }
}

/// The value of the digit run `s[i..j]` as a 64-bit number, or `None` when it
/// does not fit.
fn digits_value(s: &str, n: usize, i: usize, j: usize) -> (r: Option<u64>)
    requires
        n == s@.len(),
        i <= j <= n,
        forall|m: int| i <= m < j ==> is_digit_char(s@[m]),
    ensures
        match r {
            Some(v) => spec_digits_value(s@, i as int, j as int) == v,
            None => spec_digits_value(s@, i as int, j as int) > u64::MAX,
        },
{
    let mut val: u64 = 0;
    let mut k: usize = i;
    while k < j
        invariant
            i <= k <= j <= n,
            n == s@.len(),
            forall|m: int| i <= m < j ==> is_digit_char(s@[m]),
            val == spec_digits_value(s@, i as int, k as int),
        decreases j - k,
    {
        let c = s.get_char(k);
        let d = (c as u32 - '0' as u32) as u64;
        let big = val.checked_mul(10);
        match big {
            None => {
                proof {
                    assert(val * 10 > u64::MAX);
                    assert(spec_digits_value(s@, i as int, k + 1) == val * 10 + (s@[k as int] as int
                        - '0' as int));
                    lemma_digits_value_grows(s@, i as int, k + 1, j as int);
                }
                return None;
            },
            Some(v10) => {
                let full = v10.checked_add(d);
                match full {
                    None => {
                        proof {
                            assert(v10 + d > u64::MAX);
                            assert(spec_digits_value(s@, i as int, k + 1) == val * 10 + (
                            s@[k as int] as int - '0' as int));
                            lemma_digits_value_grows(s@, i as int, k + 1, j as int);
                        }
                        return None;
                    },
                    Some(v) => {
                        proof {
                            assert(spec_digits_value(s@, i as int, k + 1) == val * 10 + (
                            s@[k as int] as int - '0' as int));
                        }
                        val = v;
                        k = k + 1;
                    },
                }
            },
        }
    }
    Some(val)
}

proof fn lemma_scan_ident_bounds(s: Seq<char>, i: int)
    requires
        0 <= i <= s.len(),
    ensures
        i <= spec_scan_ident(s, i) <= s.len(),
    decreases s.len() - i,
{
    if i < s.len() && is_ident_char(s[i]) {
        lemma_scan_ident_bounds(s, i + 1);
    }
}

proof fn lemma_scan_digits_bounds(s: Seq<char>, i: int)
    requires
        0 <= i <= s.len(),
    ensures
        i <= spec_scan_digits(s, i) <= s.len(),
    decreases s.len() - i,
{
    if i < s.len() && is_digit_char(s[i]) {
        lemma_scan_digits_bounds(s, i + 1);
    }
}

fn is_true_literal(w: &str) -> (b: bool)
    ensures
        b == (w@ == true_keyword()),
{
    if w.unicode_len() != 4 {
        return false;
    }
    let b = w.get_char(0) == 't' && w.get_char(1) == 'r' && w.get_char(2) == 'u' && w.get_char(3)
        == 'e';
    proof {
        if b {
            assert(w@ =~= true_keyword());
        }
    }
    b
}

fn is_false_literal(w: &str) -> (b: bool)
    ensures
        b == (w@ == false_keyword()),
{
    if w.unicode_len() != 5 {
        return false;
    }
    let b = w.get_char(0) == 'f' && w.get_char(1) == 'a' && w.get_char(2) == 'l' && w.get_char(3)
        == 's' && w.get_char(4) == 'e';
    proof {
        if b {
            assert(w@ =~= false_keyword());
        }
    }
    b
}

fn is_count_ident(w: &str) -> (b: bool)
    ensures
        b == (w@ == count_keyword()),
{
    if w.unicode_len() != 5 {
        return false;
    }
    let b = w.get_char(0) == 'c' && w.get_char(1) == 'o' && w.get_char(2) == 'u' && w.get_char(3)
        == 'n' && w.get_char(4) == 't';
    proof {
        if b {
            assert(w@ =~= count_keyword());
        }
    }
    b
}

/// Reads the token that starts at the non-blank position `i`.
fn next_token(s: &str, n: usize, i: usize) -> (r: Option<(Token, usize)>)
    requires
        n == s@.len(),
        i < n,
        !is_blank_char(s@[i as int]),
    ensures
        match r {
            Some(v) => spec_next_token(s@, i as int) == Some((v.0@, v.1 as int)) && i < v.1 <= n,
            None => spec_next_token(s@, i as int) is None,
        },
{
    let c = s.get_char(i);
    if is_ident_start(c) {
        let j = scan_ident(s, n, i);
        proof {
            assert(spec_scan_ident(s@, i as int) == spec_scan_ident(s@, i + 1));
            lemma_scan_ident_bounds(s@, i + 1);
        }
        let w = s.substring_char(i, j);
        if is_true_literal(w) {
            Some((Token::BoolLit(true), j))
        } else if is_false_literal(w) {
            Some((Token::BoolLit(false), j))
        } else {
            Some((Token::Ident(String::from_str(w)), j))
        }
    } else if is_digit(c) {
        let j = scan_digits(s, n, i);
        proof {
            assert(spec_scan_digits(s@, i as int) == spec_scan_digits(s@, i + 1));
            lemma_scan_digits_bounds(s@, i + 1);
        }
        match digits_value(s, n, i, j) {
            Some(v) => Some((Token::Number(v), j)),
            None => None,
        }
    } else if c == '"' {
        match scan_string_end(s, n, i + 1) {
            Some(q) => {
                let w = s.substring_char(i + 1, q);
                Some((Token::StrLit(String::from_str(w)), q + 1))
            },
            None => None,
        }
    } else if c == '(' {
        Some((Token::LParen, i + 1))
    } else if c == ')' {
        Some((Token::RParen, i + 1))
    } else if c == '.' {
        Some((Token::Dot, i + 1))
    } else if c == '&' {
        if i + 1 < n && s.get_char(i + 1) == '&' {
            Some((Token::Op(FormulaOp::And), i + 2))
        } else {
            None
        }
    } else if c == '|' {
        if i + 1 < n && s.get_char(i + 1) == '|' {
            Some((Token::Op(FormulaOp::Or), i + 2))
        } else {
            None
        }
    } else if c == '!' {
        if i + 1 < n && s.get_char(i + 1) == '=' {
            Some((Token::Op(FormulaOp::NotEq), i + 2))
        } else {
            None
        }
    } else if c == '>' {
        if i + 1 < n && s.get_char(i + 1) == '=' {
            Some((Token::Op(FormulaOp::GtEq), i + 2))
        } else {
            Some((Token::Op(FormulaOp::Gt), i + 1))
        }
    } else if c == '<' {
        if i + 1 < n && s.get_char(i + 1) == '=' {
            Some((Token::Op(FormulaOp::LtEq), i + 2))
        } else {
            Some((Token::Op(FormulaOp::Lt), i + 1))
        }
    } else if c == '=' {
        Some((Token::Op(FormulaOp::Eq), i + 1))
    } else if c == '+' {
        Some((Token::Op(FormulaOp::Add), i + 1))
    } else {
        None
    }
}

/// Splits a formula string into tokens; `None` is a lexical error.
pub(crate) fn tokenize(s: &str) -> (r: Option<Vec<Token>>)
    ensures
        match r {
            Some(v) => spec_tokenize(s@, 0) == Some(token_views(v@)),
            None => spec_tokenize(s@, 0) is None,
        },
{
    let n = s.unicode_len();
    let mut acc: Vec<Token> = Vec::new();
    let mut i: usize = 0;
    loop
        invariant
            0 <= i <= n,
            n == s@.len(),
            match spec_tokenize(s@, i as int) {
                Some(rest) => spec_tokenize(s@, 0) == Some(token_views(acc@) + rest),
                None => spec_tokenize(s@, 0) == spec_tokenize(s@, i as int),
            },
        decreases n - i,
    {
        let j = skip_blanks(s, n, i);
        if j >= n {
            proof {
                assert(spec_tokenize(s@, i as int) == Some(Seq::<SpecToken>::empty()));
                assert(token_views(acc@) + Seq::<SpecToken>::empty() =~= token_views(acc@));
            }
            return Some(acc);
        }
        match next_token(s, n, j) {
            None => {
                proof {
                    assert(spec_tokenize(s@, i as int) is None);
                }
                return None;
            },
            Some((t, k)) => {
                proof {
                    let rest_opt = spec_tokenize(s@, k as int);
                    match rest_opt {
                        Some(rest) => {
                            assert(spec_tokenize(s@, i as int) == Some(seq![t@] + rest));
                            assert(token_views(acc@.push(t)) =~= token_views(acc@).push(t@));
                            assert(token_views(acc@) + (seq![t@] + rest) =~= token_views(acc@.push(t))
                                + rest);
                        },
                        None => {
                            assert(spec_tokenize(s@, i as int) is None);
                        },
                    }
                }
                acc.push(t);
                i = k;
            },
        }
    }
}

/// The expression a whole formula string denotes, if it tokenizes and parses
/// with no token left over.
pub open spec fn spec_formula_parses(s: Seq<char>) -> Option<SpecExpr> {
    match spec_tokenize(s, 0) {
        None => None,
        Some(toks) => match spec_parse_expr(toks, 0) {
            None => None,
            Some((e, j)) => if j == toks.len() {
                Some(e)
            } else {
                None
            },
        },
    }
}

fn parse_term(toks: &Vec<Token>, i: usize) -> (r: Option<(FormulaExpr, usize)>)
    requires
        i <= toks@.len(),
    ensures
        match r {
            Some(v) => spec_parse_term(token_views(toks@), i as int) == Some((v.0@, v.1 as int))
                && i < v.1 <= toks@.len(),
            None => spec_parse_term(token_views(toks@), i as int) is None,
        },
    decreases toks@.len() - i, 0int,
{
    let len = toks.len();
    if i >= len {
        return None;
    }
    proof {
        assert(token_views(toks@)[i as int] == toks@[i as int]@);
    }
    match &toks[i] {
        Token::Ident(w) => {
            proof {
                if i + 1 < len {
                    assert(token_views(toks@)[i + 1] == toks@[i + 1]@);
                }
                if i + 2 < len {
                    assert(token_views(toks@)[i + 2] == toks@[i + 2]@);
                }
                if i + 3 < len {
                    assert(token_views(toks@)[i + 3] == toks@[i + 3]@);
                }
            }
            if i + 1 < len && matches!(&toks[i + 1], Token::Dot) {
                if i + 2 < len {
                    if let Token::Ident(w2) = &toks[i + 2] {
                        return Some(
                            (
                                FormulaExpr::Term(FormulaTerm::Property(w.clone(), w2.clone())),
                                i + 3,
                            ),
                        );
                    }
                }
                None
            } else if is_count_ident(w.as_str()) && i + 1 < len && matches!(
                &toks[i + 1],
                Token::LParen,
            ) {
                if i + 2 < len {
                    if let Token::Ident(arg) = &toks[i + 2] {
                        if i + 3 < len && matches!(&toks[i + 3], Token::RParen) {
                            return Some(
                                (FormulaExpr::Term(FormulaTerm::CountCall(arg.clone())), i + 4),
                            );
                        }
                    }
                }
                None
            } else {
                None
            }
        },
        Token::Number(v) => Some((FormulaExpr::Term(FormulaTerm::Number(*v)), i + 1)),
        Token::StrLit(sv) => Some((FormulaExpr::Term(FormulaTerm::String(sv.clone())), i + 1)),
        Token::BoolLit(b) => Some((FormulaExpr::Term(FormulaTerm::Boolean(*b)), i + 1)),
        Token::LParen => {
            match parse_expr(toks, i + 1) {
                None => None,
                Some((e, j)) => {
                    proof {
                        if j < toks@.len() {
                            assert(token_views(toks@)[j as int] == toks@[j as int]@);
                        }
                    }
                    if j < len && matches!(&toks[j], Token::RParen) {
                        Some((e, j + 1))
                    } else {
                        None
                    }
                },
            }
        },
        _ => None,
    }
}

fn parse_expr(toks: &Vec<Token>, i: usize) -> (r: Option<(FormulaExpr, usize)>)
    requires
        i <= toks@.len(),
    ensures
        match r {
            Some(v) => spec_parse_expr(token_views(toks@), i as int) == Some((v.0@, v.1 as int))
                && i < v.1 <= toks@.len(),
            None => spec_parse_expr(token_views(toks@), i as int) is None,
        },
    decreases toks@.len() - i, 1int,
{
    match parse_term(toks, i) {
        None => None,
        Some((lhs, j)) => {
            proof {
                if j < toks@.len() {
                    assert(token_views(toks@)[j as int] == toks@[j as int]@);
                }
            }
            if j < toks.len() {
                let op_opt = match &toks[j] {
                    Token::Op(op) => Some(*op),
                    _ => None,
                };
                match op_opt {
                    Some(op) => match parse_expr(toks, j + 1) {
                        None => None,
                        Some((rhs, k)) => Some(
                            (
                                FormulaExpr::Binary {
                                    lhs: Box::new(lhs),
                                    rhs: Box::new(rhs),
                                    binary_op: op,
                                },
                                k,
                            ),
                        ),
                    },
                    None => Some((lhs, j)),
                }
            } else {
                Some((lhs, j))
            }
        },
    }
}

/// The formula parser: splits a formula string into tokens and reads one
/// complete expression out of them.
pub struct FormulasParser;

impl FormulasParser {
    /// Parses a complete formula; every token must be consumed.
    pub fn parse(input: &str) -> (r: Result<FormulaExpr, FormulaError>)
        ensures
            match r {
                Ok(e) => spec_formula_parses(input@) == Some(e@),
                Err(er) => spec_formula_parses(input@) is None && (er matches
                    FormulaError::ParseError(t) && t@ == input@),
            },
    {
        match tokenize(input) {
            None => Err(FormulaError::ParseError(String::from_str(input))),
            Some(toks) => match parse_expr(&toks, 0) {
                None => Err(FormulaError::ParseError(String::from_str(input))),
                Some((e, j)) => {
                    if j == toks.len() {
                        Ok(e)
                    } else {
                        Err(FormulaError::ParseError(String::from_str(input)))
                    }
                },
            },
        }
    }
}

/// What parsing a formula string must yield: the empty string is rejected
/// with the distinguished empty-input error, and any other input that does
/// not match the grammar is rejected with a parse error carrying the input
/// itself.
pub open spec fn spec_formula_result(s: Seq<char>) -> Result<SpecExpr, SpecFormulaErr> {
    if s.len() == 0 {
        Err(SpecFormulaErr::Empty)
    } else {
        match spec_formula_parses(s) {
            Some(e) => Ok(e),
            None => Err(SpecFormulaErr::ParseError(s)),
        }
    }
}

/// Parses a formula string into an expression.
///
/// The empty string is rejected with the distinguished empty-input error; any
/// other input that does not match the grammar is rejected with a parse error
/// carrying the input itself.
pub fn parse_formula(input: &str) -> (r: Result<FormulaExpr, FormulaError>)
    ensures
        (input@.len() == 0) <==> (r matches Err(FormulaError::Empty)),
        match r {
            Ok(e) => spec_formula_result(input@) == Ok::<SpecExpr, SpecFormulaErr>(e@),
            Err(er) => spec_formula_result(input@) == Err::<SpecExpr, SpecFormulaErr>(er@),
        },
{
    if input.is_empty() {
        return Err(FormulaError::Empty);
    }
    FormulasParser::parse(input)
}

} // verus!
