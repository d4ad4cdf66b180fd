//! Free symbols of a textual mathematical expression.

use vstd::prelude::*;

verus! {

/// A token of a parsed expression, in reverse Polish order.
#[derive(Debug)]
pub enum ExprToken {
    Binary,
    Unary,
    LParen,
    RParen,
    Comma,
    Number,
    Var(String),
    Func(String),
}

/// What a token is, with names as character sequences.
pub enum TokenView {
    Binary,
    Unary,
    LParen,
    RParen,
    Comma,
    Number,
    Var(Seq<char>),
    Func(Seq<char>),
}

impl View for ExprToken {
    type V = TokenView;

    open spec fn view(&self) -> TokenView {
        match self {
            ExprToken::Binary => TokenView::Binary,
            ExprToken::Unary => TokenView::Unary,
            ExprToken::LParen => TokenView::LParen,
            ExprToken::RParen => TokenView::RParen,
            ExprToken::Comma => TokenView::Comma,
            ExprToken::Number => TokenView::Number,
            ExprToken::Var(n) => TokenView::Var(n@),
            ExprToken::Func(n) => TokenView::Func(n@),
        }
    }
}

/// The reverse Polish token sequence that the expression parser yields for
/// a text, or `None` where the text is not a well-formed expression.
pub uninterp spec fn rpn_of(text: Seq<char>) -> Option<Seq<TokenView>>;

pub open spec fn tokens_view(v: Seq<ExprToken>) -> Seq<TokenView> {
    v.map_values(|t: ExprToken| t@)
}

pub open spec fn strings_view(v: Seq<String>) -> Seq<Seq<char>> {
    v.map_values(|s: String| s@)
}

/// The variable names of a token sequence, each once, in order of first
/// occurrence.
pub open spec fn distinct_vars(toks: Seq<TokenView>) -> Seq<Seq<char>>
    decreases toks.len(),
{
    if toks.len() == 0 {
        Seq::empty()
    } else {
        let prev = distinct_vars(toks.drop_last());
        match toks.last() {
            TokenView::Var(n) => if prev.contains(n) {
                prev
            } else {
                prev.push(n)
            },
            _ => prev,
        }
    }
}

/// A character that the expression parser skips between tokens.
pub open spec fn is_blank_char(c: char) -> bool {
    c == ' ' || c == '\t' || c == '\r' || c == '\n'
}

/// A text made of blank characters only (or of none).
pub open spec fn is_blank(text: Seq<char>) -> bool {
    forall|i: int| 0 <= i < text.len() ==> is_blank_char(#[trigger] text[i])
}

/// The free symbols of a text, or `None` where it does not parse. A blank
/// text is no expression.
pub open spec fn symbols_of(text: Seq<char>) -> Option<Seq<Seq<char>>> {
    if is_blank(text) {
        None
    } else {
        match rpn_of(text) {
            Some(toks) => Some(distinct_vars(toks)),
            None => None,
        }
    }
}

/// Whether `text` holds nothing but blank characters.
pub fn blank_text(text: &str) -> (r: bool)
    ensures
        r == is_blank(text@),
{
    let n = text.unicode_len();
    let mut i: usize = 0;
    while i < n
        invariant
            i <= n == text@.len(),
            forall|j: int| 0 <= j < i ==> is_blank_char(#[trigger] text@[j]),
        decreases n - i,
    {
        let c = text.get_char(i);
        if !(c == ' ' || c == '\t' || c == '\r' || c == '\n') {
            return false;
        }
        i = i + 1;
    }
    true
}

/// Relies on meval's `FromStr for Expr`: parses infix text into its reverse
/// Polish tokens, which are handed over one for one. Its tokenizer panics on
/// a text of blank characters only, which is therefore not admitted.
#[verifier::external_body]
fn parse_tokens(text: &str) -> (r: Option<Vec<ExprToken>>)
    requires
        !is_blank(text@),
    ensures
        r.is_some() == rpn_of(text@).is_some(),
        r matches Some(v) ==> rpn_of(text@) == Some(tokens_view(v@)),
{
    let expr: meval::Expr = text.parse().ok()?;
    Some(expr.iter().map(|t| match t {
        meval::tokenizer::Token::Binary(_) => ExprToken::Binary,
        meval::tokenizer::Token::Unary(_) => ExprToken::Unary,
        meval::tokenizer::Token::LParen => ExprToken::LParen,
        meval::tokenizer::Token::RParen => ExprToken::RParen,
        meval::tokenizer::Token::Comma => ExprToken::Comma,
        meval::tokenizer::Token::Number(_) => ExprToken::Number,
        meval::tokenizer::Token::Var(n) => ExprToken::Var(n.clone()),
        meval::tokenizer::Token::Func(n, _) => ExprToken::Func(n.clone()),
    }).collect())
}

/// Whether `v` holds a string equal to `s`.
pub fn contains_string(v: &Vec<String>, s: &String) -> (r: bool)
    ensures
        r == strings_view(v@).contains(s@),
{
    let mut i: usize = 0;
    while i < v.len()
        invariant
            i <= v@.len(),
            forall|j: int| 0 <= j < i ==> v@[j]@ != s@,
        decreases v@.len() - i,
    {
        if v[i] == *s {
            assert(strings_view(v@)[i as int] == s@);
            return true;
        }
        i = i + 1;
    }
    proof {
        if strings_view(v@).contains(s@) {
            let k = choose|k: int| 0 <= k < v@.len() && strings_view(v@)[k] == s@;
            assert(v@[k]@ == s@);
        }
    }
    false
}

/// The variable names of a token sequence, each once, in order of first
/// occurrence.
pub fn variables_of_tokens(toks: &Vec<ExprToken>) -> (r: Vec<String>)
    ensures
        strings_view(r@) == distinct_vars(tokens_view(toks@)),
{
    let mut r: Vec<String> = Vec::new();
    let mut i: usize = 0;
    while i < toks.len()
        invariant
            i <= toks@.len(),
            strings_view(r@) == distinct_vars(tokens_view(toks@.take(i as int))),
        decreases toks@.len() - i,
    {
        proof {
            assert(tokens_view(toks@.take(i + 1)).drop_last() =~= tokens_view(toks@.take(i as int)));
            assert(tokens_view(toks@.take(i + 1)).last() == toks@[i as int]@);
        }
        match &toks[i] {
            ExprToken::Var(n) => {
                if !contains_string(&r, n) {
                    let ghost before = r@;
                    r.push(n.clone());
                    assert(strings_view(r@) =~= strings_view(before).push(n@));
                }
            },
            _ => {},
        }
        i = i + 1;
    }
    assert(toks@.take(toks@.len() as int) =~= toks@);
    r
}

/// Parses `text` and lists its free symbols, each once, in order of first
/// occurrence; `None` where the text is not a well-formed expression.
pub fn free_symbols(text: &str) -> (r: Option<Vec<String>>)
    ensures
        r.is_some() == symbols_of(text@).is_some(),
        r matches Some(v) ==> symbols_of(text@) == Some(strings_view(v@)),
{
    if blank_text(text) {
        return None;
    }
    match parse_tokens(text) {
        Some(toks) => Some(variables_of_tokens(&toks)),
        None => None,
    }
}

} // verus!
