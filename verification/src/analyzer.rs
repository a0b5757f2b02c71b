//! Checking a token stream for basic syntax errors.
use vstd::prelude::*;

use crate::lexer::{views, Token, TokenView};

verus! {

#[derive(Debug, Clone, Copy)]
pub struct Span {
    pub line: usize,
    pub col: usize,
}

#[derive(Debug, Clone, Copy)]
pub struct SyntaxError<'a> {
    pub span: Span,
    pub error: &'static str,
    pub value: &'a str,
    pub hint: Option<&'static str>,
}

/// The content of a syntax error.
pub struct SyntaxErrorView {
    pub line: nat,
    pub col: nat,
    pub error: Seq<char>,
    pub value: Seq<char>,
    pub hint: Option<Seq<char>>,
}

impl<'a> View for SyntaxError<'a> {
    type V = SyntaxErrorView;

    open spec fn view(&self) -> SyntaxErrorView {
        SyntaxErrorView {
            line: self.span.line as nat,
            col: self.span.col as nat,
            error: self.error@,
            value: self.value@,
            hint: match self.hint {
                Some(h) => Some(h@),
                None => None,
            },
        }
    }
}

/// The text of a syntax error: the error, its position and the text it is
/// about, then the hint where there is one.
pub open spec fn error_text(e: SyntaxErrorView) -> Seq<char> {
    "error: "@ + e.error + "\n "@ + crate::text::decimal(e.line) + ":"@ + crate::text::decimal(e.col)
        + " | "@ + e.value + match e.hint {
        Some(h) => "\n  hint: "@ + h,
        None => Seq::empty(),
    }
}

impl<'a> SyntaxError<'a> {
    /// The error as text (see `error_text`).
    pub fn message(&self) -> (r: String)
        ensures
            r@ == error_text(self@),
    {
        let mut out: Vec<char> = Vec::new();
        crate::text::push_str(&mut out, "error: ");
        crate::text::push_str(&mut out, self.error);
        crate::text::push_str(&mut out, "\n ");
        crate::text::push_decimal(&mut out, self.span.line);
        crate::text::push_str(&mut out, ":");
        crate::text::push_decimal(&mut out, self.span.col);
        crate::text::push_str(&mut out, " | ");
        crate::text::push_str(&mut out, self.value);
        if let Some(hint) = self.hint {
            crate::text::push_str(&mut out, "\n  hint: ");
            crate::text::push_str(&mut out, hint);
        }
        crate::text::string_from_chars(out.as_slice())
    }
}

pub open spec fn error_views<'a>(es: Seq<SyntaxError<'a>>) -> Seq<SyntaxErrorView> {
    es.map_values(|e: SyntaxError<'a>| e@)
}

pub open spec fn err_at(line: nat, col: nat, error: Seq<char>, value: Seq<char>) -> SyntaxErrorView {
    SyntaxErrorView { line, col, error, value, hint: None }
}

/// An error reported where the token stream ends too early: it has no position.
pub open spec fn eof_err(error: Seq<char>) -> SyntaxErrorView {
    SyntaxErrorView { line: 0, col: 0, error, value: "<EOF>"@, hint: None }
}

/// The error, if any, that a token followed by `next` (`None` at the end) gives.
pub open spec fn check_token(t: TokenView, next: Option<TokenView>) -> Option<SyntaxErrorView> {
    match t {
        TokenView::Selector { value, line, col } => match next {
            None => Some(err_at(line, col, "Unexpected EOF after selector"@, value)),
            Some(n) => if !(n is BlockOpen || n is Selector) {
                Some(err_at(line, col, "Expected { after selector"@, value))
            } else {
                None
            },
        },
        TokenView::Property { value, line, col } => match next {
            None => Some(eof_err("Unexpected EOF after property"@)),
            Some(n) => if !(n is Colon) {
                Some(err_at(line, col, "Expected : after property name"@, value))
            } else {
                None
            },
        },
        TokenView::Value { value, line, col } => match next {
            None => Some(eof_err("Unexpected EOF after value"@)),
            Some(n) => if !(n is Semicolon || n is BlockClose) {
                Some(err_at(line, col, "Expected ; after value"@, value))
            } else {
                None
            },
        },
        TokenView::Semicolon { line, col } => match next {
            None => Some(eof_err("Unexpected EOF after ;"@)),
            Some(n) => if !(n is BlockClose || n is Property) {
                Some(err_at(line, col, "Expected property or } after ;"@, ";"@))
            } else {
                None
            },
        },
        TokenView::Colon { line, col } => match next {
            None => Some(eof_err("Unexpected EOF after :"@)),
            Some(n) => if !(n is Value) {
                Some(err_at(line, col, "Expected value after :"@, ":"@))
            } else {
                None
            },
        },
        _ => None,
    }
}

/// The errors of the first `i` tokens of `ts`, in token order.
pub open spec fn errors_upto(ts: Seq<TokenView>, i: int) -> Seq<SyntaxErrorView>
    decreases i,
{
    if i <= 0 || i > ts.len() {
        seq![]
    } else {
        let next = if i < ts.len() {
            Some(ts[i])
        } else {
            None
        };
        match check_token(ts[i - 1], next) {
            Some(e) => errors_upto(ts, i - 1).push(e),
            None => errors_upto(ts, i - 1),
        }
    }
}

/// The syntax errors of a token stream.
pub open spec fn syntax_errors(ts: Seq<TokenView>) -> Seq<SyntaxErrorView> {
    errors_upto(ts, ts.len() as int)
}

// ---------------------------------------------------------------------------
// The last semicolon of a block
// ---------------------------------------------------------------------------

/// Tokens before a position are checked alike in two streams that agree up to
/// and including that position.
proof fn lemma_errors_prefix(s1: Seq<TokenView>, s2: Seq<TokenView>, i: int, m: int)
    requires
        0 <= i <= m,
        m < s1.len(),
        m < s2.len(),
        forall|k: int| 0 <= k <= m ==> s1[k] == s2[k],
    ensures
        errors_upto(s1, i) == errors_upto(s2, i),
    decreases i,
{
    if i > 0 {
        lemma_errors_prefix(s1, s2, i - 1, m);
    }
}

/// After the changed part, two streams that end alike are checked alike.
proof fn lemma_errors_suffix(s1: Seq<TokenView>, s2: Seq<TokenView>, a: int, b: int, k: int)
    requires
        0 <= a <= s1.len(),
        0 <= b <= s2.len(),
        s1.len() - a == s2.len() - b,
        0 <= k <= s1.len() - a,
        errors_upto(s1, a) == errors_upto(s2, b),
        forall|j: int| a <= j < s1.len() ==> #[trigger] s1[j] == s2[j - a + b],
        a > 0 && b > 0 ==> check_token(s1[a - 1], if a < s1.len() {
            Some(s1[a])
        } else {
            None
        }) == check_token(s2[b - 1], if b < s2.len() {
            Some(s2[b])
        } else {
            None
        }),
    ensures
        errors_upto(s1, a + k) == errors_upto(s2, b + k),
    decreases k,
{
    if k > 0 {
        lemma_errors_suffix(s1, s2, a, b, k - 1);
        let i1 = a + k;
        let i2 = b + k;
        assert(s1[i1 - 1] == s2[i2 - 1]);
        if i1 < s1.len() {
            assert(s1[i1] == s2[i2]);
        }
    }
}

/// The semicolon after the last declaration of a block may be left out: a
/// value followed directly by `}` is no error, and the stream has exactly the
/// errors that it has with the semicolon.
pub proof fn law_last_semicolon_optional(
    p: Seq<TokenView>,
    v: TokenView,
    semi: TokenView,
    close: TokenView,
    q: Seq<TokenView>,
)
    requires
        v is Value,
        semi is Semicolon,
        close is BlockClose,
    ensures
        syntax_errors(p + seq![v, close] + q) == syntax_errors(p + seq![v, semi, close] + q),
{
    let s1 = p + seq![v, semi, close] + q;
    let s2 = p + seq![v, close] + q;
    let n = p.len() as int;
    assert(s1[n] == v && s2[n] == v);
    assert(s1[n + 1] == semi && s2[n + 1] == close);
    assert(s1[n + 2] == close);
    lemma_errors_prefix(s1, s2, n, n);
    // The value: followed by `;` in one stream and by `}` in the other, no
    // error in either.
    assert(errors_upto(s1, n + 1) == errors_upto(s2, n + 1));
    assert(errors_upto(s1, n + 2) == errors_upto(s1, n + 1));
    assert(errors_upto(s1, n + 3) == errors_upto(s1, n + 2));
    assert(errors_upto(s2, n + 2) == errors_upto(s2, n + 1));
    assert forall|j: int| n + 3 <= j < s1.len() implies #[trigger] s1[j] == s2[j - (n + 3) + (n + 2)] by {
        assert(s1[j] == q[j - (n + 3)]);
        assert(s2[j - 1] == q[j - (n + 3)]);
    }
    assert(s1[n + 2] == s2[n + 1]);
    lemma_errors_suffix(s1, s2, n + 3, n + 2, s1.len() - (n + 3));
    assert(s1.len() - (n + 3) + (n + 2) == s2.len());
}

// ---------------------------------------------------------------------------
// Well-formed rules have no syntax errors
// ---------------------------------------------------------------------------

/// The token after position `i`, if any.
pub open spec fn next_of(ts: Seq<TokenView>, i: int) -> Option<TokenView> {
    if i + 1 < ts.len() {
        Some(ts[i + 1])
    } else {
        None
    }
}

/// No token of the stream gives an error.
pub open spec fn clean(ts: Seq<TokenView>) -> bool {
    forall|i: int| 0 <= i < ts.len() ==> #[trigger] check_token(ts[i], next_of(ts, i)) is None
}

/// A declaration written out: property, `:`, value, `;`.
pub type DeclTokens = (TokenView, TokenView, TokenView, TokenView);

pub open spec fn decl_well_formed(d: DeclTokens) -> bool {
    d.0 is Property && d.1 is Colon && d.2 is Value && d.3 is Semicolon
}

/// The tokens of declarations, in order.
pub open spec fn decls_tokens(ds: Seq<DeclTokens>) -> Seq<TokenView>
    decreases ds.len(),
{
    if ds.len() == 0 {
        seq![]
    } else {
        decls_tokens(ds.drop_last()) + seq![ds.last().0, ds.last().1, ds.last().2, ds.last().3]
    }
}

/// A rule written out: a selector, `{`, its declarations and `}`.
pub type RuleTokens = (TokenView, TokenView, Seq<DeclTokens>, TokenView);

pub open spec fn rule_well_formed(r: RuleTokens) -> bool {
    &&& r.0 is Selector
    &&& r.1 is BlockOpen
    &&& forall|j: int| 0 <= j < r.2.len() ==> decl_well_formed(#[trigger] r.2[j])
    &&& r.3 is BlockClose
}

/// The tokens of rules, in order.
pub open spec fn rules_tokens(rs: Seq<RuleTokens>) -> Seq<TokenView>
    decreases rs.len(),
{
    if rs.len() == 0 {
        seq![]
    } else {
        rules_tokens(rs.drop_last()) + (seq![rs.last().0, rs.last().1] + decls_tokens(rs.last().2)
            + seq![rs.last().3])
    }
}

proof fn lemma_clean_errors(ts: Seq<TokenView>, n: int)
    requires
        clean(ts),
        0 <= n <= ts.len(),
    ensures
        errors_upto(ts, n) == Seq::<SyntaxErrorView>::empty(),
    decreases n,
{
    if n > 0 {
        assert(check_token(ts[n - 1], next_of(ts, n - 1)) is None);
        lemma_clean_errors(ts, n - 1);
    }
}

/// Two clean pieces make a clean stream where the last token of the first
/// gives no error before the first token of the second.
proof fn lemma_clean_concat(a: Seq<TokenView>, b: Seq<TokenView>)
    requires
        a.len() > 0,
        forall|i: int| 0 <= i < a.len() - 1 ==> #[trigger] check_token(a[i], Some(a[i + 1])) is None,
        check_token(a.last(), if b.len() > 0 {
            Some(b[0])
        } else {
            None
        }) is None,
        clean(b),
    ensures
        clean(a + b),
{
    let s = a + b;
    assert forall|i: int| 0 <= i < s.len() implies #[trigger] check_token(s[i], next_of(s, i)) is None by {
        if i < a.len() - 1 {
            assert(s[i] == a[i] && s[i + 1] == a[i + 1]);
        } else if i == a.len() - 1 {
            assert(s[i] == a.last());
            if b.len() > 0 {
                assert(s[i + 1] == b[0]);
            }
        } else {
            assert(s[i] == b[i - a.len()]);
            assert(check_token(b[i - a.len()], next_of(b, i - a.len())) is None);
            if i + 1 < s.len() {
                assert(s[i + 1] == b[i - a.len() + 1]);
            }
        }
    }
}

proof fn lemma_decls_clean(ds: Seq<DeclTokens>, t: Seq<TokenView>)
    requires
        forall|j: int| 0 <= j < ds.len() ==> decl_well_formed(#[trigger] ds[j]),
        clean(t),
        t.len() > 0,
        t[0] is BlockClose || t[0] is Property,
    ensures
        clean(decls_tokens(ds) + t),
        (decls_tokens(ds) + t)[0] is BlockClose || (decls_tokens(ds) + t)[0] is Property,
    decreases ds.len(),
{
    if ds.len() == 0 {
        assert(decls_tokens(ds) + t =~= t);
    } else {
        let d = ds.last();
        assert(decl_well_formed(ds[ds.len() - 1]));
        let a = seq![d.0, d.1, d.2, d.3];
        lemma_clean_concat(a, t);
        let t2 = a + t;
        assert(t2[0] == d.0);
        assert forall|j: int| 0 <= j < ds.drop_last().len() implies decl_well_formed(
            #[trigger] ds.drop_last()[j],
        ) by {
            assert(ds.drop_last()[j] == ds[j]);
        }
        lemma_decls_clean(ds.drop_last(), t2);
        assert(decls_tokens(ds) + t =~= decls_tokens(ds.drop_last()) + t2);
    }
}

proof fn lemma_rules_clean(rs: Seq<RuleTokens>, t: Seq<TokenView>)
    requires
        forall|j: int| 0 <= j < rs.len() ==> rule_well_formed(#[trigger] rs[j]),
        clean(t),
        t.len() > 0 ==> t[0] is Selector,
    ensures
        clean(rules_tokens(rs) + t),
        rules_tokens(rs) + t == t || (rules_tokens(rs) + t)[0] is Selector,
    decreases rs.len(),
{
    if rs.len() == 0 {
        assert(rules_tokens(rs) + t =~= t);
    } else {
        let r = rs.last();
        assert(rule_well_formed(rs[rs.len() - 1]));
        let close_t = seq![r.3] + t;
        lemma_clean_concat(seq![r.3], t);
        lemma_decls_clean(r.2, close_t);
        let body = decls_tokens(r.2) + close_t;
        let head = seq![r.0, r.1];
        lemma_clean_concat(head, body);
        let t2 = head + body;
        assert(t2[0] == r.0);
        assert forall|j: int| 0 <= j < rs.drop_last().len() implies rule_well_formed(
            #[trigger] rs.drop_last()[j],
        ) by {
            assert(rs.drop_last()[j] == rs[j]);
        }
        lemma_rules_clean(rs.drop_last(), t2);
        assert(rules_tokens(rs) + t =~= rules_tokens(rs.drop_last()) + t2);
    }
}

/// Well-formed rules give no syntax error: a stream of rules, each a selector,
/// `{`, declarations written `property : value ;`, and `}`, analyzes clean.
pub proof fn law_well_formed_rules_clean(rs: Seq<RuleTokens>)
    requires
        forall|j: int| 0 <= j < rs.len() ==> rule_well_formed(#[trigger] rs[j]),
    ensures
        syntax_errors(rules_tokens(rs)) == Seq::<SyntaxErrorView>::empty(),
{
    let e = Seq::<TokenView>::empty();
    lemma_rules_clean(rs, e);
    assert(rules_tokens(rs) + e =~= rules_tokens(rs));
    lemma_clean_errors(rules_tokens(rs), rules_tokens(rs).len() as int);
}

fn eof_error(error: &'static str) -> (r: SyntaxError<'static>)
    ensures
        r@ == eof_err(error@),
{
    SyntaxError { span: Span { line: 0, col: 0 }, error, value: "<EOF>", hint: None }
}

fn located<'a>(line: usize, col: usize, error: &'static str, value: &'a str) -> (r: SyntaxError<'a>)
    ensures
        r@ == err_at(line as nat, col as nat, error@, value@),
{
    SyntaxError { span: Span { line, col }, error, value, hint: None }
}

/// The error that token `t` followed by `next` gives, if any.
fn check<'a>(t: &Token<'a>, next: Option<&Token<'a>>) -> (r: Option<SyntaxError<'a>>)
    ensures
        ({
            let nv = match next {
                Some(n) => Some(n@),
                None => None,
            };
            match r {
                Some(e) => check_token(t@, nv) == Some(e@),
                None => check_token(t@, nv) is None,
            }
        }),
{
    match t {
        Token::Selector { line, col, value } => match next {
            None => Some(located(*line, *col, "Unexpected EOF after selector", value)),
            Some(n) => match n {
                Token::BlockOpen { .. } | Token::Selector { .. } => None,
                _ => Some(located(*line, *col, "Expected { after selector", value)),
            },
        },
        Token::Property { line, col, value } => match next {
            None => Some(eof_error("Unexpected EOF after property")),
            Some(n) => match n {
                Token::Colon { .. } => None,
                _ => Some(located(*line, *col, "Expected : after property name", value)),
            },
        },
        Token::Value { line, col, value } => match next {
            None => Some(eof_error("Unexpected EOF after value")),
            Some(n) => match n {
                Token::Semicolon { .. } | Token::BlockClose { .. } => None,
                _ => Some(located(*line, *col, "Expected ; after value", value)),
            },
        },
        Token::Semicolon { line, col } => match next {
            None => Some(eof_error("Unexpected EOF after ;")),
            Some(n) => match n {
                Token::BlockClose { .. } | Token::Property { .. } => None,
                _ => Some(located(*line, *col, "Expected property or } after ;", ";")),
            },
        },
        Token::Colon { line, col } => match next {
            None => Some(eof_error("Unexpected EOF after :")),
            Some(n) => match n {
                Token::Value { .. } => None,
                _ => Some(located(*line, *col, "Expected value after :", ":")),
            },
        },
        // AtRule tokens are valid in any position at depth 0 — no validation needed here
        _ => None,
    }
}

/// Validates the token stream for basic syntax correctness.
/// Returns a (possibly empty) list of syntax errors found, in token order:
/// each token is checked against the token that follows it.
#[must_use]
pub fn analyze_tokens<'a>(tokens: &[Token<'a>], _input: &'a str) -> (r: Vec<SyntaxError<'a>>)
    ensures
        error_views(r@) == syntax_errors(views(tokens@)),
{
    let mut errors: Vec<SyntaxError<'a>> = Vec::new();
    let n = tokens.len();
    let ghost ts = views(tokens@);
    let mut i: usize = 0;
    while i < n
        invariant
            n == tokens@.len(),
            ts == views(tokens@),
            i <= n,
            error_views(errors@) == errors_upto(ts, i as int),
        decreases n - i,
    {
        let next = if i + 1 < n {
            Some(&tokens[i + 1])
        } else {
            None
        };
        let ghost before = errors@;
        match check(&tokens[i], next) {
            Some(e) => {
                errors.push(e);
                assert(error_views(errors@) =~= error_views(before).push(e@));
            },
            None => {},
        }
        i = i + 1;
    }
    errors
}

} // verus!
