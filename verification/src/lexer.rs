//! Splitting CSS text into tokens.
use vstd::prelude::*;

use crate::text::{is_whitespace, is_ws, trim, trim_end, trim_start, chars_of};

verus! {

broadcast use vstd::seq_lib::group_seq_properties;

#[derive(Clone, Copy)]
pub enum Token<'a> {
    Selector { value: &'a str, line: usize, col: usize },
    Property { value: &'a str, line: usize, col: usize },
    Value { value: &'a str, line: usize, col: usize },
    BlockOpen { line: usize, col: usize },
    BlockClose { line: usize, col: usize },
    Colon { line: usize, col: usize },
    Semicolon { line: usize, col: usize },
    /// At-rule token: e.g. `@media (max-width: 600px)` before the `{`.
    /// `keyword` = word after `@`; `prelude` = text between keyword and `{`/`;`.
    AtRule { keyword: &'a str, prelude: &'a str, line: usize, col: usize },
    EOF,
}

/// The mathematical content of a token: its texts as character sequences.
pub enum TokenView {
    Selector { value: Seq<char>, line: nat, col: nat },
    Property { value: Seq<char>, line: nat, col: nat },
    Value { value: Seq<char>, line: nat, col: nat },
    BlockOpen { line: nat, col: nat },
    BlockClose { line: nat, col: nat },
    Colon { line: nat, col: nat },
    Semicolon { line: nat, col: nat },
    AtRule { keyword: Seq<char>, prelude: Seq<char>, line: nat, col: nat },
    Eof,
}

impl<'a> View for Token<'a> {
    type V = TokenView;

    open spec fn view(&self) -> TokenView {
        match *self {
            Token::Selector { value, line, col } => TokenView::Selector {
                value: value@,
                line: line as nat,
                col: col as nat,
            },
            Token::Property { value, line, col } => TokenView::Property {
                value: value@,
                line: line as nat,
                col: col as nat,
            },
            Token::Value { value, line, col } => TokenView::Value {
                value: value@,
                line: line as nat,
                col: col as nat,
            },
            Token::BlockOpen { line, col } => TokenView::BlockOpen {
                line: line as nat,
                col: col as nat,
            },
            Token::BlockClose { line, col } => TokenView::BlockClose {
                line: line as nat,
                col: col as nat,
            },
            Token::Colon { line, col } => TokenView::Colon { line: line as nat, col: col as nat },
            Token::Semicolon { line, col } => TokenView::Semicolon {
                line: line as nat,
                col: col as nat,
            },
            Token::AtRule { keyword, prelude, line, col } => TokenView::AtRule {
                keyword: keyword@,
                prelude: prelude@,
                line: line as nat,
                col: col as nat,
            },
            Token::EOF => TokenView::Eof,
        }
    }
}

/// The views of a sequence of tokens.
pub open spec fn views<'a>(ts: Seq<Token<'a>>) -> Seq<TokenView> {
    ts.map_values(|t: Token<'a>| t@)
}

// ---------------------------------------------------------------------------
// Positions
// ---------------------------------------------------------------------------

/// The line (from 1) after reading the first `p` characters of `s`.
pub open spec fn line_at(s: Seq<char>, p: int) -> nat
    decreases p,
{
    if p <= 0 || p > s.len() {
        1
    } else {
        line_at(s, p - 1) + if s[p - 1] == '\n' {
            1nat
        } else {
            0nat
        }
    }
}

/// The column (characters since the last line break) after reading the first `p`
/// characters of `s`.
pub open spec fn col_at(s: Seq<char>, p: int) -> nat
    decreases p,
{
    if p <= 0 || p > s.len() {
        0
    } else if s[p - 1] == '\n' {
        0
    } else {
        col_at(s, p - 1) + 1
    }
}

// ---------------------------------------------------------------------------
// Positions: lines and columns
// ---------------------------------------------------------------------------

/// Where the line that position `p` is on starts: just after the last line
/// break before `p` (0 on the first line).
pub open spec fn line_start(s: Seq<char>, p: int) -> int
    decreases p,
{
    if p <= 0 || p > s.len() {
        0
    } else if s[p - 1] == '\n' {
        p
    } else {
        line_start(s, p - 1)
    }
}

/// Lines and columns count as a reader does: the line after reading `p`
/// characters is one more than the number of line breaks among them, and the
/// column is the number of characters read since the last line break.
pub proof fn law_line_and_column(s: Seq<char>, p: int)
    requires
        0 <= p <= s.len(),
    ensures
        line_at(s, p) == 1 + s.take(p).filter(|c: char| c == '\n').len(),
        col_at(s, p) == p - line_start(s, p),
        0 <= line_start(s, p) <= p,
    decreases p,
{
    let nl = |c: char| c == '\n';
    if p == 0 {
        assert(s.take(0) =~= Seq::<char>::empty());
        reveal(Seq::filter);
    } else {
        law_line_and_column(s, p - 1);
        assert(s.take(p) =~= s.take(p - 1).push(s[p - 1]));
        s.take(p - 1).lemma_filter_push(s[p - 1], nl);
    }
}

pub proof fn lemma_line_col_bound(s: Seq<char>, p: int)
    ensures
        line_at(s, p) <= if p < 0 {
            1
        } else {
            p + 1
        },
        col_at(s, p) <= if p < 0 {
            0
        } else {
            p
        },
    decreases p,
{
    if p > 0 && p <= s.len() {
        lemma_line_col_bound(s, p - 1);
    }
}

// ---------------------------------------------------------------------------
// The scanners that the lexer uses, as functions of the text and a position
// ---------------------------------------------------------------------------

/// Position just after the `*/` that closes a comment whose body starts at `p`
/// (or the end of the text).
pub open spec fn comment_end(s: Seq<char>, p: int) -> int
    decreases s.len() - p,
{
    if p < 0 || p >= s.len() {
        s.len() as int
    } else if s[p] == '*' && p + 1 < s.len() && s[p + 1] == '/' {
        p + 2
    } else {
        comment_end(s, p + 1)
    }
}

/// First position at or after `p` that is not whitespace.
pub open spec fn ws_end(s: Seq<char>, p: int) -> int
    decreases s.len() - p,
{
    if 0 <= p < s.len() && is_ws(s[p]) {
        ws_end(s, p + 1)
    } else {
        p
    }
}

/// First position at or after `p` holding `:`, `;` or `}` (or the end).
pub open spec fn decl_text_end(s: Seq<char>, p: int) -> int
    decreases s.len() - p,
{
    if 0 <= p < s.len() && s[p] != ':' && s[p] != ';' && s[p] != '}' {
        decl_text_end(s, p + 1)
    } else {
        p
    }
}

/// First position at or after `p` holding `{` (or the end).
pub open spec fn selector_end(s: Seq<char>, p: int) -> int
    decreases s.len() - p,
{
    if 0 <= p < s.len() && s[p] != '{' {
        selector_end(s, p + 1)
    } else {
        p
    }
}

/// End of an at-rule keyword: the first whitespace, `{` or `;` at or after `p`.
pub open spec fn keyword_end(s: Seq<char>, p: int) -> int
    decreases s.len() - p,
{
    if 0 <= p < s.len() && !is_ws(s[p]) && s[p] != '{' && s[p] != ';' {
        keyword_end(s, p + 1)
    } else {
        p
    }
}

/// End of an at-rule prelude: the first `{` or `;` outside braces, where
/// `depth` braces are open (a stray `}` never makes the depth negative).
pub open spec fn prelude_end(s: Seq<char>, p: int, depth: nat) -> int
    decreases s.len() - p,
{
    if p < 0 || p >= s.len() {
        p
    } else if depth == 0 && (s[p] == '{' || s[p] == ';') {
        p
    } else if s[p] == '{' {
        prelude_end(s, p + 1, depth + 1)
    } else if s[p] == '}' {
        prelude_end(
            s,
            p + 1,
            if depth > 0 {
                (depth - 1) as nat
            } else {
                0
            },
        )
    } else {
        prelude_end(s, p + 1, depth)
    }
}

pub proof fn lemma_scanners_advance(s: Seq<char>, p: int)
    requires
        0 <= p <= s.len(),
    ensures
        p <= comment_end(s, p) <= s.len(),
        p <= ws_end(s, p) <= s.len(),
        p <= decl_text_end(s, p) <= s.len(),
        p <= selector_end(s, p) <= s.len(),
        p <= keyword_end(s, p) <= s.len(),
    decreases s.len() - p,
{
    if p < s.len() {
        lemma_scanners_advance(s, p + 1);
    }
}

pub proof fn lemma_prelude_end_advance(s: Seq<char>, p: int, depth: nat)
    requires
        0 <= p <= s.len(),
    ensures
        p <= prelude_end(s, p, depth) <= s.len(),
    decreases s.len() - p,
{
    if p < s.len() {
        lemma_prelude_end_advance(s, p + 1, depth + 1);
        lemma_prelude_end_advance(s, p + 1, depth);
        if depth > 0 {
            lemma_prelude_end_advance(s, p + 1, (depth - 1) as nat);
        }
    }
}

pub open spec fn font_face_keyword() -> Seq<char> {
    seq!['f', 'o', 'n', 't', '-', 'f', 'a', 'c', 'e']
}

/// The tokens of `s` from position `p`, where `stack` records, for each open
/// `{`, whether it opened a declaration block, and `next_decl` says whether the
/// next `{` opens one.
pub open spec fn lex_from(s: Seq<char>, p: int, stack: Seq<bool>, next_decl: bool) -> Seq<
    TokenView,
>
    decreases s.len() - p,
{
    if p < 0 || p >= s.len() {
        seq![TokenView::Eof]
    } else {
        let c = s[p];
        let q = p + 1;
        let in_decl = stack.len() > 0 && stack.last();
        proof {
            lemma_scanners_advance(s, q);
            lemma_prelude_end_advance(s, keyword_end(s, q), 0);
            if q + 1 <= s.len() {
                lemma_scanners_advance(s, q + 1);
            }
        }
        if c == '{' {
            seq![TokenView::BlockOpen { line: line_at(s, q), col: col_at(s, q) }] + lex_from(
                s,
                q,
                stack.push(next_decl),
                false,
            )
        } else if c == '}' {
            seq![TokenView::BlockClose { line: line_at(s, q), col: col_at(s, q) }] + lex_from(
                s,
                q,
                if stack.len() > 0 {
                    stack.drop_last()
                } else {
                    stack
                },
                next_decl,
            )
        } else if c == ':' && in_decl {
            seq![TokenView::Colon { line: line_at(s, q), col: col_at(s, q) }] + lex_from(
                s,
                q,
                stack,
                next_decl,
            )
        } else if c == ';' {
            seq![TokenView::Semicolon { line: line_at(s, q), col: col_at(s, q) }] + lex_from(
                s,
                q,
                stack,
                next_decl,
            )
        } else if c == '/' && q < s.len() && s[q] == '*' {
            lex_from(s, comment_end(s, q + 1), stack, next_decl)
        } else if c == '@' && !in_decl {
            let k = keyword_end(s, q);
            let e = prelude_end(s, k, 0);
            let keyword = trim(s.subrange(q, k));
            seq![
                TokenView::AtRule {
                    keyword: keyword,
                    prelude: trim(s.subrange(k, e)),
                    line: line_at(s, q),
                    col: col_at(s, q),
                },
            ] + lex_from(s, e, stack, keyword == font_face_keyword())
        } else if is_ws(c) {
            lex_from(s, ws_end(s, q), stack, next_decl)
        } else if in_decl {
            let e = decl_text_end(s, q);
            let v = trim_end(s.subrange(p, e));
            if e < s.len() && s[e] == ':' {
                seq![TokenView::Property { value: v, line: line_at(s, e), col: col_at(s, e) }]
                    + lex_from(s, e, stack, next_decl)
            } else if e < s.len() {
                seq![TokenView::Value { value: v, line: line_at(s, e), col: col_at(s, e) }]
                    + lex_from(s, e, stack, next_decl)
            } else {
                lex_from(s, e, stack, next_decl)
            }
        } else {
            let e = selector_end(s, q);
            seq![
                TokenView::Selector {
                    value: trim_end(s.subrange(p, e)),
                    line: line_at(s, e),
                    col: col_at(s, e),
                },
            ] + lex_from(s, e, stack, true)
        }
    }
}

/// The tokens of a whole CSS text.
pub open spec fn lex(s: Seq<char>) -> Seq<TokenView> {
    lex_from(s, 0, seq![], false)
}

// ---------------------------------------------------------------------------
// Lexer
// ---------------------------------------------------------------------------

pub struct Lexer<'a> {
    input: &'a str,
    chars: Vec<char>,
    position: usize,
    line: usize,
    col: usize,
}

impl<'a> Lexer<'a> {
    /// The characters that this lexer reads.
    pub closed spec fn text(&self) -> Seq<char> {
        self.input@
    }

    /// The position of the next character to read.
    pub closed spec fn pos(&self) -> int {
        self.position as int
    }

    pub closed spec fn wf(&self) -> bool {
        &&& self.chars@ == self.input@
        &&& self.position <= self.chars@.len()
        &&& self.chars@.len() < usize::MAX
        &&& self.line == line_at(self.chars@, self.position as int)
        &&& self.col == col_at(self.chars@, self.position as int)
    }

    #[must_use]
    pub fn new(input: &'a str) -> (r: Self)
        requires
            input@.len() < usize::MAX,
        ensures
            r.wf(),
            r.text() == input@,
            r.pos() == 0,
    {
        Lexer { input, chars: chars_of(input), position: 0, line: 1, col: 0 }
    }

    fn advance(&mut self) -> (r: Option<char>)
        requires
            old(self).wf(),
        ensures
            final(self).wf(),
            final(self).input == old(self).input,
            old(self).position < old(self).chars@.len() ==> r == Some(
                old(self).chars@[old(self).position as int],
            ) && final(self).position == old(self).position + 1,
            old(self).position >= old(self).chars@.len() ==> r is None && final(self).position
                == old(self).position,
    {
        if self.position >= self.chars.len() {
            return None;
        }
        let ch = self.chars[self.position];
        proof {
            lemma_line_col_bound(self.chars@, self.position as int);
        }
        self.position = self.position + 1;
        if ch == '\n' {
            self.line = self.line + 1;
            self.col = 0;
        } else {
            self.col = self.col + 1;
        }
        Some(ch)
    }

    fn peek_char(&self) -> (r: Option<char>)
        requires
            self.wf(),
        ensures
            self.position < self.chars@.len() ==> r == Some(self.chars@[self.position as int]),
            self.position >= self.chars@.len() ==> r is None,
    {
        if self.position < self.chars.len() {
            Some(self.chars[self.position])
        } else {
            None
        }
    }

    fn advance_until_comment_end(&mut self)
        requires
            old(self).wf(),
        ensures
            final(self).wf(),
            final(self).input == old(self).input,
            final(self).position == comment_end(old(self).chars@, old(self).position as int),
    {
        let ghost goal = comment_end(self.chars@, self.position as int);
        loop
            invariant_except_break
                self.wf(),
                self.input == old(self).input,
                comment_end(self.chars@, self.position as int) == goal,
            ensures
                self.wf(),
                self.input == old(self).input,
                self.position == goal,
            decreases self.chars@.len() - self.position,
        {
            let ghost p = self.position as int;
            let Some(c) = self.advance() else { break };
            if c == '*' && self.position < self.chars.len() && self.chars[self.position] == '/' {
                self.advance();
                break;
            }
        }
    }

    fn skip_whitespace(&mut self)
        requires
            old(self).wf(),
        ensures
            final(self).wf(),
            final(self).input == old(self).input,
            final(self).position == ws_end(old(self).chars@, old(self).position as int),
    {
        let ghost goal = ws_end(self.chars@, self.position as int);
        while self.position < self.chars.len() && is_whitespace(self.chars[self.position])
            invariant
                self.wf(),
                self.input == old(self).input,
                ws_end(self.chars@, self.position as int) == goal,
            decreases self.chars@.len() - self.position,
        {
            self.advance();
        }
    }

    /// Reads while the next character is not `:`, `;` or `}`.
    fn skip_decl_text(&mut self)
        requires
            old(self).wf(),
        ensures
            final(self).wf(),
            final(self).input == old(self).input,
            final(self).position == decl_text_end(old(self).chars@, old(self).position as int),
    {
        let ghost goal = decl_text_end(self.chars@, self.position as int);
        while self.position < self.chars.len() && self.chars[self.position] != ':'
            && self.chars[self.position] != ';' && self.chars[self.position] != '}'
            invariant
                self.wf(),
                self.input == old(self).input,
                decl_text_end(self.chars@, self.position as int) == goal,
            decreases self.chars@.len() - self.position,
        {
            self.advance();
        }
    }

    /// Reads while the next character is not `{`.
    fn skip_selector_text(&mut self)
        requires
            old(self).wf(),
        ensures
            final(self).wf(),
            final(self).input == old(self).input,
            final(self).position == selector_end(old(self).chars@, old(self).position as int),
    {
        let ghost goal = selector_end(self.chars@, self.position as int);
        while self.position < self.chars.len() && self.chars[self.position] != '{'
            invariant
                self.wf(),
                self.input == old(self).input,
                selector_end(self.chars@, self.position as int) == goal,
            decreases self.chars@.len() - self.position,
        {
            self.advance();
        }
    }

    /// The input between positions `a` and `b`, with whitespace trimmed from its end.
    fn slice_trim_end(&self, a: usize, b: usize) -> (r: &'a str)
        requires
            self.wf(),
            a <= b <= self.chars@.len(),
        ensures
            r@ == trim_end(self.chars@.subrange(a as int, b as int)),
    {
        let mut j = b;
        while j > a && is_whitespace(self.chars[j - 1])
            invariant
                self.wf(),
                a <= j <= b <= self.chars@.len(),
                trim_end(self.chars@.subrange(a as int, b as int)) == trim_end(
                    self.chars@.subrange(a as int, j as int),
                ),
            decreases j,
        {
            assert(self.chars@.subrange(a as int, j as int).drop_last() =~= self.chars@.subrange(
                a as int,
                j - 1,
            ));
            j = j - 1;
        }
        self.input.substring_char(a, j)
    }

    /// The input between positions `a` and `b`, with whitespace trimmed from both ends.
    fn slice_trim(&self, a: usize, b: usize) -> (r: &'a str)
        requires
            self.wf(),
            a <= b <= self.chars@.len(),
        ensures
            r@ == trim(self.chars@.subrange(a as int, b as int)),
    {
        let mut i = a;
        while i < b && is_whitespace(self.chars[i])
            invariant
                self.wf(),
                a <= i <= b <= self.chars@.len(),
                trim_start(self.chars@.subrange(a as int, b as int)) == trim_start(
                    self.chars@.subrange(i as int, b as int),
                ),
            decreases b - i,
        {
            assert(self.chars@.subrange(i as int, b as int).drop_first() =~= self.chars@.subrange(
                i + 1,
                b as int,
            ));
            i = i + 1;
        }
        self.slice_trim_end(i, b)
    }

    /// Scan `@keyword prelude` starting at `at_start` (right after `@`).
    /// Stops at the first `{` or `;` at depth 0 without consuming it.
    /// Returns `(keyword, prelude)` as slices into the input.
    fn scan_at_rule(&mut self, at_start: usize) -> (r: (&'a str, &'a str))
        requires
            old(self).wf(),
            at_start == old(self).position,
        ensures
            final(self).wf(),
            final(self).input == old(self).input,
            ({
                let s = old(self).chars@;
                let k = keyword_end(s, at_start as int);
                let e = prelude_end(s, k, 0);
                &&& final(self).position == e
                &&& r.0@ == trim(s.subrange(at_start as int, k))
                &&& r.1@ == trim(s.subrange(k, e))
            }),
    {
        let ghost s = self.chars@;
        let kw_start = at_start;
        while self.position < self.chars.len() && !is_whitespace(self.chars[self.position])
            && self.chars[self.position] != '{' && self.chars[self.position] != ';'
            invariant
                self.wf(),
                self.input == old(self).input,
                s == self.chars@,
                kw_start <= self.position,
                keyword_end(s, self.position as int) == keyword_end(s, at_start as int),
            decreases self.chars@.len() - self.position,
        {
            self.advance();
        }
        let keyword = self.slice_trim(kw_start, self.position);
        let ghost k = self.position as int;
        let prelude_start = self.position;
        let mut depth: usize = 0;
        while self.position < self.chars.len() && !(depth == 0 && (self.chars[self.position] == '{'
            || self.chars[self.position] == ';'))
            invariant
                self.wf(),
                self.input == old(self).input,
                s == self.chars@,
                prelude_start <= self.position,
                depth <= self.position - prelude_start,
                prelude_end(s, self.position as int, depth as nat) == prelude_end(s, k, 0),
            decreases self.chars@.len() - self.position,
        {
            let c = self.chars[self.position];
            if c == '{' {
                depth = depth + 1;
            } else if c == '}' {
                if depth > 0 {
                    depth = depth - 1;
                }
            }
            self.advance();
        }
        let prelude = self.slice_trim(prelude_start, self.position);
        (keyword, prelude)
    }

    #[must_use]
    pub fn tokens(&mut self) -> (r: Vec<Token<'a>>)
        requires
            old(self).wf(),
        ensures
            final(self).wf(),
            final(self).text() == old(self).text(),
            views(r@) == lex_from(old(self).text(), old(self).pos(), seq![], false),
    {
        let mut tokens: Vec<Token<'a>> = Vec::new();
        // Each entry on the stack corresponds to an open `{`.
        // `true`  = declaration block (inside a selector rule: property: value)
        // `false` = container block (inside an at-rule: contains selectors+rules)
        let mut block_stack: Vec<bool> = Vec::new();
        // Will the NEXT `{` open a declaration block?
        let mut next_block_is_decl = false;
        let ghost s = self.chars@;
        let ghost goal = lex_from(s, self.position as int, seq![], false);
        loop
            invariant_except_break
                views(tokens@) + lex_from(s, self.position as int, block_stack@, next_block_is_decl)
                    == goal,
            invariant
                self.wf(),
                self.input == old(self).input,
                s == self.chars@,
                s == old(self).chars@,
            ensures
                views(tokens@) == goal,
            decreases self.chars@.len() - self.position,
        {
            let ghost p = self.position as int;
            let ghost before = tokens@;
            proof {
                lemma_line_col_bound(s, p);
            }
            let Some(c) = self.advance() else {
                tokens.push(Token::EOF);
                assert(views(tokens@) =~= views(before) + seq![TokenView::Eof]);
                break ;
            };
            let ghost q = p + 1;
            proof {
                lemma_scanners_advance(s, q);
                lemma_prelude_end_advance(s, keyword_end(s, q), 0);
            }
            let in_decl = block_stack.len() > 0 && block_stack[block_stack.len() - 1];
            if c == '{' {
                tokens.push(Token::BlockOpen { line: self.line, col: self.col });
                block_stack.push(next_block_is_decl);
                next_block_is_decl = false;
                assert(views(tokens@) =~= views(before) + seq![
                    TokenView::BlockOpen { line: line_at(s, q), col: col_at(s, q) },
                ]);
            } else if c == '}' {
                tokens.push(Token::BlockClose { line: self.line, col: self.col });
                block_stack.pop();
                assert(views(tokens@) =~= views(before) + seq![
                    TokenView::BlockClose { line: line_at(s, q), col: col_at(s, q) },
                ]);
            } else if c == ':' && in_decl {
                tokens.push(Token::Colon { line: self.line, col: self.col });
                assert(views(tokens@) =~= views(before) + seq![
                    TokenView::Colon { line: line_at(s, q), col: col_at(s, q) },
                ]);
            } else if c == ';' {
                tokens.push(Token::Semicolon { line: self.line, col: self.col });
                assert(views(tokens@) =~= views(before) + seq![
                    TokenView::Semicolon { line: line_at(s, q), col: col_at(s, q) },
                ]);
            } else if c == '/' && self.peek_char() == Some('*') {
                self.advance();
                proof {
                    lemma_scanners_advance(s, q + 1);
                }
                self.advance_until_comment_end();
            } else if c == '@' && !in_decl {
                let line = self.line;
                let col = self.col;
                let at_start = self.position;
                let (keyword, prelude) = self.scan_at_rule(at_start);
                tokens.push(Token::AtRule { keyword, prelude, line, col });
                let ghost k = keyword_end(s, q);
                // @font-face contains property:value pairs directly (declaration block);
                // all other at-rules use container blocks.
                next_block_is_decl = str_is(keyword, "font-face");
                proof {
                    reveal_strlit("font-face");
                    assert("font-face"@ =~= font_face_keyword());
                }
                assert(views(tokens@) =~= views(before) + seq![
                    TokenView::AtRule {
                        keyword: trim(s.subrange(q, k)),
                        prelude: trim(s.subrange(k, prelude_end(s, k, 0))),
                        line: line_at(s, q),
                        col: col_at(s, q),
                    },
                ]);
            } else if is_whitespace(c) {
                self.skip_whitespace();
            } else {
                let start_pos = self.position - 1;
                if in_decl {
                    // Inside a rule block: collect property name or value
                    self.skip_decl_text();
                    let value = self.slice_trim_end(start_pos, self.position);
                    let ghost e = self.position as int;
                    match self.peek_char() {
                        Some(n) => {
                            if n == ':' {
                                tokens.push(
                                    Token::Property { line: self.line, col: self.col, value },
                                );
                                assert(views(tokens@) =~= views(before) + seq![
                                    TokenView::Property {
                                        value: trim_end(s.subrange(p, e)),
                                        line: line_at(s, e),
                                        col: col_at(s, e),
                                    },
                                ]);
                            } else {
                                tokens.push(
                                    Token::Value { line: self.line, col: self.col, value },
                                );
                                assert(views(tokens@) =~= views(before) + seq![
                                    TokenView::Value {
                                        value: trim_end(s.subrange(p, e)),
                                        line: line_at(s, e),
                                        col: col_at(s, e),
                                    },
                                ]);
                            }
                        },
                        None => {},
                    }
                } else {
                    // Selector context: collect until `{`
                    self.skip_selector_text();
                    let raw = self.slice_trim_end(start_pos, self.position);
                    tokens.push(Token::Selector { line: self.line, col: self.col, value: raw });
                    next_block_is_decl = true;
                    let ghost e = self.position as int;
                    assert(views(tokens@) =~= views(before) + seq![
                        TokenView::Selector {
                            value: trim_end(s.subrange(p, e)),
                            line: line_at(s, e),
                            col: col_at(s, e),
                        },
                    ]);
                }
            }
        }
        tokens
    }
}

/// Whether the characters of `a` are those of `b`.
pub fn str_is(a: &str, b: &str) -> (r: bool)
    ensures
        r == (a@ == b@),
{
    let n = a.unicode_len();
    if n != b.unicode_len() {
        return false;
    }
    let mut i: usize = 0;
    while i < n
        invariant
            n == a@.len(),
            n == b@.len(),
            i <= n,
            forall|t: int| 0 <= t < i ==> a@[t] == b@[t],
        decreases n - i,
    {
        if a.get_char(i) != b.get_char(i) {
            return false;
        }
        i = i + 1;
    }
    assert(a@ =~= b@);
    true
}

} // verus!

verus! {

/// Every selector token's text is at most `n` characters long.
pub open spec fn selector_texts_within(ts: Seq<TokenView>, n: nat) -> bool {
    forall|i: int|
        0 <= i < ts.len() && ts[i] is Selector ==> (#[trigger] ts[i])->Selector_value.len() <= n
}

pub proof fn lemma_trim_len(x: Seq<char>)
    ensures
        trim_end(x).len() <= x.len(),
        trim(x).len() <= x.len(),
{
    crate::text::lemma_trim_end_is_prefix(x);
    crate::text::lemma_trim_start_is_suffix(x);
    crate::text::lemma_trim_end_is_prefix(trim_start(x));
}

/// The text of every selector token is a piece of the input, so no longer than it.
pub proof fn lemma_lex_selector_texts(s: Seq<char>, p: int, stack: Seq<bool>, nd: bool)
    ensures
        selector_texts_within(lex_from(s, p, stack, nd), s.len()),
    decreases s.len() - p,
{
    if 0 <= p < s.len() {
        let c = s[p];
        let q = p + 1;
        let in_decl = stack.len() > 0 && stack.last();
        lemma_scanners_advance(s, q);
        lemma_prelude_end_advance(s, keyword_end(s, q), 0);
        if q + 1 <= s.len() {
            lemma_scanners_advance(s, q + 1);
        }
        if c == '{' {
            lemma_lex_selector_texts(s, q, stack.push(nd), false);
        } else if c == '}' {
            lemma_lex_selector_texts(
                s,
                q,
                if stack.len() > 0 {
                    stack.drop_last()
                } else {
                    stack
                },
                nd,
            );
        } else if c == ':' && in_decl {
            lemma_lex_selector_texts(s, q, stack, nd);
        } else if c == ';' {
            lemma_lex_selector_texts(s, q, stack, nd);
        } else if c == '/' && q < s.len() && s[q] == '*' {
            lemma_lex_selector_texts(s, comment_end(s, q + 1), stack, nd);
        } else if c == '@' && !in_decl {
            let k = keyword_end(s, q);
            let e = prelude_end(s, k, 0);
            let keyword = trim(s.subrange(q, k));
            lemma_lex_selector_texts(s, e, stack, keyword == font_face_keyword());
        } else if is_ws(c) {
            lemma_lex_selector_texts(s, ws_end(s, q), stack, nd);
        } else if in_decl {
            lemma_lex_selector_texts(s, decl_text_end(s, q), stack, nd);
        } else {
            let e = selector_end(s, q);
            lemma_lex_selector_texts(s, e, stack, true);
            lemma_trim_len(s.subrange(p, e));
        }
    }
}

/// The token stream always ends with `EOF`, and `EOF` occurs nowhere else.
pub proof fn lemma_lex_ends_with_eof(s: Seq<char>, p: int, stack: Seq<bool>, nd: bool)
    ensures
        lex_from(s, p, stack, nd).len() > 0,
        lex_from(s, p, stack, nd).last() is Eof,
        forall|i: int|
            0 <= i < lex_from(s, p, stack, nd).len() - 1 ==> !(lex_from(s, p, stack, nd)[i] is Eof),
    decreases s.len() - p,
{
    if 0 <= p < s.len() {
        let c = s[p];
        let q = p + 1;
        let in_decl = stack.len() > 0 && stack.last();
        lemma_scanners_advance(s, q);
        lemma_prelude_end_advance(s, keyword_end(s, q), 0);
        if q + 1 <= s.len() {
            lemma_scanners_advance(s, q + 1);
        }
        if c == '{' {
            lemma_lex_ends_with_eof(s, q, stack.push(nd), false);
        } else if c == '}' {
            lemma_lex_ends_with_eof(
                s,
                q,
                if stack.len() > 0 {
                    stack.drop_last()
                } else {
                    stack
                },
                nd,
            );
        } else if c == ':' && in_decl {
            lemma_lex_ends_with_eof(s, q, stack, nd);
        } else if c == ';' {
            lemma_lex_ends_with_eof(s, q, stack, nd);
        } else if c == '/' && q < s.len() && s[q] == '*' {
            lemma_lex_ends_with_eof(s, comment_end(s, q + 1), stack, nd);
        } else if c == '@' && !in_decl {
            let k = keyword_end(s, q);
            let e = prelude_end(s, k, 0);
            let keyword = trim(s.subrange(q, k));
            lemma_lex_ends_with_eof(s, e, stack, keyword == font_face_keyword());
        } else if is_ws(c) {
            lemma_lex_ends_with_eof(s, ws_end(s, q), stack, nd);
        } else if in_decl {
            lemma_lex_ends_with_eof(s, decl_text_end(s, q), stack, nd);
        } else {
            lemma_lex_ends_with_eof(s, selector_end(s, q), stack, true);
        }
    }
}

} // verus!

verus! {

/// The short text that names a token: its kind and, where it has one, its text
/// (`Selector(value)`, `AtRule(@keyword prelude)`, `BlockOpen`, `EOF`, ...).
pub open spec fn token_name(t: TokenView) -> Seq<char> {
    match t {
        TokenView::Selector { value, .. } => "Selector("@ + value + ")"@,
        TokenView::Property { value, .. } => "Property("@ + value + ")"@,
        TokenView::Value { value, .. } => "Value("@ + value + ")"@,
        TokenView::BlockOpen { .. } => "BlockOpen"@,
        TokenView::BlockClose { .. } => "BlockClose"@,
        TokenView::Colon { .. } => "Colon"@,
        TokenView::Semicolon { .. } => "Semicolon"@,
        TokenView::AtRule { keyword, prelude, .. } => "AtRule(@"@ + keyword + " "@ + prelude + ")"@,
        TokenView::Eof => "EOF"@,
    }
}

fn wrapped(head: &str, value: &str) -> (r: String)
    ensures
        r@ == head@ + value@ + ")"@,
{
    let mut r = String::from_str(head);
    r.append(value);
    r.append(")");
    r
}

impl<'a> Token<'a> {
    /// The short text that names this token (what its `Debug` form shows).
    pub fn describe(&self) -> (r: String)
        ensures
            r@ == token_name(self@),
    {
        match self {
            Token::Selector { value, .. } => wrapped("Selector(", value),
            Token::Property { value, .. } => wrapped("Property(", value),
            Token::Value { value, .. } => wrapped("Value(", value),
            Token::BlockOpen { .. } => String::from_str("BlockOpen"),
            Token::BlockClose { .. } => String::from_str("BlockClose"),
            Token::Colon { .. } => String::from_str("Colon"),
            Token::Semicolon { .. } => String::from_str("Semicolon"),
            Token::AtRule { keyword, prelude, .. } => {
                let mut r = String::from_str("AtRule(@");
                r.append(keyword);
                r.append(" ");
                r.append(prelude);
                r.append(")");
                r
            },
            Token::EOF => String::from_str("EOF"),
        }
    }
}

} // verus!
