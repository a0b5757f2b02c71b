//! Grouping tokens into rules, and substituting CSS variables.
use std::borrow::Cow;

use vstd::prelude::*;

use crate::lexer::{views, Token, TokenView};
use crate::selector::{Selector, SelectorView, selector_of};
use crate::lexer::str_is;
use crate::text::{
    chars_of, ends_with, find, lemma_find_first, lemma_find_none, slice_ends_with, slice_find,
    slice_starts_with, split_on, starts_with, trim, trim_range,
};
use vstd::slice::slice_subrange;

verus! {

broadcast use vstd::seq_lib::group_seq_properties;

/// Parser that turns lexer tokens into `ParserToken` and builds a `Rule`
pub struct Parser<'a> {
    tokens: Vec<Token<'a>>,
}

pub enum ParserToken<'a> {
    Selector { value: &'a str },
    Property { value: &'a str },
    Value { value: &'a str },
}

/// The content of a parser token.
pub enum PTokView {
    Selector(Seq<char>),
    Property(Seq<char>),
    Value(Seq<char>),
}

impl<'a> View for ParserToken<'a> {
    type V = PTokView;

    open spec fn view(&self) -> PTokView {
        match *self {
            ParserToken::Selector { value } => PTokView::Selector(value@),
            ParserToken::Property { value } => PTokView::Property(value@),
            ParserToken::Value { value } => PTokView::Value(value@),
        }
    }
}

/// The parser token that a lexer token gives, if any.
pub open spec fn ptok_of(t: TokenView) -> Option<PTokView> {
    match t {
        TokenView::Selector { value, .. } => Some(PTokView::Selector(value)),
        TokenView::Property { value, .. } => Some(PTokView::Property(value)),
        TokenView::Value { value, .. } => Some(PTokView::Value(value)),
        _ => None,
    }
}

/// The selector, property and value tokens of `ts`, in order.
pub open spec fn ptoks(ts: Seq<TokenView>) -> Seq<PTokView>
    decreases ts.len(),
{
    if ts.len() == 0 {
        seq![]
    } else {
        match ptok_of(ts.last()) {
            Some(p) => ptoks(ts.drop_last()).push(p),
            None => ptoks(ts.drop_last()),
        }
    }
}

impl<'a> ParserToken<'a> {
    fn is_selector(&self) -> (r: bool)
        ensures
            r == (self@ is Selector),
    {
        match self {
            ParserToken::Selector { .. } => true,
            _ => false,
        }
    }

    #[must_use]
    pub fn from_token(token: &Token<'a>) -> (r: Option<Self>)
        ensures
            match r {
                Some(p) => ptok_of(token@) == Some(p@),
                None => ptok_of(token@) is None,
            },
    {
        match token {
            Token::Selector { value, .. } => Some(ParserToken::Selector { value }),
            Token::Property { value, .. } => Some(ParserToken::Property { value }),
            Token::Value { value, .. } => Some(ParserToken::Value { value }),
            _ => None,
        }
    }
}

// ---------------------------------------------------------------------------
// Rule
// ---------------------------------------------------------------------------

#[derive(Clone, Debug, PartialEq)]
pub struct Rule<'a> {
    pub selectors: Vec<Selector>,
    pub properties: Vec<Cow<'a, str>>,
    pub values: Vec<Cow<'a, str>>,
}

/// The content of a rule.
pub struct RuleView {
    pub selectors: Seq<SelectorView>,
    pub properties: Seq<Seq<char>>,
    pub values: Seq<Seq<char>>,
}

pub open spec fn cow_views<'a>(s: Seq<Cow<'a, str>>) -> Seq<Seq<char>> {
    s.map_values(|c: Cow<'a, str>| c@)
}

pub open spec fn selector_views(s: Seq<Selector>) -> Seq<SelectorView> {
    s.map_values(|c: Selector| c@)
}

impl<'a> View for Rule<'a> {
    type V = RuleView;

    open spec fn view(&self) -> RuleView {
        RuleView {
            selectors: selector_views(self.selectors@),
            properties: cow_views(self.properties@),
            values: cow_views(self.values@),
        }
    }
}

pub open spec fn rule_views<'a>(s: Seq<Rule<'a>>) -> Seq<RuleView> {
    s.map_values(|r: Rule<'a>| r@)
}

impl<'a> Rule<'a> {
    #[must_use]
    pub fn new_const() -> (r: Self)
        ensures
            r@.selectors.len() == 0,
            r@.properties.len() == 0,
            r@.values.len() == 0,
    {
        Self { selectors: Vec::new(), properties: Vec::new(), values: Vec::new() }
    }

    /// The (property, value) pairs of the rule, as far as both lists reach.
    pub fn iter_props<'b>(&'b self) -> (r: Vec<(&'b Cow<'a, str>, &'b Cow<'a, str>)>)
        ensures
            r@.len() == if self.properties@.len() <= self.values@.len() {
                self.properties@.len()
            } else {
                self.values@.len()
            },
            forall|i: int|
                0 <= i < r@.len() ==> r@[i].0@ == self@.properties[i] && r@[i].1@
                    == self@.values[i],
    {
        let n = if self.properties.len() <= self.values.len() {
            self.properties.len()
        } else {
            self.values.len()
        };
        let mut r: Vec<(&'b Cow<'a, str>, &'b Cow<'a, str>)> = Vec::new();
        let mut i: usize = 0;
        while i < n
            invariant
                n <= self.properties@.len(),
                n <= self.values@.len(),
                i <= n,
                r@.len() == i,
                forall|j: int|
                    0 <= j < i ==> r@[j].0@ == self@.properties[j] && r@[j].1@
                        == self@.values[j],
            decreases n - i,
        {
            r.push((&self.properties[i], &self.values[i]));
            i = i + 1;
        }
        r
    }

    /// Removes the property at `index` together with its value.
    pub fn remove(&mut self, index: usize)
        requires
            index < old(self).properties@.len(),
            index < old(self).values@.len(),
        ensures
            final(self)@.selectors == old(self)@.selectors,
            final(self)@.properties == old(self)@.properties.remove(index as int),
            final(self)@.values == old(self)@.values.remove(index as int),
    {
        self.properties.remove(index);
        self.values.remove(index);
        assert(cow_views(self.properties@) =~= cow_views(old(self).properties@).remove(
            index as int,
        ));
        assert(cow_views(self.values@) =~= cow_views(old(self).values@).remove(index as int));
    }
}

// ---------------------------------------------------------------------------
// Parser
// ---------------------------------------------------------------------------

/// The (property, value) pairs read from `pt[a..b]` two tokens at a time:
/// a pair is kept where a property is followed by a value, other pairs of
/// tokens are dropped, and so is a last odd token.
pub open spec fn prop_pairs(pt: Seq<PTokView>, a: int, b: int) -> Seq<(Seq<char>, Seq<char>)>
    decreases b - a,
{
    if a < 0 || a + 2 > b || b > pt.len() {
        seq![]
    } else {
        let rest = prop_pairs(pt, a + 2, b);
        match (pt[a], pt[a + 1]) {
            (PTokView::Property(p), PTokView::Value(v)) => seq![(p, v)] + rest,
            _ => rest,
        }
    }
}

/// The first selector token at or after `i` (or the end).
pub open spec fn next_selector(pt: Seq<PTokView>, i: int) -> int
    decreases pt.len() - i,
{
    if 0 <= i < pt.len() && !(pt[i] is Selector) {
        next_selector(pt, i + 1)
    } else {
        i
    }
}

pub proof fn lemma_next_selector(pt: Seq<PTokView>, i: int)
    requires
        0 <= i <= pt.len(),
    ensures
        i <= next_selector(pt, i) <= pt.len(),
        forall|k: int| i <= k < next_selector(pt, i) ==> !(pt[k] is Selector),
        next_selector(pt, i) < pt.len() ==> pt[next_selector(pt, i)] is Selector,
    decreases pt.len() - i,
{
    if i < pt.len() && !(pt[i] is Selector) {
        lemma_next_selector(pt, i + 1);
    }
}

/// The rule that a selector text and its (property, value) pairs make: one
/// selector per comma-separated part, each part trimmed.
pub open spec fn make_rule(sel: Seq<char>, pairs: Seq<(Seq<char>, Seq<char>)>) -> RuleView {
    RuleView {
        selectors: split_on(sel, ',').map_values(|part: Seq<char>| part_selector(part)),
        properties: pairs.map_values(|p: (Seq<char>, Seq<char>)| p.0),
        values: pairs.map_values(|p: (Seq<char>, Seq<char>)| p.1),
    }
}

/// The rules read from `pt` from position `i`: each selector token starts a
/// rule that takes the property and value tokens up to the next selector
/// token; tokens before the first selector are skipped.
pub open spec fn rules_from(pt: Seq<PTokView>, i: int) -> Seq<RuleView>
    decreases pt.len() - i,
{
    if i < 0 || i >= pt.len() {
        seq![]
    } else {
        proof {
            lemma_next_selector(pt, i + 1);
        }
        match pt[i] {
            PTokView::Selector(sel) => {
                let e = next_selector(pt, i + 1);
                seq![make_rule(sel, prop_pairs(pt, i + 1, e))] + rules_from(pt, e)
            },
            _ => rules_from(pt, i + 1),
        }
    }
}

/// The rules that a token stream describes.
pub open spec fn parse_rules(ts: Seq<TokenView>) -> Seq<RuleView> {
    rules_from(ptoks(ts), 0)
}

// ---------------------------------------------------------------------------
// Declarations pair each property with the value after it
// ---------------------------------------------------------------------------

/// The pair `(p, v)` stands in `pt` as a property token directly followed by
/// a value token, between `a` and `b`.
pub open spec fn pair_written(pt: Seq<PTokView>, a: int, b: int, p: Seq<char>, v: Seq<char>) -> bool {
    exists|k: int|
        a <= k && k + 1 < b && #[trigger] pt[k] == PTokView::Property(p) && pt[k + 1]
            == PTokView::Value(v)
}

proof fn lemma_pairs_written(pt: Seq<PTokView>, a: int, b: int)
    ensures
        forall|j: int|
            0 <= j < prop_pairs(pt, a, b).len() ==> pair_written(
                pt,
                a,
                b,
                #[trigger] prop_pairs(pt, a, b)[j].0,
                prop_pairs(pt, a, b)[j].1,
            ),
    decreases b - a,
{
    if !(a < 0 || a + 2 > b || b > pt.len()) {
        lemma_pairs_written(pt, a + 2, b);
        let rest = prop_pairs(pt, a + 2, b);
        let all = prop_pairs(pt, a, b);
        assert forall|j: int| 0 <= j < all.len() implies pair_written(
            pt,
            a,
            b,
            #[trigger] all[j].0,
            all[j].1,
        ) by {
            match (pt[a], pt[a + 1]) {
                (PTokView::Property(p), PTokView::Value(v)) => {
                    if j == 0 {
                        assert(pt[a] == PTokView::Property(all[j].0));
                    } else {
                        assert(all[j] == rest[j - 1]);
                        assert(pair_written(pt, a + 2, b, rest[j - 1].0, rest[j - 1].1));
                        let k = choose|k: int|
                            a + 2 <= k && k + 1 < b && #[trigger] pt[k] == PTokView::Property(
                                rest[j - 1].0,
                            ) && pt[k + 1] == PTokView::Value(rest[j - 1].1);
                        assert(pt[k] == PTokView::Property(all[j].0));
                    }
                },
                _ => {
                    assert(all[j] == rest[j]);
                    assert(pair_written(pt, a + 2, b, rest[j].0, rest[j].1));
                    let k = choose|k: int|
                        a + 2 <= k && k + 1 < b && #[trigger] pt[k] == PTokView::Property(
                            rest[j].0,
                        ) && pt[k + 1] == PTokView::Value(rest[j].1);
                    assert(pt[k] == PTokView::Property(all[j].0));
                },
            }
        }
    }
}

#[verifier::rlimit(40)]
proof fn lemma_rules_pairs_written(pt: Seq<PTokView>, i: int)
    ensures
        forall|m: int, j: int|
            0 <= m < rules_from(pt, i).len() && 0 <= j < rules_from(pt, i)[m].properties.len()
                ==> pair_written(
                pt,
                0,
                pt.len() as int,
                #[trigger] rules_from(pt, i)[m].properties[j],
                rules_from(pt, i)[m].values[j],
            ),
    decreases pt.len() - i,
{
    if !(i < 0 || i >= pt.len()) {
        lemma_next_selector(pt, i + 1);
        match pt[i] {
            PTokView::Selector(sel) => {
                let e = next_selector(pt, i + 1);
                lemma_rules_pairs_written(pt, e);
                lemma_pairs_written(pt, i + 1, e);
                let pairs = prop_pairs(pt, i + 1, e);
                let rs = rules_from(pt, i);
                let rest = rules_from(pt, e);
                assert forall|m: int, j: int|
                    0 <= m < rs.len() && 0 <= j < rs[m].properties.len() implies pair_written(
                    pt,
                    0,
                    pt.len() as int,
                    #[trigger] rs[m].properties[j],
                    rs[m].values[j],
                ) by {
                    if m == 0 {
                        let r = make_rule(sel, pairs);
                        assert(rs[0] == r);
                        assert(r.properties.len() == pairs.len());
                        assert(r.values.len() == pairs.len());
                        assert(r.properties[j] == pairs[j].0);
                        assert(r.values[j] == pairs[j].1);
                        assert(pair_written(pt, i + 1, e, pairs[j].0, pairs[j].1));
                        let k = choose|k: int|
                            i + 1 <= k && k + 1 < e && #[trigger] pt[k] == PTokView::Property(
                                pairs[j].0,
                            ) && pt[k + 1] == PTokView::Value(pairs[j].1);
                        assert(pt[k] == PTokView::Property(rs[m].properties[j]));
                    } else {
                        assert(rs[m] == rest[m - 1]);
                        assert(rest[m - 1].properties[j] == rs[m].properties[j]);
                    }
                }
            },
            _ => {
                lemma_rules_pairs_written(pt, i + 1);
                assert(rules_from(pt, i) == rules_from(pt, i + 1));
            },
        }
    }
}

/// Each declaration of a parsed rule pairs a property with the value that is
/// written directly after it (the `:` between them aside): the rule's `j`-th
/// value belongs to its `j`-th property.
pub proof fn law_declarations_pair_adjacent(ts: Seq<TokenView>)
    ensures
        forall|m: int, j: int|
            0 <= m < parse_rules(ts).len() && 0 <= j < parse_rules(ts)[m].properties.len()
                ==> parse_rules(ts)[m].properties.len() == parse_rules(ts)[m].values.len()
                && pair_written(
                ptoks(ts),
                0,
                ptoks(ts).len() as int,
                #[trigger] parse_rules(ts)[m].properties[j],
                parse_rules(ts)[m].values[j],
            ),
{
    lemma_rules_pairs_written(ptoks(ts), 0);
    lemma_rules_from_wf(ptoks(ts), 0);
}

/// Every selector token's text is short enough to have its specificity counted.
pub open spec fn selector_texts_fit(ts: Seq<TokenView>) -> bool {
    forall|i: int|
        0 <= i < ts.len() && ts[i] is Selector ==> (#[trigger] ts[i])->Selector_value.len()
            < u32::MAX
}

pub proof fn lemma_ptoks_fit(ts: Seq<TokenView>)
    requires
        selector_texts_fit(ts),
    ensures
        forall|i: int|
            0 <= i < ptoks(ts).len() && ptoks(ts)[i] is Selector ==> (#[trigger] ptoks(
                ts,
            )[i])->Selector_0.len() < u32::MAX,
    decreases ts.len(),
{
    if ts.len() > 0 {
        assert(selector_texts_fit(ts.drop_last())) by {
            assert forall|i: int|
                0 <= i < ts.drop_last().len() && ts.drop_last()[i] is Selector implies (
            #[trigger] ts.drop_last()[i])->Selector_value.len() < u32::MAX by {
                assert(ts.drop_last()[i] == ts[i]);
            }
        }
        lemma_ptoks_fit(ts.drop_last());
        assert(ts.last() == ts[ts.len() - 1]);
    }
}

/// The selector of one comma-separated part of a selector text.
pub open spec fn part_selector(part: Seq<char>) -> SelectorView {
    selector_of(trim(part))
}

proof fn lemma_split_step(s: Seq<char>, start: int, j: int)
    requires
        0 <= start <= j < s.len(),
        s[j] == ',',
        forall|t: int| start <= t < j ==> s[t] != ',',
    ensures
        split_on(s.subrange(start, s.len() as int), ',') == seq![s.subrange(start, j)] + split_on(
            s.subrange(j + 1, s.len() as int),
            ',',
        ),
{
    let piece = s.subrange(start, s.len() as int);
    lemma_find_first(piece, ',', j - start);
    assert(piece.skip(j - start + 1) =~= s.subrange(j + 1, s.len() as int));
    assert(piece.take(j - start) =~= s.subrange(start, j));
}

proof fn lemma_split_last(s: Seq<char>, start: int)
    requires
        0 <= start <= s.len(),
        forall|t: int| start <= t < s.len() ==> s[t] != ',',
    ensures
        split_on(s.subrange(start, s.len() as int), ',') == seq![s.subrange(start, s.len() as int)],
{
    let piece = s.subrange(start, s.len() as int);
    lemma_find_none(piece, ',');
}

/// The selectors of a comma-separated selector text.
#[verifier::spinoff_prover]
fn split_selectors(value: &str) -> (r: Vec<Selector>)
    requires
        value@.len() < u32::MAX,
    ensures
        selector_views(r@) == split_on(value@, ',').map_values(|part: Seq<char>| part_selector(part)),
{
    let chars = chars_of(value);
    let cs = chars.as_slice();
    let n = cs.len();
    let ghost s = cs@;
    let mut out: Vec<Selector> = Vec::new();
    let mut start: usize = 0;
    let mut j: usize = 0;
    assert(s.subrange(0, n as int) =~= s);
    while j <= n
        invariant_except_break
            start <= j <= n,
            forall|t: int| start <= t < j ==> s[t] != ',',
            selector_views(out@) + split_on(s.subrange(start as int, n as int), ',').map_values(
                |part: Seq<char>| part_selector(part),
            ) == split_on(s, ',').map_values(|part: Seq<char>| part_selector(part)),
        invariant
            s == cs@,
            s == value@,
            n == s.len(),
            n < u32::MAX,
        ensures
            selector_views(out@) == split_on(s, ',').map_values(|part: Seq<char>| part_selector(part)),
        decreases n + 1 - j,
    {
        let ghost before = out@;
        if j == n || cs[j] == ',' {
            let (a, b) = trim_range(cs, start, j);
            let sel = Selector::parse(value.substring_char(a, b));
            let ghost x = s.subrange(start as int, j as int);
            assert(sel@ == part_selector(x));
            out.push(sel);
            assert(selector_views(out@) =~= selector_views(before).push(part_selector(x)));
            if j == n {
                proof {
                    lemma_split_last(s, start as int);
                    assert(seq![x].map_values(|part: Seq<char>| part_selector(part)) =~= seq![
                        part_selector(x),
                    ]);
                    assert(selector_views(out@) =~= selector_views(before) + seq![x].map_values(
                        |part: Seq<char>| part_selector(part),
                    ));
                }
                break ;
            }
            proof {
                lemma_split_step(s, start as int, j as int);
                let rest = split_on(s.subrange(j + 1, n as int), ',');
                assert((seq![x] + rest).map_values(|part: Seq<char>| part_selector(part)) =~= seq![
                    part_selector(x),
                ] + rest.map_values(|part: Seq<char>| part_selector(part)));
                assert(selector_views(before) + seq![part_selector(x)] =~= selector_views(out@));
            }
            start = j + 1;
        }
        j = j + 1;
    }
    out
}

/// How many of the first `n` tokens are selectors.
pub open spec fn selector_tokens<'a>(ts: Seq<Token<'a>>, n: int) -> int
    decreases n,
{
    if n <= 0 {
        0
    } else {
        selector_tokens(ts, n - 1) + if ts[n - 1] is Selector {
            1int
        } else {
            0int
        }
    }
}

impl<'a> Parser<'a> {
    #[must_use]
    pub fn new(tokens: Vec<Token<'a>>) -> (r: Self)
        ensures
            r.tokens() == tokens@,
    {
        Self { tokens }
    }

    /// The tokens that this parser reads.
    pub closed spec fn tokens(&self) -> Seq<Token<'a>> {
        self.tokens@
    }

    fn selector_count(&self) -> (r: usize)
        ensures
            r == selector_tokens(self.tokens@, self.tokens@.len() as int),
    {
        let mut count: usize = 0;
        let mut i: usize = 0;
        while i < self.tokens.len()
            invariant
                i <= self.tokens@.len(),
                count == selector_tokens(self.tokens@, i as int),
                count <= i,
            decreases self.tokens@.len() - i,
        {
            if let Token::Selector { .. } = self.tokens[i] {
                count = count + 1;
            }
            i = i + 1;
        }
        count
    }

    /// The rules that the token stream describes.
    #[must_use]
    pub fn parse(self) -> (r: Vec<Rule<'a>>)
        requires
            selector_texts_fit(views(self.tokens())),
        ensures
            rule_views(r@) == parse_rules(views(self.tokens())),
    {
        let ghost ts = views(self.tokens@);
        let mut rules: Vec<Rule<'a>> = Vec::with_capacity(self.selector_count());
        // The selector, property and value tokens, in order.
        let mut tokens: Vec<ParserToken<'a>> = Vec::new();
        let mut k: usize = 0;
        while k < self.tokens.len()
            invariant
                ts == views(self.tokens@),
                k <= self.tokens@.len(),
                tokens@.map_values(|p: ParserToken<'a>| p@) == ptoks(ts.take(k as int)),
            decreases self.tokens@.len() - k,
        {
            let ghost before = tokens@;
            assert(ts.take(k + 1).drop_last() =~= ts.take(k as int));
            assert(ts.take(k + 1).last() == self.tokens@[k as int]@);
            if let Some(p) = ParserToken::from_token(&self.tokens[k]) {
                tokens.push(p);
                assert(tokens@.map_values(|p: ParserToken<'a>| p@) =~= before.map_values(
                    |p: ParserToken<'a>| p@,
                ).push(p@));
            }
            k = k + 1;
        }
        assert(ts.take(ts.len() as int) =~= ts);
        proof {
            lemma_ptoks_fit(ts);
        }
        let ghost pt = ptoks(ts);
        let n = tokens.len();
        let mut i: usize = 0;
        while i < n
            invariant
                pt == tokens@.map_values(|p: ParserToken<'a>| p@),
                n == pt.len(),
                i <= n,
                forall|t: int| 0 <= t < pt.len() && pt[t] is Selector ==> (#[trigger] pt[t])->Selector_0.len()
                    < u32::MAX,
                rule_views(rules@) + rules_from(pt, i as int) == rules_from(pt, 0),
            decreases n - i,
        {
            proof {
                lemma_next_selector(pt, i + 1);
            }
            let ghost before = rules@;
            match tokens[i] {
                ParserToken::Selector { value: selector } => {
                    assert(pt[i as int] == PTokView::Selector(selector@));
                    let mut rule = Rule::new_const();
                    rule.selectors = split_selectors(selector);
                    // The property and value tokens up to the next selector.
                    let mut e = i + 1;
                    while e < n && !tokens[e].is_selector()
                        invariant
                            pt == tokens@.map_values(|p: ParserToken<'a>| p@),
                            n == pt.len(),
                            i < e <= n,
                            next_selector(pt, e as int) == next_selector(pt, i + 1),
                        decreases n - e,
                    {
                        e = e + 1;
                    }
                    let mut a = i + 1;
                    while e - a >= 2
                        invariant
                            pt == tokens@.map_values(|p: ParserToken<'a>| p@),
                            n == pt.len(),
                            i < a <= e,
                            e <= n,
                            rule@.selectors == split_on(selector@, ',').map_values(
                                |part: Seq<char>| part_selector(part),
                            ),
                            make_rule(
                                selector@,
                                prop_pairs(pt, i + 1, e as int),
                            ) == ({
                                let rest = prop_pairs(pt, a as int, e as int);
                                RuleView {
                                    selectors: rule@.selectors,
                                    properties: rule@.properties + rest.map_values(
                                        |p: (Seq<char>, Seq<char>)| p.0,
                                    ),
                                    values: rule@.values + rest.map_values(
                                        |p: (Seq<char>, Seq<char>)| p.1,
                                    ),
                                }
                            }),
                        decreases e - a,
                    {
                        let ghost rest = prop_pairs(pt, a + 2, e as int);
                        let ghost rp = rule@.properties;
                        let ghost rv = rule@.values;
                        match (&tokens[a], &tokens[a + 1]) {
                            (
                                ParserToken::Property { value: prop_value },
                                ParserToken::Value { value },
                            ) => {
                                rule.properties.push(Cow::Borrowed(*prop_value));
                                rule.values.push(Cow::Borrowed(*value));
                                assert(rule@.properties =~= rp.push(prop_value@));
                                assert(rule@.values =~= rv.push(value@));
                                assert(prop_pairs(pt, a as int, e as int) == seq![
                                    (prop_value@, value@),
                                ] + rest);
                                assert(rp + (seq![(prop_value@, value@)] + rest).map_values(
                                    |p: (Seq<char>, Seq<char>)| p.0,
                                ) =~= rp.push(prop_value@) + rest.map_values(
                                    |p: (Seq<char>, Seq<char>)| p.0,
                                ));
                                assert(rv + (seq![(prop_value@, value@)] + rest).map_values(
                                    |p: (Seq<char>, Seq<char>)| p.1,
                                ) =~= rv.push(value@) + rest.map_values(
                                    |p: (Seq<char>, Seq<char>)| p.1,
                                ));
                            },
                            _ => {
                                assert(prop_pairs(pt, a as int, e as int) == rest);
                            },
                        }
                        a = a + 2;
                    }
                    assert(prop_pairs(pt, a as int, e as int) == Seq::<(Seq<char>, Seq<char>)>::empty());
                    assert(rule@.properties =~= rule@.properties + Seq::<(Seq<char>, Seq<char>)>::empty().map_values(
                        |p: (Seq<char>, Seq<char>)| p.0,
                    ));
                    assert(rule@.values =~= rule@.values + Seq::<(Seq<char>, Seq<char>)>::empty().map_values(
                        |p: (Seq<char>, Seq<char>)| p.1,
                    ));
                    rules.push(rule);
                    assert(rule_views(rules@) =~= rule_views(before).push(
                        make_rule(selector@, prop_pairs(pt, i + 1, e as int)),
                    ));
                    i = e;
                },
                _ => {
                    i = i + 1;
                },
            }
        }
        assert(rule_views(rules@) =~= rule_views(rules@) + rules_from(pt, n as int));
        rules
    }
}

} // verus!

verus! {

// ---------------------------------------------------------------------------
// CSS Variable replacement
// ---------------------------------------------------------------------------

/// A property that defines a variable: `--name`.
pub open spec fn is_var_def(k: Seq<char>) -> bool {
    starts_with(k, "--"@)
}

/// A value that refers to a variable: `var(...)`.
pub open spec fn is_var_ref(v: Seq<char>) -> bool {
    ends_with(v, ")"@) && starts_with(v, "var("@)
}

/// The variable that `var(--name)` or `var(--name, fallback)` names.
pub open spec fn var_name(v: Seq<char>) -> Seq<char> {
    let inner = v.subrange(4, v.len() - 1);
    match find(inner, ',') {
        Some(c) => trim(inner.take(c)),
        None => trim(inner),
    }
}

/// Rules are well formed where every property has its value.
pub open spec fn rules_wf(rules: Seq<RuleView>) -> bool {
    forall|i: int| 0 <= i < rules.len() ==> (#[trigger] rules[i]).properties.len() == rules[i].values.len()
}

/// Whether a rule has the selector `:root`.
pub open spec fn is_root_rule(r: RuleView) -> bool {
    exists|k: int| 0 <= k < r.selectors.len() && (#[trigger] r.selectors[k]).selector == ":root"@
}

/// The first rule at or after `i` that has the selector `:root`.
pub open spec fn root_from(rules: Seq<RuleView>, i: int) -> Option<int>
    decreases rules.len() - i,
{
    if i < 0 || i >= rules.len() {
        None
    } else if is_root_rule(rules[i]) {
        Some(i)
    } else {
        root_from(rules, i + 1)
    }
}

/// The variable definitions among the first `n` declarations of a rule, in order.
pub open spec fn var_defs(r: RuleView, n: int) -> Seq<(Seq<char>, Seq<char>)>
    decreases n,
{
    if n <= 0 || n > r.properties.len() || n > r.values.len() {
        seq![]
    } else if is_var_def(r.properties[n - 1]) {
        var_defs(r, n - 1).push((r.properties[n - 1], r.values[n - 1]))
    } else {
        var_defs(r, n - 1)
    }
}

/// The declarations among the first `n` that are not variable definitions.
pub open spec fn kept_decls(r: RuleView, n: int) -> Seq<(Seq<char>, Seq<char>)>
    decreases n,
{
    if n <= 0 || n > r.properties.len() || n > r.values.len() {
        seq![]
    } else if !is_var_def(r.properties[n - 1]) {
        kept_decls(r, n - 1).push((r.properties[n - 1], r.values[n - 1]))
    } else {
        kept_decls(r, n - 1)
    }
}

/// A rule without its variable definitions.
pub open spec fn without_defs(r: RuleView) -> RuleView {
    let kept = kept_decls(r, r.properties.len() as int);
    RuleView {
        selectors: r.selectors,
        properties: kept.map_values(|p: (Seq<char>, Seq<char>)| p.0),
        values: kept.map_values(|p: (Seq<char>, Seq<char>)| p.1),
    }
}

/// The value of the first definition of `name`, if any.
pub open spec fn lookup(defs: Seq<(Seq<char>, Seq<char>)>, name: Seq<char>) -> Option<Seq<char>>
    decreases defs.len(),
{
    if defs.len() == 0 {
        None
    } else if defs[0].0 == name {
        Some(defs[0].1)
    } else {
        lookup(defs.drop_first(), name)
    }
}

/// The fallback in `var(--name, fallback)`: the text after the first `,`,
/// trimmed; none where there is no `,`.
pub open spec fn var_fallback(v: Seq<char>) -> Option<Seq<char>> {
    let inner = v.subrange(4, v.len() - 1);
    match find(inner, ',') {
        Some(c) => Some(trim(inner.skip(c + 1))),
        None => None,
    }
}

/// A value with a variable reference replaced by the variable's value, where
/// the variable is defined, and by its fallback where it is not and the
/// reference gives one.
pub open spec fn substitute(v: Seq<char>, defs: Seq<(Seq<char>, Seq<char>)>) -> Seq<char> {
    if is_var_ref(v) {
        match lookup(defs, var_name(v)) {
            Some(x) => x,
            None => match var_fallback(v) {
                Some(f) => f,
                None => v,
            },
        }
    } else {
        v
    }
}

pub open spec fn substitute_rule(r: RuleView, defs: Seq<(Seq<char>, Seq<char>)>) -> RuleView {
    RuleView {
        selectors: r.selectors,
        properties: r.properties,
        values: r.values.map_values(|v: Seq<char>| substitute(v, defs)),
    }
}

/// The rules after variable substitution: the variables that the first `:root`
/// rule defines are removed from it and replace every `var(...)` value that
/// names one of them, in every rule; a `var(...)` value that names no defined
/// variable takes its fallback, where it gives one. Without a `:root` rule no
/// variable is defined.
pub open spec fn with_vars_replaced(rules: Seq<RuleView>) -> Seq<RuleView> {
    match root_from(rules, 0) {
        None => rules.map_values(|r: RuleView| substitute_rule(r, seq![])),
        Some(ri) => {
            let root = rules[ri];
            let defs = var_defs(root, root.properties.len() as int);
            rules.update(ri, without_defs(root)).map_values(
                |r: RuleView| substitute_rule(r, defs),
            )
        },
    }
}

fn is_var_definition(value: &str) -> (r: bool)
    ensures
        r == is_var_def(value@),
{
    let cs = chars_of(value);
    slice_starts_with(cs.as_slice(), "--")
}

fn is_var_reference(value: &str) -> (r: bool)
    ensures
        r == is_var_ref(value@),
{
    let cs = chars_of(value);
    slice_ends_with(cs.as_slice(), ")") && slice_starts_with(cs.as_slice(), "var(")
}

/// The variable name in `var(--name)` or `var(--name, fallback)`: the text
/// before the first `,`, trimmed.
pub fn get_var_name(value: &str) -> (r: &str)
    requires
        is_var_ref(value@),
    ensures
        r@ == var_name(value@),
{
    proof {
        reveal_strlit("var(");
        reveal_strlit(")");
    }
    let chars = chars_of(value);
    let cs = chars.as_slice();
    let n = cs.len();
    assert(n >= 5) by {
        assert(cs@.take(4) == "var("@);
        assert(cs@.skip(n - 1) == ")"@);
        assert(cs@.take(4)[3] == '(');
        assert(cs@.skip(n - 1)[0] == ')');
        if n == 4 {
            assert(cs@.take(4)[3] == cs@.skip(n - 1)[0]);
        }
    }
    let inner = slice_subrange(cs, 4, n - 1);
    match slice_find(inner, ',') {
        Some(comma) => {
            let (a, b) = trim_range(cs, 4, 4 + comma);
            assert(cs@.subrange(4, 4 + comma) =~= inner@.take(comma as int));
            value.substring_char(a, b)
        },
        None => {
            let (a, b) = trim_range(cs, 4, n - 1);
            value.substring_char(a, b)
        },
    }
}

/// The fallback in `var(--name, fallback)`: the text after the first `,`,
/// trimmed.
fn var_fallback_exec(value: &str) -> (r: Option<&str>)
    requires
        is_var_ref(value@),
    ensures
        match r {
            Some(f) => var_fallback(value@) == Some(f@),
            None => var_fallback(value@) is None,
        },
{
    proof {
        reveal_strlit("var(");
        reveal_strlit(")");
    }
    let chars = chars_of(value);
    let cs = chars.as_slice();
    let n = cs.len();
    assert(n >= 5) by {
        assert(cs@.take(4) == "var("@);
        assert(cs@.skip(n - 1) == ")"@);
        assert(cs@.take(4)[3] == '(');
        assert(cs@.skip(n - 1)[0] == ')');
        if n == 4 {
            assert(cs@.take(4)[3] == cs@.skip(n - 1)[0]);
        }
    }
    let inner = slice_subrange(cs, 4, n - 1);
    match slice_find(inner, ',') {
        Some(comma) => {
            let (a, b) = trim_range(cs, 4 + comma + 1, n - 1);
            assert(cs@.subrange(4 + comma + 1, n - 1) =~= inner@.skip(comma + 1));
            Some(value.substring_char(a, b))
        },
        None => None,
    }
}

/// The text of a `Cow<str>`.
pub fn cow_str<'a, 'b>(c: &'b Cow<'a, str>) -> (r: &'b str)
    ensures
        r@ == c@,
{
    match c {
        Cow::Borrowed(s) => *s,
        Cow::Owned(o) => o.as_str(),
    }
}

/// An owned copy of a text.
fn cow_to_string<'a>(c: &Cow<'a, str>) -> (r: String)
    ensures
        r@ == c@,
{
    match c {
        Cow::Borrowed(s) => (*s).to_owned(),
        Cow::Owned(o) => o.clone(),
    }
}

/// A copy of a text that borrows where the given one borrows.
fn cow_copy<'a>(c: &Cow<'a, str>) -> (r: Cow<'a, str>)
    ensures
        r@ == c@,
{
    match c {
        Cow::Borrowed(s) => Cow::Borrowed(*s),
        Cow::Owned(o) => Cow::Owned(o.clone()),
    }
}

fn is_root(rule: &Rule) -> (r: bool)
    ensures
        r == is_root_rule(rule@),
{
    let mut k: usize = 0;
    while k < rule.selectors.len()
        invariant
            k <= rule.selectors@.len(),
            forall|t: int| 0 <= t < k ==> rule@.selectors[t].selector != ":root"@,
        decreases rule.selectors@.len() - k,
    {
        if str_is(rule.selectors[k].selector.as_str(), ":root") {
            assert(rule@.selectors[k as int].selector == ":root"@);
            return true;
        }
        k = k + 1;
    }
    false
}

/// Collects the variable definitions of `root`, in order.
fn find_vars(root: &Rule, keys: &mut Vec<String>, values: &mut Vec<String>)
    requires
        old(keys)@.len() == 0,
        old(values)@.len() == 0,
        root@.properties.len() == root@.values.len(),
    ensures
        final(keys)@.len() == final(values)@.len(),
        ({
            let defs = var_defs(root@, root@.properties.len() as int);
            &&& defs.len() == final(keys)@.len()
            &&& forall|i: int|
                0 <= i < defs.len() ==> defs[i].0 == final(keys)@[i]@ && defs[i].1
                    == final(values)@[i]@
        }),
{
    let n = root.properties.len();
    let mut i: usize = 0;
    while i < n
        invariant
            n == root@.properties.len(),
            n == root@.values.len(),
            i <= n,
            keys@.len() == values@.len(),
            ({
                let defs = var_defs(root@, i as int);
                &&& defs.len() == keys@.len()
                &&& forall|t: int|
                    0 <= t < defs.len() ==> defs[t].0 == keys@[t]@ && defs[t].1 == values@[t]@
            }),
        decreases n - i,
    {
        if is_var_definition(cow_str(&root.properties[i])) {
            keys.push(cow_to_string(&root.properties[i]));
            values.push(cow_to_string(&root.values[i]));
        }
        i = i + 1;
    }
}

/// Removes the variable definitions from `root`.
fn remove_vars<'a>(root: &mut Rule<'a>)
    requires
        old(root)@.properties.len() == old(root)@.values.len(),
    ensures
        final(root)@ == without_defs(old(root)@),
        final(root)@.properties.len() == final(root)@.values.len(),
{
    let ghost r0 = root@;
    let n = root.properties.len();
    let mut props: Vec<Cow<'a, str>> = Vec::new();
    let mut vals: Vec<Cow<'a, str>> = Vec::new();
    let mut i: usize = 0;
    while i < n
        invariant
            r0 == root@,
            n == r0.properties.len(),
            n == r0.values.len(),
            i <= n,
            cow_views(props@) == kept_decls(r0, i as int).map_values(
                |p: (Seq<char>, Seq<char>)| p.0,
            ),
            cow_views(vals@) == kept_decls(r0, i as int).map_values(
                |p: (Seq<char>, Seq<char>)| p.1,
            ),
        decreases n - i,
    {
        let ghost kp = kept_decls(r0, i as int);
        if !is_var_definition(cow_str(&root.properties[i])) {
            let ghost bp = props@;
            let ghost bv = vals@;
            props.push(cow_copy(&root.properties[i]));
            vals.push(cow_copy(&root.values[i]));
            assert(cow_views(props@) =~= cow_views(bp).push(r0.properties[i as int]));
            assert(cow_views(vals@) =~= cow_views(bv).push(r0.values[i as int]));
            assert(kept_decls(r0, i + 1) == kp.push((r0.properties[i as int], r0.values[i as int])));
            assert(kp.push((r0.properties[i as int], r0.values[i as int])).map_values(
                |p: (Seq<char>, Seq<char>)| p.0,
            ) =~= kp.map_values(|p: (Seq<char>, Seq<char>)| p.0).push(r0.properties[i as int]));
            assert(kp.push((r0.properties[i as int], r0.values[i as int])).map_values(
                |p: (Seq<char>, Seq<char>)| p.1,
            ) =~= kp.map_values(|p: (Seq<char>, Seq<char>)| p.1).push(r0.values[i as int]));
        }
        i = i + 1;
    }
    root.properties = props;
    root.values = vals;
}

/// Replaces a `var(...)` value by the value of the variable it names, where
/// `keys` defines it, and otherwise by its fallback, where it gives one.
fn replace_var<'a>(value: &Cow<'a, str>, keys: &Vec<String>, values: &Vec<String>) -> (r: Cow<
    'a,
    str,
>)
    requires
        keys@.len() == values@.len(),
        is_var_ref(value@),
    ensures
        r@ == substitute(value@, defs_of(keys@, values@)),
{
    let name = get_var_name(cow_str(value));
    let ghost defs = keys@.map_values(|k: String| k@).zip_with(values@.map_values(|v: String| v@));
    let mut idx: usize = 0;
    while idx < keys.len()
        invariant
            keys@.len() == values@.len(),
            defs == keys@.map_values(|k: String| k@).zip_with(values@.map_values(|v: String| v@)),
            defs.len() == keys@.len(),
            name@ == var_name(value@),
            is_var_ref(value@),
            idx <= keys@.len(),
            lookup(defs, name@) == lookup(defs.skip(idx as int), name@),
        decreases keys@.len() - idx,
    {
        assert(defs.skip(idx as int)[0] == defs[idx as int]);
        assert(defs[idx as int] == (keys@[idx as int]@, values@[idx as int]@));
        if str_is(keys[idx].as_str(), name) {
            assert(defs.skip(idx as int)[0].0 == name@);
            assert(lookup(defs.skip(idx as int), name@) == Some(values@[idx as int]@));
            let r: Cow<'a, str> = Cow::Owned(values[idx].clone());
            assert(r@ == values@[idx as int]@);
            assert(name@ == var_name(value@));
            assert(lookup(defs, var_name(value@)) == Some(values@[idx as int]@));
            return r;
        }
        assert(defs.skip(idx as int).drop_first() =~= defs.skip(idx + 1));
        idx = idx + 1;
    }
    assert(defs.skip(idx as int) =~= Seq::<(Seq<char>, Seq<char>)>::empty());
    match var_fallback_exec(cow_str(value)) {
        Some(f) => Cow::Owned(f.to_owned()),
        None => cow_copy(value),
    }
}

/// Substitutes the `:root` variables in the rules (see `with_vars_replaced`).
pub fn replace_vars<'a>(rules: Vec<Rule<'a>>) -> (r: Vec<Rule<'a>>)
    requires
        rules_wf(rule_views(rules@)),
    ensures
        rule_views(r@) == with_vars_replaced(rule_views(rules@)),
{
    let ghost rv = rule_views(rules@);
    let mut i: usize = 0;
    let n = rules.len();
    while i < n && !is_root(&rules[i])
        invariant
            n == rules@.len(),
            rv == rule_views(rules@),
            i <= n,
            root_from(rv, 0) == root_from(rv, i as int),
        decreases n - i,
    {
        i = i + 1;
    }
    if i == n {
        let keys: Vec<String> = Vec::new();
        let values: Vec<String> = Vec::new();
        assert(defs_of(keys@, values@) =~= seq![]);
        return substitute_all(rules, &keys, &values);
    }
    replace_root_vars(i, rules)
}

/// The definitions that `keys` and `values` hold, pairwise.
pub open spec fn defs_of(keys: Seq<String>, values: Seq<String>) -> Seq<(Seq<char>, Seq<char>)> {
    keys.map_values(|k: String| k@).zip_with(values.map_values(|v: String| v@))
}

fn replace_root_vars<'a>(root_idx: usize, rules: Vec<Rule<'a>>) -> (r: Vec<Rule<'a>>)
    requires
        root_idx < rules@.len(),
        rules_wf(rule_views(rules@)),
    ensures
        ({
            let rv = rule_views(rules@);
            let root = rv[root_idx as int];
            let defs = var_defs(root, root.properties.len() as int);
            rule_views(r@) == rv.update(root_idx as int, without_defs(root)).map_values(
                |r: RuleView| substitute_rule(r, defs),
            )
        }),
{
    let ghost rv = rule_views(rules@);
    let mut rules = rules;
    let mut keys: Vec<String> = Vec::new();
    let mut values: Vec<String> = Vec::new();
    assert(rv[root_idx as int].properties.len() == rv[root_idx as int].values.len());
    find_vars(&rules[root_idx], &mut keys, &mut values);
    let ghost defs = var_defs(rv[root_idx as int], rv[root_idx as int].properties.len() as int);
    assert(defs_of(keys@, values@) =~= defs);
    let mut root = rules.remove(root_idx);
    remove_vars(&mut root);
    rules.insert(root_idx, root);
    assert(rule_views(rules@) =~= rv.update(root_idx as int, without_defs(rv[root_idx as int])));
    substitute_all(rules, &keys, &values)
}

/// Substitutes the definitions of `keys` and `values` in every value of the
/// rules.
fn substitute_all<'a>(rules: Vec<Rule<'a>>, keys: &Vec<String>, values: &Vec<String>) -> (r: Vec<
    Rule<'a>,
>)
    requires
        keys@.len() == values@.len(),
    ensures
        rule_views(r@) == rule_views(rules@).map_values(
            |r: RuleView| substitute_rule(r, defs_of(keys@, values@)),
        ),
{
    let ghost mid = rule_views(rules@);
    let ghost defs = defs_of(keys@, values@);
    let mut out: Vec<Rule<'a>> = Vec::new();
    let mut rest = rules;
    let ghost total = mid.len();
    while rest.len() > 0
        invariant
            rule_views(out@) == mid.take(out@.len() as int).map_values(
                |r: RuleView| substitute_rule(r, defs),
            ),
            rule_views(rest@) == mid.skip(out@.len() as int),
            out@.len() + rest@.len() == total,
            total == mid.len(),
            keys@.len() == values@.len(),
            defs == defs_of(keys@, values@),
        decreases rest@.len(),
    {
        let ghost k = out@.len() as int;
        let ghost before_rest = rest@;
        let mut rule = rest.remove(0);
        let ghost r0 = rule@;
        assert(r0 == mid[k]) by {
            assert(rule_views(before_rest)[0] == mid.skip(k)[0]);
        }
        assert(rule_views(rest@) =~= mid.skip(k + 1)) by {
            assert(rule_views(rest@) =~= rule_views(before_rest).drop_first());
        }
        let m = rule.values.len();
        let mut j: usize = 0;
        while j < m
            invariant
                m == rule.values@.len(),
                j <= m,
                rule@.selectors == r0.selectors,
                rule@.properties == r0.properties,
                rule@.values.len() == m,
                forall|t: int| 0 <= t < j ==> (#[trigger] rule.values@[t])@ == substitute(r0.values[t], defs),
                forall|t: int| j <= t < m ==> (#[trigger] rule.values@[t])@ == r0.values[t],
                keys@.len() == values@.len(),
                defs == defs_of(keys@, values@),
            decreases m - j,
        {
            assert(rule.values@[j as int]@ == r0.values[j as int]);
            if is_var_reference(cow_str(&rule.values[j])) {
                let nv = replace_var(&rule.values[j], keys, values);
                rule.values.set(j, nv);
            }
            assert(rule.values@[j as int]@ == substitute(r0.values[j as int], defs));
            j = j + 1;
        }
        assert(rule@ == substitute_rule(r0, defs)) by {
            assert(rule@.values =~= r0.values.map_values(|v: Seq<char>| substitute(v, defs)));
        }
        let ghost before_out = out@;
        out.push(rule);
        assert(rule_views(out@) =~= rule_views(before_out).push(substitute_rule(mid[k], defs)));
        assert(mid.take(k + 1).map_values(|r: RuleView| substitute_rule(r, defs)) =~= mid.take(
            k,
        ).map_values(|r: RuleView| substitute_rule(r, defs)).push(substitute_rule(mid[k], defs)));
    }
    assert(mid.take(total as int) =~= mid);
    out
}

} // verus!

verus! {

/// Parsed rules always pair each property with a value.
pub proof fn lemma_rules_from_wf(pt: Seq<PTokView>, i: int)
    ensures
        rules_wf(rules_from(pt, i)),
    decreases pt.len() - i,
{
    if 0 <= i < pt.len() {
        lemma_next_selector(pt, i + 1);
        match pt[i] {
            PTokView::Selector(sel) => {
                lemma_rules_from_wf(pt, next_selector(pt, i + 1));
            },
            _ => {
                lemma_rules_from_wf(pt, i + 1);
            },
        }
    }
}

pub proof fn lemma_root_from(rules: Seq<RuleView>, i: int)
    requires
        0 <= i,
    ensures
        root_from(rules, i) matches Some(k) ==> i <= k < rules.len(),
    decreases rules.len() - i,
{
    if i < rules.len() && !is_root_rule(rules[i]) {
        lemma_root_from(rules, i + 1);
    }
}

/// Substituting variables keeps every property with its value.
pub proof fn lemma_vars_replaced_wf(rules: Seq<RuleView>)
    requires
        rules_wf(rules),
    ensures
        rules_wf(with_vars_replaced(rules)),
        with_vars_replaced(rules).len() == rules.len(),
{
    lemma_root_from(rules, 0);
    match root_from(rules, 0) {
        None => {
            let out = with_vars_replaced(rules);
            assert forall|i: int| 0 <= i < out.len() implies (#[trigger] out[i]).properties.len()
                == out[i].values.len() by {
                assert(out[i] == substitute_rule(rules[i], seq![]));
            }
        },
        Some(ri) => {
            let root = rules[ri];
            let defs = var_defs(root, root.properties.len() as int);
            let upd = rules.update(ri, without_defs(root));
            assert(rules_wf(upd));
            let out = with_vars_replaced(rules);
            assert forall|i: int| 0 <= i < out.len() implies (#[trigger] out[i]).properties.len()
                == out[i].values.len() by {
                assert(out[i] == substitute_rule(upd[i], defs));
            }
        },
    }
}

} // verus!
