//! Style sheets: rules with their cascade order, and the at-rules beside them.
use std::borrow::Cow;

use smallvec::SmallVec;
use vstd::prelude::*;

use crate::at_rules::{
    import_rule_text, media_text, parse_font_face, parse_import_rule, parse_media_query,
    font_face_of, pair_views, FaceView, FontFace, ImportRule, ImportView, MediaQuery, QueryView,
};
use crate::declaration::{copy_decl, decl_kind, decl_safe, decl_text, opt_decl, DeclView, Declaration};
use crate::length::fits_depth;
use crate::lexer::{lex, str_is, views, Lexer, Token, TokenView};
use crate::parser::{
    parse_rules, replace_vars, rule_views, rules_wf, selector_texts_fit, with_vars_replaced,
    Parser, Rule, RuleView,
};
use crate::selector::{
    copy_pseudo, copy_selector, opt_pseudo_eq, PseudoClass, PseudoView, Selector, SelectorView,
    Specificity,
};
use crate::text::{chars_of, is_float_literal, trim, words};
use crate::units::Number;

verus! {

broadcast use vstd::seq_lib::group_seq_properties;

// ---------------------------------------------------------------------------
// Entries, media rules, keyframes
// ---------------------------------------------------------------------------

/// A rule of a style sheet as stored: one selector, the order in which it was
/// read (used for the cascade), and its declarations.
pub struct EntryView {
    pub selector: SelectorView,
    pub index: int,
    pub decls: Seq<DeclView>,
}

pub open spec fn decl_views(d: Seq<Declaration>) -> Seq<DeclView> {
    d.map_values(|x: Declaration| x@)
}

pub open spec fn entry_view(e: (Selector, usize, Vec<Declaration>)) -> EntryView {
    EntryView { selector: e.0@, index: e.1 as int, decls: decl_views(e.2@) }
}

pub open spec fn entry_views(s: Seq<(Selector, usize, Vec<Declaration>)>) -> Seq<EntryView> {
    s.map_values(|e: (Selector, usize, Vec<Declaration>)| entry_view(e))
}

/// An `@media` block: its query and the rules inside it.
#[derive(Debug, Clone)]
pub struct MediaRule {
    pub query: MediaQuery,
    /// (selector, source_index, declarations) — same format as StyleSheet::rules
    pub rules: Vec<(Selector, usize, Vec<Declaration>)>,
}

pub struct MediaRuleView {
    pub query: QueryView,
    pub rules: Seq<EntryView>,
}

impl View for MediaRule {
    type V = MediaRuleView;

    open spec fn view(&self) -> MediaRuleView {
        MediaRuleView { query: self.query@, rules: entry_views(self.rules@) }
    }
}

/// Where a keyframe stands: a percentage (`50%`), or a fraction of the
/// animation (`from` is 0, `to` is 1, a plain number is itself). Text that is
/// no number stands for 0.
#[derive(Clone, Debug)]
pub enum StopOffset {
    Percent(Number),
    Fraction(Number),
}

pub enum OffsetView {
    Percent(Seq<char>),
    Fraction(Seq<char>),
}

impl View for StopOffset {
    type V = OffsetView;

    open spec fn view(&self) -> OffsetView {
        match *self {
            StopOffset::Percent(n) => OffsetView::Percent(n@),
            StopOffset::Fraction(n) => OffsetView::Fraction(n@),
        }
    }
}

#[derive(Debug, Clone)]
pub struct KeyframeStop {
    pub at: StopOffset,
    pub declarations: Vec<Declaration>,
}

pub struct StopView {
    pub at: OffsetView,
    pub declarations: Seq<DeclView>,
}

impl View for KeyframeStop {
    type V = StopView;

    open spec fn view(&self) -> StopView {
        StopView { at: self.at@, declarations: decl_views(self.declarations@) }
    }
}

#[derive(Debug, Clone)]
pub struct Keyframes {
    pub name: String,
    pub stops: Vec<KeyframeStop>,
}

pub struct KeyframesView {
    pub name: Seq<char>,
    pub stops: Seq<StopView>,
}

impl View for Keyframes {
    type V = KeyframesView;

    open spec fn view(&self) -> KeyframesView {
        KeyframesView { name: self.name@, stops: self.stops@.map_values(|s: KeyframeStop| s@) }
    }
}

/// The position of the first keyframes named `name` at or after `i`.
pub open spec fn kf_index_from(kfs: Seq<KeyframesView>, name: Seq<char>, i: int) -> Option<int>
    decreases kfs.len() - i,
{
    if i < 0 || i >= kfs.len() {
        None
    } else if kfs[i].name == name {
        Some(i)
    } else {
        kf_index_from(kfs, name, i + 1)
    }
}

/// The position of the first keyframes named `name`.
pub open spec fn kf_index(kfs: Seq<KeyframesView>, name: Seq<char>) -> Option<int> {
    kf_index_from(kfs, name, 0)
}

/// Keyframes stored by name: a new set replaces the one of the same name, or
/// is added.
pub open spec fn kf_insert(kfs: Seq<KeyframesView>, k: KeyframesView) -> Seq<KeyframesView> {
    match kf_index(kfs, k.name) {
        Some(i) => kfs.update(i, k),
        None => kfs.push(k),
    }
}

/// Keyframes stored by name, where a set of that name is not stored yet.
pub open spec fn kf_insert_absent(kfs: Seq<KeyframesView>, k: KeyframesView) -> Seq<
    KeyframesView,
> {
    match kf_index(kfs, k.name) {
        Some(i) => kfs,
        None => kfs.push(k),
    }
}

/// No two keyframe sets share a name.
pub open spec fn kf_names_unique(kfs: Seq<KeyframesView>) -> bool {
    forall|i: int, j: int| 0 <= i < j < kfs.len() ==> kfs[i].name != kfs[j].name
}

// ---------------------------------------------------------------------------
// Reading a token stream
// ---------------------------------------------------------------------------

/// The declarations of the first `n` (property, value) pairs of a rule: those
/// whose property is known and whose value is accepted, in order.
pub open spec fn pair_decls(pairs: Seq<(Seq<char>, Seq<char>)>) -> Seq<DeclView>
    decreases pairs.len(),
{
    if pairs.len() == 0 {
        seq![]
    } else {
        let prev = pair_decls(pairs.drop_last());
        match decl_text(pairs.last().0, pairs.last().1) {
            Some(d) => prev.push(d),
            None => prev,
        }
    }
}

/// The (property, value) pairs of a rule.
pub open spec fn rule_pairs(r: RuleView) -> Seq<(Seq<char>, Seq<char>)> {
    Seq::new(r.properties.len(), |k: int| (r.properties[k], r.values[k]))
}

pub open spec fn rule_decls(r: RuleView) -> Seq<DeclView> {
    pair_decls(rule_pairs(r))
}

/// Every pair can be read without a panic.
pub open spec fn pairs_safe(pairs: Seq<(Seq<char>, Seq<char>)>) -> bool {
    forall|k: int| 0 <= k < pairs.len() ==> decl_safe(#[trigger] pairs[k].0, pairs[k].1)
}

pub open spec fn rules_safe(rules: Seq<RuleView>) -> bool {
    forall|i: int| 0 <= i < rules.len() ==> pairs_safe(rule_pairs(#[trigger] rules[i]))
}

/// The number of selectors in the first `n` rules.
pub open spec fn selector_count(rules: Seq<RuleView>, n: int) -> int
    decreases n,
{
    if n <= 0 {
        0
    } else {
        selector_count(rules, n - 1) + rules[n - 1].selectors.len()
    }
}

/// The entries of one rule: one per selector, numbered from `base`.
pub open spec fn rule_entries(r: RuleView, base: int) -> Seq<EntryView> {
    Seq::new(
        r.selectors.len(),
        |j: int| EntryView { selector: r.selectors[j], index: base + j, decls: rule_decls(r) },
    )
}

/// The entries of the first `n` rules, numbered from `start` in order.
pub open spec fn entries_upto(rules: Seq<RuleView>, n: int, start: int) -> Seq<EntryView>
    decreases n,
{
    if n <= 0 {
        seq![]
    } else {
        entries_upto(rules, n - 1, start) + rule_entries(
            rules[n - 1],
            start + selector_count(rules, n - 1),
        )
    }
}

pub open spec fn entries_of(rules: Seq<RuleView>, start: int) -> Seq<EntryView> {
    entries_upto(rules, rules.len() as int, start)
}

/// An at-rule of the token stream: with a `{...}` block (its tokens inside),
/// or a statement ended by `;`.
pub enum AtItem {
    Block { keyword: Seq<char>, prelude: Seq<char>, inner: Seq<TokenView> },
    Statement { keyword: Seq<char>, prelude: Seq<char> },
}

/// The `}` that closes a block whose content starts at `i`, with `depth`
/// blocks open; the end of the stream where it is missing.
pub open spec fn block_end(ts: Seq<TokenView>, i: int, depth: nat) -> int
    decreases ts.len() - i,
{
    if i < 0 || i >= ts.len() {
        ts.len() as int
    } else {
        match ts[i] {
            TokenView::BlockOpen { .. } => block_end(ts, i + 1, depth + 1),
            TokenView::BlockClose { .. } => if depth <= 1 {
                i
            } else {
                block_end(ts, i + 1, (depth - 1) as nat)
            },
            _ => block_end(ts, i + 1, depth),
        }
    }
}

/// The first `;` or end-of-file token at or after `i`.
pub open spec fn stmt_end(ts: Seq<TokenView>, i: int) -> int
    decreases ts.len() - i,
{
    if i < 0 || i >= ts.len() {
        ts.len() as int
    } else if ts[i] is Semicolon || ts[i] is Eof {
        i
    } else {
        stmt_end(ts, i + 1)
    }
}

pub proof fn lemma_block_end(ts: Seq<TokenView>, i: int, depth: nat)
    requires
        0 <= i,
    ensures
        i <= block_end(ts, i, depth) <= ts.len() || (i > ts.len() && block_end(ts, i, depth)
            == ts.len()),
    decreases ts.len() - i,
{
    if i < ts.len() {
        match ts[i] {
            TokenView::BlockOpen { .. } => lemma_block_end(ts, i + 1, depth + 1),
            TokenView::BlockClose { .. } => if depth > 1 {
                lemma_block_end(ts, i + 1, (depth - 1) as nat)
            },
            _ => lemma_block_end(ts, i + 1, depth),
        }
    }
}

pub proof fn lemma_stmt_end(ts: Seq<TokenView>, i: int)
    requires
        0 <= i <= ts.len(),
    ensures
        i <= stmt_end(ts, i) <= ts.len(),
    decreases ts.len() - i,
{
    if i < ts.len() && !(ts[i] is Semicolon || ts[i] is Eof) {
        lemma_stmt_end(ts, i + 1);
    }
}

/// The token stream split in two: the at-rules with their blocks, and the
/// tokens of all other rules.
pub struct Routed {
    pub top: Seq<TokenView>,
    pub items: Seq<AtItem>,
}

/// The position after an at-rule that starts at `i`.
pub open spec fn at_rule_next(ts: Seq<TokenView>, i: int) -> int {
    let j = i + 1;
    let e = if j < ts.len() && ts[j] is BlockOpen {
        block_end(ts, j + 1, 1)
    } else {
        stmt_end(ts, j)
    };
    if e < ts.len() {
        e + 1
    } else {
        e
    }
}

/// The at-rule that starts at `i`.
pub open spec fn at_rule_item(ts: Seq<TokenView>, i: int) -> AtItem {
    let keyword = ts[i]->AtRule_keyword;
    let prelude = ts[i]->AtRule_prelude;
    let j = i + 1;
    if j < ts.len() && ts[j] is BlockOpen {
        AtItem::Block { keyword, prelude, inner: ts.subrange(j + 1, block_end(ts, j + 1, 1)) }
    } else {
        AtItem::Statement { keyword, prelude }
    }
}

pub proof fn lemma_at_rule_next(ts: Seq<TokenView>, i: int)
    requires
        0 <= i < ts.len(),
    ensures
        i < at_rule_next(ts, i) <= ts.len(),
{
    let j = i + 1;
    if j < ts.len() && ts[j] is BlockOpen {
        lemma_block_end(ts, j + 1, 1);
    } else {
        lemma_stmt_end(ts, j);
    }
}

/// The at-rules and other tokens of `ts` from position `i`.
pub open spec fn route(ts: Seq<TokenView>, i: int) -> Routed
    decreases ts.len() - i,
{
    if i < 0 || i >= ts.len() {
        Routed { top: seq![], items: seq![] }
    } else {
        proof {
            lemma_at_rule_next(ts, i);
        }
        if ts[i] is AtRule {
            let rest = route(ts, at_rule_next(ts, i));
            Routed { top: rest.top, items: seq![at_rule_item(ts, i)] + rest.items }
        } else {
            let rest = route(ts, i + 1);
            Routed { top: seq![ts[i]] + rest.top, items: rest.items }
        }
    }
}

/// The (property, value) pairs of a declaration block's tokens from `i`: a
/// property token two tokens before a value token makes a pair.
pub open spec fn token_pairs(ts: Seq<TokenView>, i: int) -> Seq<(Seq<char>, Seq<char>)>
    decreases ts.len() - i,
{
    if i < 0 || i >= ts.len() {
        seq![]
    } else if ts[i] is Property && i + 2 < ts.len() && ts[i + 2] is Value {
        seq![(ts[i]->Property_value, ts[i + 2]->Value_value)] + token_pairs(ts, i + 3)
    } else {
        token_pairs(ts, i + 1)
    }
}

/// The position of a keyframe: `from`, `to`, a percentage or a number
/// (trimmed); text that is no number counts as 0.
pub open spec fn offset_text(s: Seq<char>) -> OffsetView {
    let t = trim(s);
    if t == "from"@ {
        OffsetView::Fraction("0"@)
    } else if t == "to"@ {
        OffsetView::Fraction("1"@)
    } else if crate::text::ends_with(t, "%"@) {
        let n = trim(t.take(t.len() - 1));
        if is_float_literal(n) {
            OffsetView::Percent(n)
        } else {
            OffsetView::Fraction("0"@)
        }
    } else if is_float_literal(t) {
        OffsetView::Fraction(t)
    } else {
        OffsetView::Fraction("0"@)
    }
}

/// Keyframe positions: `from` is the start and `to` the end, and a
/// percentage stays a percentage of the number written in front of `%`.
pub proof fn law_keyframe_positions(s: Seq<char>)
    ensures
        trim(s) == "from"@ ==> offset_text(s) == OffsetView::Fraction("0"@),
        trim(s) == "to"@ ==> offset_text(s) == OffsetView::Fraction("1"@),
        offset_text(s) matches OffsetView::Percent(n) ==> crate::text::ends_with(trim(s), "%"@)
            && n == trim(trim(s).take(trim(s).len() - 1)) && is_float_literal(n),
        offset_text(s) matches OffsetView::Fraction(n) ==> (trim(s) == "from"@ && n == "0"@) || (
        trim(s) == "to"@ && n == "1"@) || (is_float_literal(trim(s)) && n == trim(s)) || n
            == "0"@,
{
    reveal_strlit("from");
    reveal_strlit("to");
    assert("from"@.len() == 4);
    assert("to"@.len() == 2);
}

/// The first `}` at or after `i`.
pub open spec fn close_from(ts: Seq<TokenView>, i: int) -> int
    decreases ts.len() - i,
{
    if i < 0 || i >= ts.len() {
        ts.len() as int
    } else if ts[i] is BlockClose {
        i
    } else {
        close_from(ts, i + 1)
    }
}

pub proof fn lemma_close_from(ts: Seq<TokenView>, i: int)
    requires
        0 <= i <= ts.len(),
    ensures
        i <= close_from(ts, i) <= ts.len(),
    decreases ts.len() - i,
{
    if i < ts.len() && !(ts[i] is BlockClose) {
        lemma_close_from(ts, i + 1);
    }
}

/// The keyframe stops of a `@keyframes` block from position `i`, with the
/// (property, value) pairs of each: a selector token followed by a block.
pub open spec fn raw_stops(ts: Seq<TokenView>, i: int) -> Seq<(OffsetView, Seq<(Seq<char>, Seq<char>)>)>
    decreases ts.len() - i,
{
    if i < 0 || i >= ts.len() {
        seq![]
    } else if ts[i] is Selector {
        let at = offset_text(ts[i]->Selector_value);
        let j = i + 1;
        if j < ts.len() && ts[j] is BlockOpen {
            let e = close_from(ts, j + 1);
            proof {
                lemma_close_from(ts, j + 1);
            }
            let pairs = token_pairs(ts.subrange(j + 1, e), 0);
            seq![(at, pairs)] + raw_stops(ts, if e < ts.len() { e + 1 } else { e })
        } else {
            raw_stops(ts, j)
        }
    } else {
        raw_stops(ts, i + 1)
    }
}

pub open spec fn stop_view(s: (OffsetView, Seq<(Seq<char>, Seq<char>)>)) -> StopView {
    StopView { at: s.0, declarations: pair_decls(s.1) }
}

pub open spec fn stops_of(ts: Seq<TokenView>) -> Seq<StopView> {
    raw_stops(ts, 0).map_values(|s: (OffsetView, Seq<(Seq<char>, Seq<char>)>)| stop_view(s))
}

/// What the at-rules read so far have given: the next source index, and the
/// media rules, keyframes, font faces and imports.
pub struct AtState {
    pub next: int,
    pub media: Seq<MediaRuleView>,
    pub keyframes: Seq<KeyframesView>,
    pub faces: Seq<FaceView>,
    pub imports: Seq<ImportView>,
}

pub open spec fn is_keyframes_keyword(k: Seq<char>) -> bool {
    k == "keyframes"@ || k == "-webkit-keyframes"@
}

/// One at-rule read: `@media` adds a media rule whose selectors take the next
/// source indices; `@keyframes` stores keyframes by name; `@font-face` adds a
/// font face where it names a family; `@import` adds an import where its URL
/// reads; other at-rules are ignored.
pub open spec fn at_step(st: AtState, item: AtItem) -> AtState {
    match item {
        AtItem::Block { keyword, prelude, inner } => if keyword == "media"@ {
            let rules = parse_rules(inner);
            AtState {
                next: st.next + selector_count(rules, rules.len() as int),
                media: st.media.push(
                    MediaRuleView { query: media_text(prelude), rules: entries_of(rules, st.next) },
                ),
                ..st
            }
        } else if is_keyframes_keyword(keyword) {
            AtState {
                keyframes: kf_insert(
                    st.keyframes,
                    KeyframesView { name: prelude, stops: stops_of(inner) },
                ),
                ..st
            }
        } else if keyword == "font-face"@ {
            match font_face_of(token_pairs(inner, 0)) {
                Some(f) => AtState { faces: st.faces.push(f), ..st },
                None => st,
            }
        } else {
            st
        },
        AtItem::Statement { keyword, prelude } => if keyword == "import"@ {
            match import_rule_text(prelude) {
                Some(ir) => AtState { imports: st.imports.push(ir), ..st },
                None => st,
            }
        } else {
            st
        },
    }
}

/// The at-rules read in order, from nothing.
pub open spec fn at_fold(items: Seq<AtItem>) -> AtState
    decreases items.len(),
{
    if items.len() == 0 {
        AtState { next: 0, media: seq![], keyframes: seq![], faces: seq![], imports: seq![] }
    } else {
        at_step(at_fold(items.drop_last()), items.last())
    }
}

/// Whether an at-rule can be read without a panic: the declarations it holds
/// must be (see `decl_safe`), and the preludes that are parsed must fit the
/// counters of the length parser.
pub open spec fn item_safe(item: AtItem) -> bool {
    match item {
        AtItem::Block { keyword, prelude, inner } => if keyword == "media"@ {
            fits_depth(prelude) && rules_safe(parse_rules(inner))
        } else if is_keyframes_keyword(keyword) {
            forall|k: int|
                0 <= k < raw_stops(inner, 0).len() ==> pairs_safe(#[trigger] raw_stops(inner, 0)[k].1)
        } else {
            true
        },
        AtItem::Statement { keyword, prelude } => keyword == "import"@ ==> fits_depth(prelude),
    }
}

/// The content of a style sheet.
pub struct SheetView {
    pub rules: Seq<EntryView>,
    pub media_rules: Seq<MediaRuleView>,
    pub keyframes: Seq<KeyframesView>,
    pub font_faces: Seq<FaceView>,
    pub import_rules: Seq<ImportView>,
}

/// The rules outside at-rules, with `:root` variables substituted.
pub open spec fn top_rules(s: Seq<char>) -> Seq<RuleView> {
    with_vars_replaced(parse_rules(route(lex(s), 0).top))
}

/// The style sheet that a CSS text describes: the at-rules are read in order,
/// then the other rules, whose selectors take the source indices after those
/// of the `@media` rules.
pub open spec fn sheet_text(s: Seq<char>) -> SheetView {
    let st = at_fold(route(lex(s), 0).items);
    SheetView {
        rules: entries_of(top_rules(s), st.next),
        media_rules: st.media,
        keyframes: st.keyframes,
        font_faces: st.faces,
        import_rules: st.imports,
    }
}

/// Whether a CSS text can be read without a panic, and its source indices fit
/// in a `usize`.
pub open spec fn sheet_safe(s: Seq<char>) -> bool {
    let items = route(lex(s), 0).items;
    let top = top_rules(s);
    &&& forall|k: int| 0 <= k < items.len() ==> item_safe(#[trigger] items[k])
    &&& rules_safe(top)
    &&& at_fold(items).next + selector_count(top, top.len() as int) <= usize::MAX
}

// ---------------------------------------------------------------------------
// Building entries
// ---------------------------------------------------------------------------

pub proof fn lemma_selector_count_mono(rules: Seq<RuleView>, a: int, b: int)
    requires
        0 <= a <= b,
    ensures
        selector_count(rules, a) <= selector_count(rules, b),
    decreases b - a,
{
    if a < b {
        lemma_selector_count_mono(rules, a, b - 1);
    }
}

/// The declarations of a rule, where every pair can be read without a panic.
fn rule_decl_vec(rule: &Rule<'_>) -> (r: Option<Vec<Declaration>>)
    requires
        rule@.properties.len() == rule@.values.len(),
    ensures
        r is Some <==> pairs_safe(rule_pairs(rule@)),
        r matches Some(d) ==> decl_views(d@) == rule_decls(rule@),
{
    let ghost p = rule_pairs(rule@);
    let pairs = rule.iter_props();
    let mut out: Vec<Declaration> = Vec::new();
    let mut k: usize = 0;
    while k < pairs.len()
        invariant
            k <= pairs@.len(),
            pairs@.len() == p.len(),
            p == rule_pairs(rule@),
            forall|i: int| 0 <= i < pairs@.len() ==> (#[trigger] pairs@[i]).0@ == p[i].0
                && pairs@[i].1@ == p[i].1,
            forall|i: int| 0 <= i < k ==> decl_safe(#[trigger] p[i].0, p[i].1),
            decl_views(out@) == pair_decls(p.take(k as int)),
        decreases pairs@.len() - k,
    {
        let (key, value) = pairs[k];
        assert(p.take(k + 1).drop_last() =~= p.take(k as int));
        if !crate::declaration::is_decl_safe(crate::parser::cow_str(key), crate::parser::cow_str(value)) {
            assert(!decl_safe(p[k as int].0, p[k as int].1));
            return None;
        }
        let ghost before = out@;
        match Declaration::from_cow((key, value)) {
            Some(d) => {
                out.push(d);
                assert(decl_views(out@) =~= decl_views(before).push(d@));
            },
            None => {},
        }
        k = k + 1;
    }
    assert(p.take(k as int) =~= p);
    Some(out)
}

/// The entries of `rules`, numbered from `*next`, appended to `out`; `false`
/// where a declaration cannot be read without a panic or an index would
/// overflow.
fn expand_rules(
    rules: &Vec<Rule<'_>>,
    next: &mut usize,
    out: &mut Vec<(Selector, usize, Vec<Declaration>)>,
) -> (ok: bool)
    requires
        rules_wf(rule_views(rules@)),
    ensures
        ok == (rules_safe(rule_views(rules@)) && *old(next) + selector_count(
            rule_views(rules@),
            rules@.len() as int,
        ) <= usize::MAX),
        ok ==> entry_views(final(out)@) == entry_views(old(out)@) + entries_of(
            rule_views(rules@),
            *old(next) as int,
        ),
        ok ==> *final(next) == *old(next) + selector_count(
            rule_views(rules@),
            rules@.len() as int,
        ),
{
    let ghost rv = rule_views(rules@);
    let ghost start = *next as int;
    let ghost out0 = entry_views(out@);
    let mut i: usize = 0;
    while i < rules.len()
        invariant
            i <= rules@.len(),
            rv == rule_views(rules@),
            rules_wf(rv),
            forall|k: int| 0 <= k < i ==> pairs_safe(rule_pairs(#[trigger] rv[k])),
            *next == start + selector_count(rv, i as int),
            start == *old(next),
            out0 == entry_views(old(out)@),
            entry_views(out@) == out0 + entries_upto(rv, i as int, start),
        decreases rules@.len() - i,
    {
        let rule = &rules[i];
        assert(rv[i as int] == rule@);
        assert(rv[i as int].properties.len() == rv[i as int].values.len());
        let decls = match rule_decl_vec(rule) {
            Some(d) => d,
            None => {
                assert(!pairs_safe(rule_pairs(rv[i as int])));
                return false;
            },
        };
        let ghost base = *next as int;
        let ghost before = entry_views(out@);
        let mut j: usize = 0;
        while j < rule.selectors.len()
            invariant
                j <= rule.selectors@.len(),
                i < rv.len(),
                rv == rule_views(rules@),
                rv.len() == rules@.len(),
                rv[i as int] == rule@,
                rule@.selectors.len() == rule.selectors@.len(),
                *next == base + j,
                base == start + selector_count(rv, i as int),
                start == *old(next),
                decl_views(decls@) == rule_decls(rule@),
                entry_views(out@) == before + rule_entries(rule@, base).take(j as int),
            decreases rule.selectors@.len() - j,
        {
            if *next == usize::MAX {
                proof {
                    lemma_selector_count_mono(rv, i + 1, rv.len() as int);
                    assert(selector_count(rv, i + 1) == selector_count(rv, i as int)
                        + rv[i as int].selectors.len());
                }
                return false;
            }
            let sel = copy_selector(&rule.selectors[j]);
            let d = crate::declaration::copy_decls(&decls);
            let ghost mid = out@;
            out.push((sel, *next, d));
            proof {
                assert(decl_views(d@) =~= decl_views(decls@));
                assert(entry_views(out@) =~= entry_views(mid).push(entry_view((sel, *next, d))));
                assert(rule_entries(rule@, base).take(j + 1) =~= rule_entries(rule@, base).take(
                    j as int,
                ).push(rule_entries(rule@, base)[j as int]));
            }
            *next = *next + 1;
            j = j + 1;
        }
        assert(rule_entries(rule@, base).take(j as int) =~= rule_entries(rule@, base));
        i = i + 1;
    }
    assert(rv.len() == rules@.len());
    true
}

// ---------------------------------------------------------------------------
// Keyframes and declaration blocks
// ---------------------------------------------------------------------------

pub open spec fn kf_views(kfs: Seq<Keyframes>) -> Seq<KeyframesView> {
    kfs.map_values(|k: Keyframes| k@)
}

pub proof fn lemma_kf_index_from(kfs: Seq<KeyframesView>, name: Seq<char>, i: int)
    requires
        0 <= i,
    ensures
        kf_index_from(kfs, name, i) matches Some(k) ==> i <= k < kfs.len() && kfs[k].name
            == name,
        kf_index_from(kfs, name, i) is None ==> forall|k: int|
            i <= k < kfs.len() ==> (#[trigger] kfs[k]).name != name,
    decreases kfs.len() - i,
{
    if i < kfs.len() && kfs[i].name != name {
        lemma_kf_index_from(kfs, name, i + 1);
    }
}

/// Inserting keyframes by name keeps the names unique.
pub proof fn lemma_kf_insert_unique(kfs: Seq<KeyframesView>, k: KeyframesView)
    requires
        kf_names_unique(kfs),
    ensures
        kf_names_unique(kf_insert(kfs, k)),
        kf_names_unique(kf_insert_absent(kfs, k)),
{
    lemma_kf_index_from(kfs, k.name, 0);
    match kf_index(kfs, k.name) {
        Some(idx) => {
            let r = kfs.update(idx, k);
            assert forall|i: int, j: int| 0 <= i < j < r.len() implies r[i].name != r[j].name by {
                if i == idx {
                    assert(kfs[j].name != kfs[idx].name || j == idx);
                } else if j == idx {
                    assert(kfs[i].name != kfs[idx].name);
                }
            }
        },
        None => {
            let r = kfs.push(k);
            assert forall|i: int, j: int| 0 <= i < j < r.len() implies r[i].name != r[j].name by {
                if j == kfs.len() {
                    assert(kfs[i].name != k.name);
                }
            }
        },
    }
}

/// Stores keyframes by name: replaces the set of the same name, or adds it.
fn insert_keyframes(kfs: &mut Vec<Keyframes>, k: Keyframes)
    ensures
        kf_views(final(kfs)@) == kf_insert(kf_views(old(kfs)@), k@),
{
    let ghost kv = kf_views(kfs@);
    let mut i: usize = 0;
    while i < kfs.len()
        invariant
            i <= kfs@.len(),
            kv == kf_views(kfs@),
            kfs@ == old(kfs)@,
            kf_index(kv, k@.name) == kf_index_from(kv, k@.name, i as int),
        decreases kfs@.len() - i,
    {
        if str_is(kfs[i].name.as_str(), k.name.as_str()) {
            assert(kf_index_from(kv, k@.name, i as int) == Some(i as int));
            let ghost kk = k@;
            kfs.set(i, k);
            assert(kf_views(kfs@) =~= kv.update(i as int, kk));
            return;
        }
        i = i + 1;
    }
    let ghost kk = k@;
    kfs.push(k);
    assert(kf_views(kfs@) =~= kv.push(kk));
}

/// Stores keyframes by name where no set of that name is stored yet.
fn insert_keyframes_absent(kfs: &mut Vec<Keyframes>, k: Keyframes)
    ensures
        kf_views(final(kfs)@) == kf_insert_absent(kf_views(old(kfs)@), k@),
{
    let ghost kv = kf_views(kfs@);
    let mut i: usize = 0;
    while i < kfs.len()
        invariant
            i <= kfs@.len(),
            kv == kf_views(kfs@),
            kfs@ == old(kfs)@,
            kf_index(kv, k@.name) == kf_index_from(kv, k@.name, i as int),
        decreases kfs@.len() - i,
    {
        if str_is(kfs[i].name.as_str(), k.name.as_str()) {
            assert(kf_index_from(kv, k@.name, i as int) == Some(i as int));
            return;
        }
        i = i + 1;
    }
    let ghost kk = k@;
    kfs.push(k);
    assert(kf_views(kfs@) =~= kv.push(kk));
}

/// The (property, value) pairs of a declaration block's tokens.
fn extract_decl_pairs(tokens: &[Token<'_>]) -> (r: Vec<(String, String)>)
    ensures
        pair_views(r@) == token_pairs(views(tokens@), 0),
{
    let ghost ts = views(tokens@);
    let n = tokens.len();
    let mut pairs: Vec<(String, String)> = Vec::new();
    let mut i: usize = 0;
    while i < n
        invariant
            i <= n,
            n == tokens@.len(),
            ts == views(tokens@),
            pair_views(pairs@) + token_pairs(ts, i as int) == token_pairs(ts, 0),
        decreases n - i,
    {
        if let Token::Property { value: prop, .. } = tokens[i] {
            if n - i > 2 {
                if let Token::Value { value: val, .. } = tokens[i + 2] {
                    let ghost before = pairs@;
                    pairs.push((prop.to_owned(), val.to_owned()));
                    assert(pair_views(pairs@) =~= pair_views(before).push((prop@, val@)));
                    assert(pair_views(pairs@) + token_pairs(ts, i + 3) =~= pair_views(before)
                        + token_pairs(ts, i as int));
                    i = i + 3;
                    continue;
                }
            }
        }
        i = i + 1;
    }
    pairs
}

/// The declarations of (property, value) pairs, where every pair can be read
/// without a panic.
fn pairs_to_decls(pairs: &Vec<(String, String)>) -> (r: Option<Vec<Declaration>>)
    ensures
        r is Some <==> pairs_safe(pair_views(pairs@)),
        r matches Some(d) ==> decl_views(d@) == pair_decls(pair_views(pairs@)),
{
    let ghost p = pair_views(pairs@);
    let mut out: Vec<Declaration> = Vec::new();
    let mut k: usize = 0;
    while k < pairs.len()
        invariant
            k <= pairs@.len(),
            p == pair_views(pairs@),
            forall|i: int| 0 <= i < k ==> decl_safe(#[trigger] p[i].0, p[i].1),
            decl_views(out@) == pair_decls(p.take(k as int)),
        decreases pairs@.len() - k,
    {
        let key = pairs[k].0.as_str();
        let value = pairs[k].1.as_str();
        assert(p[k as int] == (key@, value@));
        assert(p.take(k + 1).drop_last() =~= p.take(k as int));
        if !crate::declaration::is_decl_safe(key, value) {
            assert(!decl_safe(p[k as int].0, p[k as int].1));
            return None;
        }
        let ghost before = out@;
        match crate::declaration::decl_from(key, value) {
            Some(d) => {
                out.push(d);
                assert(decl_views(out@) =~= decl_views(before).push(d@));
            },
            None => {},
        }
        k = k + 1;
    }
    assert(p.take(k as int) =~= p);
    Some(out)
}

/// The declarations of a declaration block's tokens, where every pair can be
/// read without a panic.
fn parse_decls_from_tokens(tokens: &[Token<'_>]) -> (r: Option<Vec<Declaration>>)
    ensures
        r is Some <==> pairs_safe(token_pairs(views(tokens@), 0)),
        r matches Some(d) ==> decl_views(d@) == pair_decls(token_pairs(views(tokens@), 0)),
{
    let pairs = extract_decl_pairs(tokens);
    pairs_to_decls(&pairs)
}

/// The text of a number.
fn number_lit(text: &str) -> (r: Number)
    ensures
        r@ == text@,
{
    Number(text.to_string())
}

/// The position of a keyframe (see `offset_text`).
fn parse_keyframe_position(s: &str) -> (r: StopOffset)
    ensures
        r@ == offset_text(s@),
{
    let cs = chars_of(s);
    let t = crate::text::trim_slice(cs.as_slice());
    if crate::selector::slice_is(t, "from") {
        return StopOffset::Fraction(number_lit("0"));
    }
    if crate::selector::slice_is(t, "to") {
        return StopOffset::Fraction(number_lit("1"));
    }
    if crate::text::slice_ends_with(t, "%") {
        proof {
            reveal_strlit("%");
        }
        let n = crate::text::trim_slice(vstd::slice::slice_subrange(t, 0, t.len() - 1));
        return match crate::values::number_of(n) {
            Some(v) => StopOffset::Percent(v),
            None => StopOffset::Fraction(number_lit("0")),
        };
    }
    match crate::values::number_of(t) {
        Some(v) => StopOffset::Fraction(v),
        None => StopOffset::Fraction(number_lit("0")),
    }
}

/// The first `}` token at or after `i`.
fn find_close(tokens: &[Token<'_>], i: usize) -> (r: usize)
    requires
        i <= tokens@.len(),
    ensures
        r == close_from(views(tokens@), i as int),
{
    let mut k = i;
    while k < tokens.len() && !matches!(tokens[k], Token::BlockClose { .. })
        invariant
            i <= k <= tokens@.len(),
            close_from(views(tokens@), i as int) == close_from(views(tokens@), k as int),
        decreases tokens@.len() - k,
    {
        k = k + 1;
    }
    k
}

/// The stops of a `@keyframes` block, where every declaration can be read
/// without a panic.
fn parse_keyframe_stops(tokens: &[Token<'_>]) -> (r: Option<Vec<KeyframeStop>>)
    ensures
        r is Some <==> (forall|k: int|
            0 <= k < raw_stops(views(tokens@), 0).len() ==> pairs_safe(
                #[trigger] raw_stops(views(tokens@), 0)[k].1,
            )),
        r matches Some(st) ==> st@.map_values(|x: KeyframeStop| x@) == stops_of(views(tokens@)),
{
    let ghost ts = views(tokens@);
    let n = tokens.len();
    let mut stops: Vec<KeyframeStop> = Vec::new();
    let ghost mut done: Seq<(OffsetView, Seq<(Seq<char>, Seq<char>)>)> = seq![];
    let mut i: usize = 0;
    while i < n
        invariant
            i <= n,
            n == tokens@.len(),
            ts == views(tokens@),
            done + raw_stops(ts, i as int) == raw_stops(ts, 0),
            forall|k: int| 0 <= k < done.len() ==> pairs_safe(#[trigger] done[k].1),
            stops@.map_values(|x: KeyframeStop| x@) == done.map_values(
                |s: (OffsetView, Seq<(Seq<char>, Seq<char>)>)| stop_view(s),
            ),
        decreases n - i,
    {
        if let Token::Selector { value, .. } = tokens[i] {
            let at = parse_keyframe_position(value);
            let j = i + 1;
            if j < n && matches!(tokens[j], Token::BlockOpen { .. }) {
                let e = find_close(tokens, j + 1);
                proof {
                    lemma_close_from(ts, j + 1);
                }
                let block = vstd::slice::slice_subrange(tokens, j + 1, e);
                assert(views(block@) =~= ts.subrange(j + 1, e as int));
                let ghost pairs = token_pairs(views(block@), 0);
                let ghost raw = (at@, pairs);
                assert(raw_stops(ts, i as int) == seq![raw] + raw_stops(
                    ts,
                    if e < n { e + 1 } else { e as int },
                ));
                let declarations = match parse_decls_from_tokens(block) {
                    Some(d) => d,
                    None => {
                        assert((done + raw_stops(ts, i as int))[done.len() as int] == raw);
                        return None;
                    },
                };
                let ghost before = stops@;
                let stop = KeyframeStop { at, declarations };
                assert(stop@ == stop_view(raw));
                stops.push(stop);
                proof {
                    assert(stops@.map_values(|x: KeyframeStop| x@) =~= before.map_values(
                        |x: KeyframeStop| x@,
                    ).push(stop_view(raw)));
                    assert(done.push(raw).map_values(
                        |s: (OffsetView, Seq<(Seq<char>, Seq<char>)>)| stop_view(s),
                    ) =~= done.map_values(
                        |s: (OffsetView, Seq<(Seq<char>, Seq<char>)>)| stop_view(s),
                    ).push(stop_view(raw)));
                    assert(done.push(raw) + raw_stops(ts, if e < n { e + 1 } else { e as int })
                        =~= done + raw_stops(ts, i as int));
                    done = done.push(raw);
                }
                i = if e < n {
                    e + 1
                } else {
                    e
                };
            } else {
                i = j;
            }
        } else {
            i = i + 1;
        }
    }
    proof {
        assert(done =~= raw_stops(ts, 0));
    }
    Some(stops)
}

// ---------------------------------------------------------------------------
// StyleSheet
// ---------------------------------------------------------------------------

/// Represents a CSS style sheet with parsed rules and declarations.
///
/// # Example
/// ```
/// let css = ".example { color: red; }";
/// let stylesheet = cssengine::style::StyleSheet::from_css(css);
/// ```
pub struct StyleSheet {
    /// Each entry is `(selector, source_index, declarations)`.
    /// `source_index` is the order in which rules were parsed (used for cascade).
    rules: Vec<(Selector, usize, Vec<Declaration>)>,
    media_rules: Vec<MediaRule>,
    /// Keyframes by name: no two share a name.
    keyframes: Vec<Keyframes>,
    font_faces: Vec<FontFace>,
    /// Unresolved `@import` rules, in source order.
    import_rules: Vec<ImportRule>,
}

pub open spec fn media_views(m: Seq<MediaRule>) -> Seq<MediaRuleView> {
    m.map_values(|x: MediaRule| x@)
}

pub open spec fn face_views(f: Seq<FontFace>) -> Seq<FaceView> {
    f.map_values(|x: FontFace| x@)
}

pub open spec fn import_views(f: Seq<ImportRule>) -> Seq<ImportView> {
    f.map_values(|x: ImportRule| x@)
}

impl View for StyleSheet {
    type V = SheetView;

    closed spec fn view(&self) -> SheetView {
        SheetView {
            rules: entry_views(self.rules@),
            media_rules: media_views(self.media_rules@),
            keyframes: kf_views(self.keyframes@),
            font_faces: face_views(self.font_faces@),
            import_rules: import_views(self.import_rules@),
        }
    }
}

/// The style sheet with nothing in it.
pub open spec fn empty_sheet() -> SheetView {
    SheetView { rules: seq![], media_rules: seq![], keyframes: seq![], font_faces: seq![], import_rules: seq![] }
}

/// The state that the at-rules read so far have left.
pub open spec fn at_state(
    next: usize,
    media: Seq<MediaRule>,
    kfs: Seq<Keyframes>,
    faces: Seq<FontFace>,
    imports: Seq<ImportRule>,
) -> AtState {
    AtState {
        next: next as int,
        media: media_views(media),
        keyframes: kf_views(kfs),
        faces: face_views(faces),
        imports: import_views(imports),
    }
}

/// Reading at-rules never lowers the next source index.
pub proof fn lemma_at_fold_next(items: Seq<AtItem>, k: int)
    requires
        0 <= k <= items.len(),
    ensures
        at_fold(items.take(k)).next <= at_fold(items).next,
        at_fold(items).next >= 0,
    decreases items.len(),
{
    if items.len() > 0 {
        if k < items.len() {
            assert(items.drop_last().take(k) =~= items.take(k));
            lemma_at_fold_next(items.drop_last(), k);
        } else {
            assert(items.take(k) =~= items);
            lemma_at_fold_next(items.drop_last(), 0);
        }
        let st = at_fold(items.drop_last());
        match items.last() {
            AtItem::Block { keyword, prelude, inner } => if keyword == "media"@ {
                lemma_selector_count_mono(parse_rules(inner), 0, parse_rules(inner).len() as int);
            },
            _ => {},
        }
    } else {
        assert(items.take(k) =~= items);
    }
}

/// Reading at-rules keeps keyframe names unique.
pub proof fn lemma_at_fold_unique(items: Seq<AtItem>)
    ensures
        kf_names_unique(at_fold(items).keyframes),
    decreases items.len(),
{
    if items.len() > 0 {
        lemma_at_fold_unique(items.drop_last());
        let st = at_fold(items.drop_last());
        match items.last() {
            AtItem::Block { keyword, prelude, inner } => if is_keyframes_keyword(keyword)
                && keyword != "media"@ {
                lemma_kf_insert_unique(
                    st.keyframes,
                    KeyframesView { name: prelude, stops: stops_of(inner) },
                );
            },
            _ => {},
        }
    }
}

/// The `}` that closes the block whose content starts at `start`.
fn find_block_end(tokens: &[Token<'_>], start: usize) -> (r: usize)
    requires
        1 <= start <= tokens@.len(),
    ensures
        r == block_end(views(tokens@), start as int, 1),
{
    let ghost ts = views(tokens@);
    let mut k = start;
    let mut depth: usize = 1;
    while k < tokens.len()
        invariant
            start <= k <= tokens@.len(),
            1 <= start,
            1 <= depth <= k - start + 1,
            ts == views(tokens@),
            block_end(ts, start as int, 1) == block_end(ts, k as int, depth as nat),
        decreases tokens@.len() - k,
    {
        match tokens[k] {
            Token::BlockOpen { .. } => {
                depth = depth + 1;
            },
            Token::BlockClose { .. } => {
                if depth <= 1 {
                    return k;
                }
                depth = depth - 1;
            },
            _ => {},
        }
        k = k + 1;
    }
    k
}

/// The first `;` or end-of-file token at or after `i`.
fn find_stmt_end(tokens: &[Token<'_>], i: usize) -> (r: usize)
    requires
        i <= tokens@.len(),
    ensures
        r == stmt_end(views(tokens@), i as int),
{
    let mut k = i;
    while k < tokens.len() && !matches!(tokens[k], Token::Semicolon { .. } | Token::EOF)
        invariant
            i <= k <= tokens@.len(),
            stmt_end(views(tokens@), i as int) == stmt_end(views(tokens@), k as int),
        decreases tokens@.len() - k,
    {
        k = k + 1;
    }
    k
}

/// Reads one at-rule with a block; `false` where it cannot be read without a
/// panic or a source index would overflow.
fn process_at_rule(
    keyword: &str,
    prelude: &str,
    inner: &[Token<'_>],
    source_index: &mut usize,
    media_rules: &mut Vec<MediaRule>,
    keyframes: &mut Vec<Keyframes>,
    font_faces: &mut Vec<FontFace>,
) -> (ok: bool)
    requires
        selector_texts_fit(views(inner@)),
    ensures
        ({
            let item = AtItem::Block { keyword: keyword@, prelude: prelude@, inner: views(inner@) };
            let before = at_state(
                *old(source_index),
                old(media_rules)@,
                old(keyframes)@,
                old(font_faces)@,
                seq![],
            );
            &&& ok ==> item_safe(item) && at_state(
                *final(source_index),
                final(media_rules)@,
                final(keyframes)@,
                final(font_faces)@,
                seq![],
            ) == at_step(before, item)
            &&& !ok ==> !item_safe(item) || at_step(before, item).next > usize::MAX
        }),
{
    let ghost ts = views(inner@);
    if str_is(keyword, "media") {
        if prelude.unicode_len() >= 0x4000_0000 {
            return false;
        }
        let query = parse_media_query(prelude);
        let tokens = vstd::slice::slice_to_vec(inner);
        let parser = Parser::new(tokens);
        let rules = parser.parse();
        proof {
            crate::parser::lemma_rules_from_wf(crate::parser::ptoks(ts), 0);
        }
        let mut entries: Vec<(Selector, usize, Vec<Declaration>)> = Vec::new();
        if !expand_rules(&rules, source_index, &mut entries) {
            return false;
        }
        let ghost before = media_rules@;
        let m = MediaRule { query, rules: entries };
        assert(entry_views(entries@) =~= entries_of(parse_rules(ts), *old(source_index) as int));
        media_rules.push(m);
        assert(media_views(media_rules@) =~= media_views(before).push(m@));
        true
    } else if str_is(keyword, "keyframes") || str_is(keyword, "-webkit-keyframes") {
        let stops = match parse_keyframe_stops(inner) {
            Some(st) => st,
            None => return false,
        };
        let kf = Keyframes { name: prelude.to_owned(), stops };
        insert_keyframes(keyframes, kf);
        true
    } else if str_is(keyword, "font-face") {
        let pairs = extract_decl_pairs(inner);
        if let Some(ff) = parse_font_face(pairs.as_slice()) {
            let ghost before = font_faces@;
            font_faces.push(ff);
            assert(face_views(font_faces@) =~= face_views(before).push(ff@));
        }
        true
    } else {
        true
    }
}

impl StyleSheet {
    /// The style sheet with nothing in it.
    pub fn new() -> (r: Self)
        ensures
            r@ == empty_sheet(),
    {
        let r = Self {
            rules: Vec::new(),
            media_rules: Vec::new(),
            keyframes: Vec::new(),
            font_faces: Vec::new(),
            import_rules: Vec::new(),
        };
        proof {
            assert(r@.rules =~= seq![]);
            assert(r@.media_rules =~= seq![]);
            assert(r@.keyframes =~= seq![]);
            assert(r@.font_faces =~= seq![]);
            assert(r@.import_rules =~= seq![]);
        }
        r
    }

    /// No two keyframe sets share a name.
    #[verifier::type_invariant]
    spec fn inv(&self) -> bool {
        kf_names_unique(kf_views(self.keyframes@))
    }

    /// Reads a CSS text; `None` exactly where reading it would panic (a
    /// `box-shadow` value that splits inside a character) or overflow a
    /// counter.
    pub fn try_from_css(input: &str) -> (r: Option<Self>)
        requires
            input@.len() < u32::MAX,
        ensures
            r is Some <==> sheet_safe(input@),
            r matches Some(s) ==> s@ == sheet_text(input@),
    {
        let mut lexer = Lexer::new(input);
        let tokens = lexer.tokens();
        let ghost ts = views(tokens@);
        proof {
            crate::lexer::lemma_lex_selector_texts(input@, 0, seq![], false);
            assert(ts == lex(input@));
        }
        let ghost all = route(ts, 0).items;
        let n = tokens.len();
        let mut sheet_rules: Vec<(Selector, usize, Vec<Declaration>)> = Vec::new();
        let mut sheet_media_rules: Vec<MediaRule> = Vec::new();
        let mut sheet_keyframes: Vec<Keyframes> = Vec::new();
        let mut sheet_font_faces: Vec<FontFace> = Vec::new();
        let mut sheet_import_rules: Vec<ImportRule> = Vec::new();
        let mut next: usize = 0;
        let mut top: Vec<Token<'_>> = Vec::new();
        let ghost mut done: Seq<AtItem> = seq![];
        let mut i: usize = 0;
        proof {
            assert(views(top@) + route(ts, 0).top =~= route(ts, 0).top);
            assert(done + all =~= all);
            assert(media_views(sheet_media_rules@) =~= seq![]);
            assert(kf_views(sheet_keyframes@) =~= seq![]);
            assert(face_views(sheet_font_faces@) =~= seq![]);
            assert(import_views(sheet_import_rules@) =~= seq![]);
            assert(entry_views(sheet_rules@).len() == sheet_rules@.len());
        }
        while i < n
            invariant
                i <= n,
                n == tokens@.len(),
                ts == views(tokens@),
                ts == lex(input@),
                all == route(ts, 0).items,
                selector_texts_fit(ts),
                selector_texts_fit(views(top@)),
                views(top@) + route(ts, i as int).top == route(ts, 0).top,
                done + route(ts, i as int).items == all,
                forall|k: int| 0 <= k < done.len() ==> item_safe(#[trigger] done[k]),
                at_state(
                    next,
                    sheet_media_rules@,
                    sheet_keyframes@,
                    sheet_font_faces@,
                    sheet_import_rules@,
                ) == at_fold(done),
                sheet_rules@.len() == 0,
            decreases n - i,
        {
            proof {
                lemma_at_rule_next(ts, i as int);
            }
            match tokens[i] {
                Token::AtRule { keyword, prelude, .. } => {
                    let j = i + 1;
                    let ghost item = at_rule_item(ts, i as int);
                    let ghost rest = route(ts, at_rule_next(ts, i as int));
                    assert(route(ts, i as int).items == seq![item] + rest.items);
                    assert(route(ts, i as int).top == rest.top);
                    let ghost prev = at_fold(done);
                    proof {
                        assert(done.push(item) + rest.items =~= done + route(ts, i as int).items);
                        assert(done.push(item).drop_last() =~= done);
                        assert(all.take(done.len() + 1int) =~= done.push(item));
                    }
                    if j < n && matches!(tokens[j], Token::BlockOpen { .. }) {
                        let e = find_block_end(tokens.as_slice(), j + 1);
                        proof {
                            lemma_block_end(ts, j + 1, 1);
                        }
                        let inner = vstd::slice::slice_subrange(tokens.as_slice(), j + 1, e);
                        proof {
                            assert(views(inner@) =~= ts.subrange(j + 1, e as int));
                            assert forall|k: int|
                                0 <= k < views(inner@).len() && views(inner@)[k] is Selector implies (
                                #[trigger] views(inner@)[k])->Selector_value.len() < u32::MAX by {
                                assert(views(inner@)[k] == ts[j + 1 + k]);
                            }
                        }
                        let ghost imports = sheet_import_rules@;
                        let ok = process_at_rule(
                            keyword,
                            prelude,
                            inner,
                            &mut next,
                            &mut sheet_media_rules,
                            &mut sheet_keyframes,
                            &mut sheet_font_faces,
                        );
                        if !ok {
                            proof {
                                lemma_at_fold_next(all, done.len() + 1int);
                                let top_r = top_rules(input@);
                                lemma_selector_count_mono(top_r, 0, top_r.len() as int);
                                if item_safe(item) {
                                    assert(at_fold(all).next > usize::MAX);
                                } else {
                                    assert(all[done.len() as int] == item);
                                }
                            }
                            return None;
                        }
                        proof {
                            assert(import_views(sheet_import_rules@) == prev.imports);
                            done = done.push(item);
                        }
                        i = if e < n {
                            e + 1
                        } else {
                            e
                        };
                    } else {
                        let e = find_stmt_end(tokens.as_slice(), j);
                        proof {
                            lemma_stmt_end(ts, j as int);
                        }
                        if str_is(keyword, "import") {
                            if prelude.unicode_len() >= 0x4000_0000 {
                                assert(all[done.len() as int] == item);
                                return None;
                            }
                            if let Some(ir) = parse_import_rule(prelude) {
                                let ghost before = sheet_import_rules@;
                                sheet_import_rules.push(ir);
                                assert(import_views(sheet_import_rules@) =~= import_views(before).push(ir@));
                            }
                        }
                        proof {
                            done = done.push(item);
                        }
                        i = if e < n {
                            e + 1
                        } else {
                            e
                        };
                    }
                },
                t => {
                    let ghost before = top@;
                    top.push(t);
                    proof {
                        assert(views(top@) =~= views(before).push(t@));
                        assert(route(ts, i as int).top == seq![ts[i as int]] + route(ts, i + 1).top);
                        assert(views(top@) + route(ts, i + 1).top =~= views(before) + route(
                            ts,
                            i as int,
                        ).top);
                    }
                    i = i + 1;
                },
            }
        }
        proof {
            assert(done =~= all);
            assert(views(top@) =~= route(ts, 0).top);
        }
        let rules = Parser::new(top).parse();
        proof {
            crate::parser::lemma_rules_from_wf(crate::parser::ptoks(route(ts, 0).top), 0);
        }
        let rules = replace_vars(rules);
        proof {
            crate::parser::lemma_vars_replaced_wf(parse_rules(route(ts, 0).top));
            lemma_at_fold_unique(all);
        }
        let ghost at_next = next;
        if !expand_rules(&rules, &mut next, &mut sheet_rules) {
            return None;
        }
        proof {
            assert(entry_views(sheet_rules@) =~= entries_of(top_rules(input@), at_next as int));
        }
        let sheet = StyleSheet {
            rules: sheet_rules,
            media_rules: sheet_media_rules,
            keyframes: sheet_keyframes,
            font_faces: sheet_font_faces,
            import_rules: sheet_import_rules,
        };
        Some(sheet)
    }

    /// Creates a `StyleSheet` from a CSS input string.
    ///
    /// # Example
    /// ```
    /// let css = ".example { color: red; }";
    /// let stylesheet = cssengine::style::StyleSheet::from_css(css);
    /// ```
    pub fn from_css(input: &str) -> (r: Self)
        requires
            input@.len() < u32::MAX,
            sheet_safe(input@),
        ensures
            r@ == sheet_text(input@),
    {
        match Self::try_from_css(input) {
            Some(s) => s,
            None => Self::new(),
        }
    }
}

impl Default for StyleSheet {
    fn default() -> (r: Self)
        ensures
            r@ == empty_sheet(),
    {
        Self::new()
    }
}

// ---------------------------------------------------------------------------
// Composition
// ---------------------------------------------------------------------------

/// Entries with their source indices moved up by `base`.
pub open spec fn shift_entries(es: Seq<EntryView>, base: int) -> Seq<EntryView> {
    es.map_values(|e: EntryView| EntryView { index: e.index + base, ..e })
}

/// Keyframe sets stored by name one after the other.
pub open spec fn kf_insert_all(kfs: Seq<KeyframesView>, more: Seq<KeyframesView>) -> Seq<
    KeyframesView,
>
    decreases more.len(),
{
    if more.len() == 0 {
        kfs
    } else {
        kf_insert(kf_insert_all(kfs, more.drop_last()), more.last())
    }
}

/// Keyframe sets stored by name one after the other, each where its name is
/// not stored yet.
pub open spec fn kf_insert_all_absent(kfs: Seq<KeyframesView>, more: Seq<KeyframesView>) -> Seq<
    KeyframesView,
>
    decreases more.len(),
{
    if more.len() == 0 {
        kfs
    } else {
        kf_insert_absent(kf_insert_all_absent(kfs, more.drop_last()), more.last())
    }
}

/// One past the largest source index of the entries (0 where there is none).
pub open spec fn next_index(es: Seq<EntryView>) -> int
    decreases es.len(),
{
    if es.len() == 0 {
        0
    } else {
        let n = next_index(es.drop_last());
        if es.last().index + 1 > n {
            es.last().index + 1
        } else {
            n
        }
    }
}

/// `next_index` is above every source index and is not negative.
pub proof fn lemma_next_index(es: Seq<EntryView>)
    ensures
        next_index(es) >= 0,
        forall|i: int| 0 <= i < es.len() ==> (#[trigger] es[i]).index < next_index(es),
    decreases es.len(),
{
    if es.len() > 0 {
        lemma_next_index(es.drop_last());
        assert forall|i: int| 0 <= i < es.len() implies (#[trigger] es[i]).index < next_index(es) by {
            if i < es.len() - 1 {
                assert(es[i] == es.drop_last()[i]);
            }
        }
    }
}

/// `b` merged into `a`: its rules come after those of `a`, with their source
/// indices moved past every source index of the rules of `a`; its keyframes
/// replace those of the same name; everything else is appended.
pub open spec fn merge_view(a: SheetView, b: SheetView) -> SheetView {
    SheetView {
        rules: a.rules + shift_entries(b.rules, next_index(a.rules)),
        media_rules: a.media_rules + b.media_rules,
        keyframes: kf_insert_all(a.keyframes, b.keyframes),
        font_faces: a.font_faces + b.font_faces,
        import_rules: a.import_rules + b.import_rules,
    }
}

pub proof fn lemma_kf_insert_all_unique(kfs: Seq<KeyframesView>, more: Seq<KeyframesView>)
    requires
        kf_names_unique(kfs),
    ensures
        kf_names_unique(kf_insert_all(kfs, more)),
        kf_names_unique(kf_insert_all_absent(kfs, more)),
    decreases more.len(),
{
    if more.len() > 0 {
        lemma_kf_insert_all_unique(kfs, more.drop_last());
        lemma_kf_insert_unique(kf_insert_all(kfs, more.drop_last()), more.last());
        lemma_kf_insert_unique(kf_insert_all_absent(kfs, more.drop_last()), more.last());
    }
}

/// The elements of `v` in reverse order.
fn reversed<T>(v: Vec<T>) -> (r: Vec<T>)
    ensures
        r@ == v@.reverse(),
{
    let ghost v0 = v@;
    let mut v = v;
    let mut r: Vec<T> = Vec::new();
    while v.len() > 0
        invariant
            v@.len() <= v0.len(),
            v@ == v0.take(v@.len() as int),
            r@ == v0.skip(v@.len() as int).reverse(),
        decreases v@.len(),
    {
        let ghost before = r@;
        let ghost n = v@.len() as int;
        let ghost old_v = v@;
        let x = v.pop().unwrap();
        proof {
            assert(old_v == v0.take(n));
            assert(v@ == old_v.subrange(0, n - 1));
            assert(x == old_v[n - 1]);
            assert(v0.take(n - 1) =~= v@);
            assert(v0.skip(n - 1).reverse() =~= before.push(x));
        }
        r.push(x);
    }
    assert(v0.skip(0) =~= v0);
    r
}

/// Moves the source indices of entries up by `base`.
fn shift_indices(v: Vec<(Selector, usize, Vec<Declaration>)>, base: usize) -> (r: Vec<
    (Selector, usize, Vec<Declaration>),
>)
    requires
        forall|i: int| 0 <= i < v@.len() ==> (#[trigger] v@[i]).1 + base <= usize::MAX,
    ensures
        entry_views(r@) == shift_entries(entry_views(v@), base as int),
{
    let ghost v0 = v@;
    let mut rev = reversed(v);
    let mut r: Vec<(Selector, usize, Vec<Declaration>)> = Vec::new();
    while rev.len() > 0
        invariant
            rev@.len() <= v0.len(),
            rev@ == v0.skip(v0.len() - rev@.len()).reverse(),
            forall|i: int| 0 <= i < v0.len() ==> (#[trigger] v0[i]).1 + base <= usize::MAX,
            entry_views(r@) == shift_entries(entry_views(v0.take(v0.len() - rev@.len())), base as int),
        decreases rev@.len(),
    {
        let ghost k = v0.len() - rev@.len();
        let ghost before = r@;
        assert(rev@.last() == v0[k]);
        let e = rev.pop().unwrap();
        assert(e == v0[k]);
        let ghost ev = entry_view(e);
        let (sel, idx, decls) = e;
        let ne = (sel, idx + base, decls);
        assert(entry_view(ne) == EntryView { index: ev.index + base, ..ev });
        r.push(ne);
        proof {
            assert(v0.skip(k + 1).reverse() =~= rev@);
            assert(v0.take(k + 1) =~= v0.take(k).push(v0[k]));
            assert(entry_views(r@) =~= entry_views(before).push(entry_view(ne)));
            assert(entry_views(v0.take(k + 1)) =~= entry_views(v0.take(k)).push(ev));
            assert(entry_views(r@) =~= shift_entries(entry_views(v0.take(k + 1)), base as int));
        }
    }
    assert(v0.take(v0.len() as int) =~= v0);
    r
}

/// Stores the keyframe sets of `more` by name, in order.
fn insert_all_keyframes(kfs: &mut Vec<Keyframes>, more: Vec<Keyframes>, replace: bool)
    ensures
        replace ==> kf_views(final(kfs)@) == kf_insert_all(kf_views(old(kfs)@), kf_views(more@)),
        !replace ==> kf_views(final(kfs)@) == kf_insert_all_absent(
            kf_views(old(kfs)@),
            kf_views(more@),
        ),
{
    let ghost m0 = more@;
    let mut rev = reversed(more);
    while rev.len() > 0
        invariant
            rev@.len() <= m0.len(),
            rev@ == m0.skip(m0.len() - rev@.len()).reverse(),
            replace ==> kf_views(kfs@) == kf_insert_all(
                kf_views(old(kfs)@),
                kf_views(m0.take(m0.len() - rev@.len())),
            ),
            !replace ==> kf_views(kfs@) == kf_insert_all_absent(
                kf_views(old(kfs)@),
                kf_views(m0.take(m0.len() - rev@.len())),
            ),
        decreases rev@.len(),
    {
        let ghost k = m0.len() - rev@.len();
        assert(rev@.last() == m0[k]);
        let kf = rev.pop().unwrap();
        proof {
            assert(m0.skip(k + 1).reverse() =~= rev@);
            assert(kf_views(m0.take(k + 1)).drop_last() =~= kf_views(m0.take(k)));
        }
        if replace {
            insert_keyframes(kfs, kf);
        } else {
            insert_keyframes_absent(kfs, kf);
        }
    }
    assert(m0.take(m0.len() as int) =~= m0);
}

impl StyleSheet {
    /// One past the largest source index of the rules (0 where there is none),
    /// or `None` where that does not fit in a `usize`. Rules merged in are
    /// numbered from there.
    pub fn next_source_index(&self) -> (r: Option<usize>)
        ensures
            r matches Some(n) ==> n == next_index(self@.rules),
            r is None ==> next_index(self@.rules) > usize::MAX,
    {
        let ghost es = self@.rules;
        let mut next: usize = 0;
        let mut i: usize = 0;
        while i < self.rules.len()
            invariant
                es == self@.rules,
                i <= es.len(),
                next == next_index(es.take(i as int)),
            decreases es.len() - i,
        {
            assert(es.take(i + 1).drop_last() =~= es.take(i as int));
            assert(es[i as int] == entry_view(self.rules@[i as int]));
            let idx = self.rules[i].1;
            if idx == usize::MAX {
                proof {
                    lemma_next_index(es);
                }
                return None;
            }
            if idx + 1 > next {
                next = idx + 1;
            }
            i = i + 1;
        }
        assert(es.take(i as int) =~= es);
        Some(next)
    }

    /// Merge another `StyleSheet` into this one.
    ///
    /// Rules from `other` are appended after the existing rules, preserving cascade
    /// ordering (rules from `other` win on equal specificity because they have higher
    /// source indices).
    ///
    /// Unresolved `@import` rules from `other` are also transferred.
    pub fn merge(&mut self, other: StyleSheet)
        requires
            forall|i: int|
                0 <= i < other@.rules.len() ==> (#[trigger] other@.rules[i]).index + next_index(
                    old(self)@.rules,
                ) <= usize::MAX,
        ensures
            final(self)@ == merge_view(old(self)@, other@),
    {
        proof {
            use_type_invariant(&*self);
        }
        let ghost a = self@;
        let ghost b = other@;
        let StyleSheet { rules, media_rules, keyframes, font_faces, import_rules } = other;
        let base: usize = if rules.len() == 0 {
            0
        } else {
            match self.next_source_index() {
                Some(n) => n,
                None => {
                    assert(b.rules[0] == entry_view(rules@[0]));
                    0
                },
            }
        };
        proof {
            if rules@.len() == 0 {
                assert(shift_entries(b.rules, base as int) =~= shift_entries(
                    b.rules,
                    next_index(a.rules),
                ));
            }
        }
        proof {
            assert forall|i: int| 0 <= i < rules@.len() implies (#[trigger] rules@[i]).1 + base
                <= usize::MAX by {
                assert(b.rules[i] == entry_view(rules@[i]));
            }
        }
        let mut shifted = shift_indices(rules, base);
        let mut media_rules = media_rules;
        let mut font_faces = font_faces;
        let mut import_rules = import_rules;
        let mut all_rules: Vec<(Selector, usize, Vec<Declaration>)> = Vec::new();
        std::mem::swap(&mut all_rules, &mut self.rules);
        all_rules.append(&mut shifted);
        self.rules = all_rules;
        let mut all_media: Vec<MediaRule> = Vec::new();
        std::mem::swap(&mut all_media, &mut self.media_rules);
        all_media.append(&mut media_rules);
        self.media_rules = all_media;
        let mut all_keyframes: Vec<Keyframes> = Vec::new();
        std::mem::swap(&mut all_keyframes, &mut self.keyframes);
        insert_all_keyframes(&mut all_keyframes, keyframes, true);
        proof {
            lemma_kf_insert_all_unique(a.keyframes, b.keyframes);
        }
        self.keyframes = all_keyframes;
        let mut all_faces: Vec<FontFace> = Vec::new();
        std::mem::swap(&mut all_faces, &mut self.font_faces);
        all_faces.append(&mut font_faces);
        self.font_faces = all_faces;
        let mut all_imports: Vec<ImportRule> = Vec::new();
        std::mem::swap(&mut all_imports, &mut self.import_rules);
        all_imports.append(&mut import_rules);
        self.import_rules = all_imports;
        proof {
            assert(self@.rules =~= merge_view(a, b).rules);
            assert(self@.media_rules =~= merge_view(a, b).media_rules);
            assert(self@.font_faces =~= merge_view(a, b).font_faces);
            assert(self@.import_rules =~= merge_view(a, b).import_rules);
        }
    }
}

// ---------------------------------------------------------------------------
// Style lookup
// ---------------------------------------------------------------------------

/// Whether a rule's selector is one of the whitespace-separated tokens of a
/// query (both trimmed).
pub open spec fn matches_query(e: EntryView, q: Seq<char>) -> bool {
    exists|k: int| 0 <= k < words(q).len() && trim(e.selector.selector) == trim(#[trigger] words(q)[k])
}

/// The cascade order: by specificity, then by source index.
pub open spec fn key_le(a: EntryView, b: EntryView) -> bool {
    let x = a.selector.specificity;
    let y = b.selector.specificity;
    x.0 < y.0 || (x.0 == y.0 && (x.1 < y.1 || (x.1 == y.1 && (x.2 < y.2 || (x.2 == y.2
        && a.index <= b.index)))))
}

/// `x` placed in a sorted sequence after every element not above it.
pub open spec fn insert_sorted(s: Seq<EntryView>, x: EntryView) -> Seq<EntryView>
    decreases s.len(),
{
    if s.len() == 0 {
        seq![x]
    } else if key_le(s.last(), x) {
        s.push(x)
    } else {
        insert_sorted(s.drop_last(), x).push(s.last())
    }
}

/// The entries in cascade order; entries of equal order keep their order
/// (a stable sort).
pub open spec fn sort_entries(s: Seq<EntryView>) -> Seq<EntryView>
    decreases s.len(),
{
    if s.len() == 0 {
        s
    } else {
        insert_sorted(sort_entries(s.drop_last()), s.last())
    }
}

/// The first declaration of the given kind at or after `i`.
pub open spec fn kind_index_from(ds: Seq<DeclView>, kind: nat, i: int) -> Option<int>
    decreases ds.len() - i,
{
    if i < 0 || i >= ds.len() {
        None
    } else if decl_kind(ds[i]) == kind {
        Some(i)
    } else {
        kind_index_from(ds, kind, i + 1)
    }
}

pub open spec fn kind_index(ds: Seq<DeclView>, kind: nat) -> Option<int> {
    kind_index_from(ds, kind, 0)
}

/// A declaration applied to a list: it replaces the first one of its kind,
/// or is added.
pub open spec fn apply_decl(ds: Seq<DeclView>, d: DeclView) -> Seq<DeclView> {
    match kind_index(ds, decl_kind(d)) {
        Some(i) => ds.update(i, d),
        None => ds.push(d),
    }
}

pub open spec fn apply_decls(ds: Seq<DeclView>, new: Seq<DeclView>) -> Seq<DeclView>
    decreases new.len(),
{
    if new.len() == 0 {
        ds
    } else {
        apply_decl(apply_decls(ds, new.drop_last()), new.last())
    }
}

/// A group of declarations for one pseudo-class (or none).
pub type GroupView = (Option<PseudoView>, Seq<DeclView>);

/// The first group for the given pseudo-class.
pub open spec fn group_index_from(g: Seq<GroupView>, p: Option<PseudoView>, i: int) -> Option<int>
    decreases g.len() - i,
{
    if i < 0 || i >= g.len() {
        None
    } else if g[i].0 == p {
        Some(i)
    } else {
        group_index_from(g, p, i + 1)
    }
}

pub open spec fn group_index(g: Seq<GroupView>, p: Option<PseudoView>) -> Option<int> {
    group_index_from(g, p, 0)
}

/// One rule applied to the groups: its declarations are applied to the group
/// of its pseudo-class, or to a new, empty group (so that within the rule too a
/// later declaration of a property replaces an earlier one).
pub open spec fn cascade_step(g: Seq<GroupView>, m: EntryView) -> Seq<GroupView> {
    match group_index(g, m.selector.pseudo_class) {
        Some(i) => g.update(i, (g[i].0, apply_decls(g[i].1, m.decls))),
        None => g.push((m.selector.pseudo_class, apply_decls(seq![], m.decls))),
    }
}

/// The rules applied in order to the groups `g`.
pub open spec fn cascade_onto(g: Seq<GroupView>, ms: Seq<EntryView>) -> Seq<GroupView>
    decreases ms.len(),
{
    if ms.len() == 0 {
        g
    } else {
        cascade_step(cascade_onto(g, ms.drop_last()), ms.last())
    }
}

/// The styles for a query: the rules whose selector is one of its tokens, in
/// cascade order, applied one after the other.
pub open spec fn styles_for(rules: Seq<EntryView>, q: Seq<char>) -> Seq<GroupView> {
    cascade_onto(seq![], sort_entries(rules.filter(|e: EntryView| matches_query(e, q))))
}

pub open spec fn group_views(g: Seq<(Option<PseudoClass>, Vec<Declaration>)>) -> Seq<GroupView> {
    g.map_values(
        |x: (Option<PseudoClass>, Vec<Declaration>)|
            (crate::selector::opt_pseudo_view(x.0), decl_views(x.1@)),
    )
}

/// Styles grouped by pseudo-class, held in a small vector (inline for up to
/// four groups).
#[verifier::external_body]
pub struct StyleGroups {
    groups: SmallVec<[(Option<PseudoClass>, Vec<Declaration>); 4]>,
}

/// The groups that a list of styles holds, in order.
pub uninterp spec fn style_groups(s: StyleGroups) -> Seq<GroupView>;

/// `SmallVec::from_vec`: the small vector holds the elements of the vector, in
/// order (the source moves them, inline or on the heap, one for one).
#[verifier::external_body]
fn styles_from_vec(v: Vec<(Option<PseudoClass>, Vec<Declaration>)>) -> (r: StyleGroups)
    ensures
        style_groups(r) == group_views(v@),
{
    StyleGroups { groups: SmallVec::from_vec(v) }
}

impl StyleGroups {
    /// The groups as a slice (`SmallVec`'s `Deref`): the same groups, in order.
    #[verifier::external_body]
    pub fn as_slice(&self) -> (r: &[(Option<PseudoClass>, Vec<Declaration>)])
        ensures
            group_views(r@) == style_groups(*self),
    {
        &self.groups
    }

    /// `SmallVec::len`: the number of groups.
    #[verifier::external_body]
    pub fn len(&self) -> (r: usize)
        ensures
            r == style_groups(*self).len(),
    {
        self.groups.len()
    }

    /// Whether there is no group.
    pub fn is_empty(&self) -> (r: bool)
        ensures
            r == (style_groups(*self).len() == 0),
    {
        self.len() == 0
    }
}

pub proof fn lemma_insert_sorted(s: Seq<EntryView>, x: EntryView, j: int)
    requires
        0 <= j <= s.len(),
        forall|k: int| j <= k < s.len() ==> !key_le(#[trigger] s[k], x),
        j > 0 ==> key_le(s[j - 1], x),
    ensures
        insert_sorted(s, x) == s.insert(j, x),
    decreases s.len(),
{
    if s.len() == 0 {
        assert(s.insert(j, x) =~= seq![x]);
    } else if key_le(s.last(), x) {
        assert(j == s.len());
        assert(s.insert(j, x) =~= s.push(x));
    } else {
        lemma_insert_sorted(s.drop_last(), x, j);
        assert(s.drop_last().insert(j, x).push(s.last()) =~= s.insert(j, x));
    }
}

pub proof fn lemma_insert_sorted_len(s: Seq<EntryView>, x: EntryView)
    ensures
        insert_sorted(s, x).len() == s.len() + 1,
    decreases s.len(),
{
    if s.len() > 0 && !key_le(s.last(), x) {
        lemma_insert_sorted_len(s.drop_last(), x);
    }
}

/// Whether `a` comes no later than `b` in cascade order.
fn entry_le(a: &(Selector, usize, Vec<Declaration>), b: &(Selector, usize, Vec<Declaration>)) -> (r:
    bool)
    ensures
        r == key_le(entry_view(*a), entry_view(*b)),
{
    let x = a.0.specificity;
    let y = b.0.specificity;
    x.0 < y.0 || (x.0 == y.0 && (x.1 < y.1 || (x.1 == y.1 && (x.2 < y.2 || (x.2 == y.2 && a.1
        <= b.1)))))
}

/// The positions of the entries that match the query's tokens, in order.
fn matching_indices(rules: &Vec<(Selector, usize, Vec<Declaration>)>, query: &str) -> (r: Vec<usize>)
    ensures
        forall|k: int| 0 <= k < r@.len() ==> (#[trigger] r@[k]) < rules@.len(),
        r@.map_values(|i: usize| entry_views(rules@)[i as int]) == entry_views(rules@).filter(
            |e: EntryView| matches_query(e, query@),
        ),
{
    let ghost es = entry_views(rules@);
    let ghost pred = |e: EntryView| matches_query(e, query@);
    let ws = crate::text::split_whitespace(query);
    let ghost w = words(query@);
    let mut tw: Vec<Vec<char>> = Vec::new();
    let mut k: usize = 0;
    while k < ws.len()
        invariant
            k <= ws@.len(),
            ws@.map_values(|x: &str| x@) == w,
            tw@.len() == k,
            forall|j: int| 0 <= j < k ==> (#[trigger] tw@[j])@ == trim(w[j]),
        decreases ws@.len() - k,
    {
        assert(ws@[k as int]@ == w[k as int]);
        let cs = chars_of(ws[k]);
        let t = crate::text::trim_slice(cs.as_slice());
        tw.push(vstd::slice::slice_to_vec(t));
        k = k + 1;
    }
    let mut out: Vec<usize> = Vec::new();
    let mut i: usize = 0;
    while i < rules.len()
        invariant
            i <= rules@.len(),
            es == entry_views(rules@),
            pred == (|e: EntryView| matches_query(e, query@)),
            w == words(query@),
            tw@.len() == w.len(),
            forall|j: int| 0 <= j < tw@.len() ==> (#[trigger] tw@[j])@ == trim(w[j]),
            forall|k: int| 0 <= k < out@.len() ==> (#[trigger] out@[k]) < rules@.len(),
            out@.map_values(|x: usize| es[x as int]) == es.take(i as int).filter(pred),
        decreases rules@.len() - i,
    {
        let sc = chars_of(rules[i].0.selector.as_str());
        let st = crate::text::trim_slice(sc.as_slice());
        let mut found = false;
        let mut j: usize = 0;
        while j < tw.len()
            invariant
                j <= tw@.len(),
                tw@.len() == w.len(),
                forall|jj: int| 0 <= jj < tw@.len() ==> (#[trigger] tw@[jj])@ == trim(w[jj]),
                st@ == trim(es[i as int].selector.selector),
                i < rules@.len(),
                es == entry_views(rules@),
                w == words(query@),
                found == exists|k: int| 0 <= k < j && trim(es[i as int].selector.selector) == trim(
                    #[trigger] w[k],
                ),
            decreases tw@.len() - j,
        {
            if crate::text::chars_eq(st, tw[j].as_slice()) {
                found = true;
            }
            j = j + 1;
        }
        assert(found == matches_query(es[i as int], query@));
        let ghost before = out@;
        assert(es.take(i + 1).drop_last() =~= es.take(i as int));
        reveal(Seq::filter);
        if found {
            out.push(i);
            assert(out@.map_values(|x: usize| es[x as int]) =~= before.map_values(
                |x: usize| es[x as int],
            ).push(es[i as int]));
        }
        i = i + 1;
    }
    assert(es.take(rules@.len() as int) =~= es);
    out
}

/// The positions sorted into cascade order (stable).
fn sort_indices(rules: &Vec<(Selector, usize, Vec<Declaration>)>, idx: Vec<usize>) -> (r: Vec<usize>)
    requires
        forall|k: int| 0 <= k < idx@.len() ==> (#[trigger] idx@[k]) < rules@.len(),
    ensures
        forall|k: int| 0 <= k < r@.len() ==> (#[trigger] r@[k]) < rules@.len(),
        r@.map_values(|i: usize| entry_views(rules@)[i as int]) == sort_entries(
            idx@.map_values(|i: usize| entry_views(rules@)[i as int]),
        ),
{
    let ghost es = entry_views(rules@);
    let ghost src = idx@.map_values(|i: usize| es[i as int]);
    let mut out: Vec<usize> = Vec::new();
    let mut n: usize = 0;
    while n < idx.len()
        invariant
            n <= idx@.len(),
            es == entry_views(rules@),
            src == idx@.map_values(|i: usize| es[i as int]),
            forall|k: int| 0 <= k < idx@.len() ==> (#[trigger] idx@[k]) < rules@.len(),
            forall|k: int| 0 <= k < out@.len() ==> (#[trigger] out@[k]) < rules@.len(),
            out@.map_values(|i: usize| es[i as int]) == sort_entries(src.take(n as int)),
        decreases idx@.len() - n,
    {
        let x = idx[n];
        let ghost s = out@.map_values(|i: usize| es[i as int]);
        let mut j = out.len();
        while j > 0 && !entry_le(&rules[out[j - 1]], &rules[x])
            invariant
                j <= out@.len(),
                x < rules@.len(),
                es == entry_views(rules@),
                s == out@.map_values(|i: usize| es[i as int]),
                forall|k: int| 0 <= k < out@.len() ==> (#[trigger] out@[k]) < rules@.len(),
                forall|k: int| j <= k < s.len() ==> !key_le(#[trigger] s[k], es[x as int]),
            decreases j,
        {
            j = j - 1;
        }
        proof {
            lemma_insert_sorted(s, es[x as int], j as int);
            assert(src.take(n + 1).drop_last() =~= src.take(n as int));
        }
        out.insert(j, x);
        assert(out@.map_values(|i: usize| es[i as int]) =~= s.insert(j as int, es[x as int]));
        n = n + 1;
    }
    assert(src.take(idx@.len() as int) =~= src);
    out
}

/// Applies declarations to a list (see `apply_decls`).
fn apply_decls_exec(ds: &mut Vec<Declaration>, new: &Vec<Declaration>)
    ensures
        decl_views(final(ds)@) == apply_decls(decl_views(old(ds)@), decl_views(new@)),
{
    let ghost d0 = decl_views(ds@);
    let ghost nv = decl_views(new@);
    let mut n: usize = 0;
    while n < new.len()
        invariant
            n <= new@.len(),
            nv == decl_views(new@),
            d0 == decl_views(old(ds)@),
            decl_views(ds@) == apply_decls(d0, nv.take(n as int)),
        decreases new@.len() - n,
    {
        let d = copy_decl(&new[n]);
        let kind = d.kind();
        let ghost cur = decl_views(ds@);
        proof {
            assert(nv.take(n + 1).drop_last() =~= nv.take(n as int));
            assert(nv.take(n + 1).last() == d@);
        }
        let mut i: usize = 0;
        while i < ds.len() && ds[i].kind() != kind
            invariant
                i <= ds@.len(),
                cur == decl_views(ds@),
                kind_index(cur, decl_kind(d@)) == kind_index_from(cur, decl_kind(d@), i as int),
                kind == decl_kind(d@),
            decreases ds@.len() - i,
        {
            i = i + 1;
        }
        let found = i < ds.len();
        if found {
            assert(kind_index(cur, decl_kind(d@)) == Some(i as int));
            let ghost dv = d@;
            ds.set(i, d);
            assert(decl_views(ds@) =~= cur.update(i as int, dv));
        } else {
            let ghost dv = d@;
            ds.push(d);
            assert(decl_views(ds@) =~= cur.push(dv));
        }
        n = n + 1;
    }
    assert(nv.take(n as int) =~= nv);
}

fn copy_opt_pseudo(p: &Option<PseudoClass>) -> (r: Option<PseudoClass>)
    ensures
        crate::selector::opt_pseudo_view(r) == crate::selector::opt_pseudo_view(*p),
{
    match p {
        Some(x) => Some(copy_pseudo(x)),
        None => None,
    }
}

/// Applies one rule's declarations to the groups (see `cascade_step`).
fn cascade_into(
    groups: &mut Vec<(Option<PseudoClass>, Vec<Declaration>)>,
    entry: &(Selector, usize, Vec<Declaration>),
)
    ensures
        group_views(final(groups)@) == cascade_step(group_views(old(groups)@), entry_view(*entry)),
{
    let ghost g = group_views(groups@);
    let ghost p = entry_view(*entry).selector.pseudo_class;
    let mut i: usize = 0;
    while i < groups.len()
        invariant
            i <= groups@.len(),
            groups@ == old(groups)@,
            g == group_views(groups@),
            p == entry_view(*entry).selector.pseudo_class,
            group_index(g, p) == group_index_from(g, p, i as int),
        decreases groups@.len() - i,
    {
        if opt_pseudo_eq(&groups[i].0, &entry.0.pseudo_class) {
            assert(group_index(g, p) == Some(i as int));
            let mut ds = crate::declaration::copy_decls(&groups[i].1);
            assert(decl_views(ds@) =~= g[i as int].1);
            apply_decls_exec(&mut ds, &entry.2);
            let ps = copy_opt_pseudo(&groups[i].0);
            let ghost nv = (crate::selector::opt_pseudo_view(ps), decl_views(ds@));
            groups.set(i, (ps, ds));
            assert(group_views(groups@) =~= g.update(i as int, nv));
            return;
        }
        i = i + 1;
    }
    let ps = copy_opt_pseudo(&entry.0.pseudo_class);
    let mut ds: Vec<Declaration> = Vec::new();
    assert(decl_views(ds@) =~= seq![]);
    apply_decls_exec(&mut ds, &entry.2);
    let ghost nv = (crate::selector::opt_pseudo_view(ps), decl_views(ds@));
    groups.push((ps, ds));
    assert(group_views(groups@) =~= g.push(nv));
}

/// The declarations of the entries whose selector equals the given one (both
/// trimmed), in order.
pub open spec fn decls_for(rules: Seq<EntryView>, q: Seq<char>) -> Seq<DeclView>
    decreases rules.len(),
{
    if rules.len() == 0 {
        seq![]
    } else {
        decls_for(rules.drop_last(), q) + if trim(rules.last().selector.selector) == trim(q) {
            rules.last().decls
        } else {
            seq![]
        }
    }
}

/// The media rules that apply, in order, each with its entries that match the
/// query's tokens.
pub open spec fn media_matches(
    media: Seq<MediaRuleView>,
    active: Seq<bool>,
    q: Seq<char>,
) -> Seq<EntryView>
    decreases media.len(),
{
    if media.len() == 0 {
        seq![]
    } else {
        let n = media.len() - 1;
        media_matches(media.drop_last(), active, q) + if active[n] {
            media[n].rules.filter(|e: EntryView| matches_query(e, q))
        } else {
            seq![]
        }
    }
}

impl StyleSheet {
    /// Parse `input` as CSS and add the resulting rules to this stylesheet.
    pub fn add_css(&mut self, input: &str)
        requires
            input@.len() < u32::MAX,
            sheet_safe(input@),
            forall|i: int|
                0 <= i < sheet_text(input@).rules.len() ==> (#[trigger] sheet_text(
                    input@,
                ).rules[i]).index + next_index(old(self)@.rules) <= usize::MAX,
        ensures
            final(self)@ == merge_view(old(self)@, sheet_text(input@)),
    {
        self.merge(StyleSheet::from_css(input));
    }

    /// Remove all rules for the given exact selector string. Returns `true` if any were removed.
    pub fn remove_selector(&mut self, selector: &str) -> (r: bool)
        ensures
            final(self)@ == (SheetView {
                rules: old(self)@.rules.filter(|e: EntryView| e.selector.selector != selector@),
                ..old(self)@
            }),
            r == (exists|i: int|
                0 <= i < old(self)@.rules.len() && (#[trigger] old(self)@.rules[i]).selector.selector
                    == selector@),
    {
        proof {
            use_type_invariant(&*self);
        }
        let ghost es = self@.rules;
        let ghost pred = |e: EntryView| e.selector.selector != selector@;
        let mut rules: Vec<(Selector, usize, Vec<Declaration>)> = Vec::new();
        std::mem::swap(&mut rules, &mut self.rules);
        let ghost v0 = rules@;
        let mut rev = reversed(rules);
        let mut kept: Vec<(Selector, usize, Vec<Declaration>)> = Vec::new();
        let mut removed = false;
        while rev.len() > 0
            invariant
                rev@.len() <= v0.len(),
                rev@ == v0.skip(v0.len() - rev@.len()).reverse(),
                es == entry_views(v0),
                pred == (|e: EntryView| e.selector.selector != selector@),
                entry_views(kept@) == es.take(v0.len() - rev@.len()).filter(pred),
                removed == (exists|i: int|
                    0 <= i < v0.len() - rev@.len() && (#[trigger] es[i]).selector.selector
                        == selector@),
            decreases rev@.len(),
        {
            let ghost k = v0.len() - rev@.len();
            assert(rev@.last() == v0[k]);
            let e = rev.pop().unwrap();
            proof {
                assert(v0.skip(k + 1).reverse() =~= rev@);
                assert(es.take(k + 1).drop_last() =~= es.take(k));
                reveal(Seq::filter);
            }
            if str_is(e.0.selector.as_str(), selector) {
                removed = true;
            } else {
                let ghost before = kept@;
                kept.push(e);
                assert(entry_views(kept@) =~= entry_views(before).push(es[k]));
            }
        }
        assert(es.take(v0.len() as int) =~= es);
        self.rules = kept;
        removed
    }

    /// All parsed top-level rules as `(selector, source_index, declarations)`.
    pub fn rules(&self) -> (r: &[(Selector, usize, Vec<Declaration>)])
        ensures
            entry_views(r@) == self@.rules,
    {
        self.rules.as_slice()
    }

    pub fn media_rules(&self) -> (r: &[MediaRule])
        ensures
            media_views(r@) == self@.media_rules,
    {
        self.media_rules.as_slice()
    }

    /// The keyframe sets, one per name.
    pub fn keyframes(&self) -> (r: &[Keyframes])
        ensures
            kf_views(r@) == self@.keyframes,
            kf_names_unique(self@.keyframes),
    {
        proof {
            use_type_invariant(self);
        }
        self.keyframes.as_slice()
    }

    pub fn font_faces(&self) -> (r: &[FontFace])
        ensures
            face_views(r@) == self@.font_faces,
    {
        self.font_faces.as_slice()
    }

    /// Unresolved `@import` rules, in source order.
    pub fn import_rules(&self) -> (r: &[ImportRule])
        ensures
            import_views(r@) == self@.import_rules,
    {
        self.import_rules.as_slice()
    }

    /// All declarations of the rules whose selector is the given one (ignores
    /// pseudo-classes).
    pub fn declarations_for<'a>(&'a self, selector: &str) -> (r: Vec<&'a Declaration>)
        ensures
            r@.map_values(|d: &Declaration| d@) == decls_for(self@.rules, selector@),
    {
        let ghost es = self@.rules;
        let qc = chars_of(selector);
        let q = crate::text::trim_slice(qc.as_slice());
        let mut out: Vec<&'a Declaration> = Vec::new();
        let mut i: usize = 0;
        while i < self.rules.len()
            invariant
                i <= self.rules@.len(),
                es == entry_views(self.rules@),
                q@ == trim(selector@),
                out@.map_values(|d: &Declaration| d@) == decls_for(es.take(i as int), selector@),
            decreases self.rules@.len() - i,
        {
            let entry = &self.rules[i];
            let sc = chars_of(entry.0.selector.as_str());
            let st = crate::text::trim_slice(sc.as_slice());
            assert(es.take(i + 1).drop_last() =~= es.take(i as int));
            if crate::text::chars_eq(st, q) {
                let ghost before = out@;
                let mut j: usize = 0;
                while j < entry.2.len()
                    invariant
                        j <= entry.2@.len(),
                        out@.map_values(|d: &Declaration| d@) == before.map_values(
                            |d: &Declaration| d@,
                        ) + decl_views(entry.2@).take(j as int),
                    decreases entry.2@.len() - j,
                {
                    let ghost mid = out@;
                    out.push(&entry.2[j]);
                    assert(out@.map_values(|d: &Declaration| d@) =~= mid.map_values(
                        |d: &Declaration| d@,
                    ).push(entry.2@[j as int]@));
                    assert(decl_views(entry.2@).take(j + 1) =~= decl_views(entry.2@).take(
                        j as int,
                    ).push(entry.2@[j as int]@));
                    j = j + 1;
                }
                assert(decl_views(entry.2@).take(j as int) =~= decl_views(entry.2@));
            } else {
                assert(decls_for(es.take(i + 1), selector@) =~= decls_for(es.take(i as int), selector@));
            }
            i = i + 1;
        }
        assert(es.take(i as int) =~= es);
        out
    }

    /// The styles for a selector, as a vector (see `get_styles`).
    fn styles_vec(&self, selector: &str) -> (r: Vec<(Option<PseudoClass>, Vec<Declaration>)>)
        ensures
            group_views(r@) == styles_for(self@.rules, selector@),
    {
        let ghost es = self@.rules;
        let idx = matching_indices(&self.rules, selector);
        let sorted = sort_indices(&self.rules, idx);
        let ghost ms = sorted@.map_values(|i: usize| es[i as int]);
        let mut groups: Vec<(Option<PseudoClass>, Vec<Declaration>)> = Vec::new();
        let mut k: usize = 0;
        assert(group_views(groups@) =~= seq![]);
        while k < sorted.len()
            invariant
                k <= sorted@.len(),
                es == entry_views(self.rules@),
                ms == sorted@.map_values(|i: usize| es[i as int]),
                forall|j: int| 0 <= j < sorted@.len() ==> (#[trigger] sorted@[j]) < self.rules@.len(),
                group_views(groups@) == cascade_onto(seq![], ms.take(k as int)),
            decreases sorted@.len() - k,
        {
            let i = sorted[k];
            assert(ms.take(k + 1).drop_last() =~= ms.take(k as int));
            assert(ms[k as int] == entry_view(self.rules@[i as int]));
            cascade_into(&mut groups, &self.rules[i]);
            k = k + 1;
        }
        assert(ms.take(k as int) =~= ms);
        groups
    }

    /// Like `get_styles`, but also applies the declarations of the `@media`
    /// rules that apply: `active[i]` says whether the `i`-th media rule's query
    /// holds. Media-rule declarations override base declarations for the same
    /// property.
    pub fn get_styles_with_media(&self, selector: &str, active: &[bool]) -> (r: StyleGroups)
        requires
            active@.len() == self@.media_rules.len(),
        ensures
            style_groups(r) == cascade_onto(
                styles_for(self@.rules, selector@),
                media_matches(self@.media_rules, active@, selector@),
            ),
    {
        let mut groups = self.styles_vec(selector);
        let ghost base = group_views(groups@);
        let ghost mv = self@.media_rules;
        let mut m: usize = 0;
        while m < self.media_rules.len()
            invariant
                m <= self.media_rules@.len(),
                active@.len() == self.media_rules@.len(),
                mv == media_views(self.media_rules@),
                group_views(groups@) == cascade_onto(base, media_matches(mv.take(m as int), active@, selector@)),
            decreases self.media_rules@.len() - m,
        {
            let ghost prev = media_matches(mv.take(m as int), active@, selector@);
            assert(mv.take(m + 1).drop_last() =~= mv.take(m as int));
            if active[m] {
                let media = &self.media_rules[m];
                let idx = matching_indices(&media.rules, selector);
                let ghost ms = idx@.map_values(|i: usize| entry_views(media.rules@)[i as int]);
                assert(mv[m as int].rules == entry_views(media.rules@));
                let mut k: usize = 0;
                while k < idx.len()
                    invariant
                        k <= idx@.len(),
                        ms == idx@.map_values(|i: usize| entry_views(media.rules@)[i as int]),
                        forall|j: int| 0 <= j < idx@.len() ==> (#[trigger] idx@[j]) < media.rules@.len(),
                        group_views(groups@) == cascade_onto(base, prev + ms.take(k as int)),
                    decreases idx@.len() - k,
                {
                    let i = idx[k];
                    assert((prev + ms.take(k + 1)).drop_last() =~= prev + ms.take(k as int));
                    assert((prev + ms.take(k + 1)).last() == entry_view(media.rules@[i as int]));
                    cascade_into(&mut groups, &media.rules[i]);
                    k = k + 1;
                }
                assert(ms.take(k as int) =~= ms);
            } else {
                assert(prev + seq![] =~= prev);
            }
            m = m + 1;
        }
        assert(mv.take(m as int) =~= mv);
        styles_from_vec(groups)
    }

    /// Retrieves the styles for a given selector.
    ///
    /// Returns declarations grouped by pseudo-class, with CSS cascade applied:
    /// higher-specificity and later-source-order declarations override earlier ones.
    pub fn get_styles(&self, selector: &str) -> (r: StyleGroups)
        ensures
            style_groups(r) == styles_for(self@.rules, selector@),
    {
        styles_from_vec(self.styles_vec(selector))
    }
}

// ---------------------------------------------------------------------------
// Imports
// ---------------------------------------------------------------------------

/// What an `@import` rule adds to a style sheet `a`, given the style sheet that
/// its URL gave (`None` where it could not be loaded):
/// - nothing loaded: the rule stays unresolved;
/// - an unconditional import: the loaded sheet is merged in (its own imports
///   were resolved with it and are not carried over);
/// - a conditional import: its rules become a media rule with the import's
///   query (where it has any), followed by its own media rules; its keyframes
///   are added where their name is new, and its font faces are added.
pub open spec fn absorb_view(a: SheetView, ir: ImportView, loaded: Option<SheetView>) -> SheetView {
    match loaded {
        None => SheetView { import_rules: a.import_rules.push(ir), ..a },
        Some(b) => match ir.media {
            None => SheetView { import_rules: a.import_rules, ..merge_view(a, b) },
            Some(q) => SheetView {
                media_rules: a.media_rules + (if b.rules.len() > 0 {
                    seq![MediaRuleView { query: q, rules: b.rules }]
                } else {
                    seq![]
                }) + b.media_rules,
                keyframes: kf_insert_all_absent(a.keyframes, b.keyframes),
                font_faces: a.font_faces + b.font_faces,
                ..a
            },
        },
    }
}

pub open spec fn opt_sheet(s: Option<StyleSheet>) -> Option<SheetView> {
    match s {
        Some(x) => Some(x@),
        None => None,
    }
}

impl StyleSheet {
    /// Takes the unresolved `@import` rules out of the style sheet, in source
    /// order, leaving none.
    pub fn take_import_rules(&mut self) -> (r: Vec<ImportRule>)
        ensures
            import_views(r@) == old(self)@.import_rules,
            final(self)@ == (SheetView { import_rules: seq![], ..old(self)@ }),
    {
        proof {
            use_type_invariant(&*self);
        }
        let mut r: Vec<ImportRule> = Vec::new();
        std::mem::swap(&mut r, &mut self.import_rules);
        assert(import_views(self.import_rules@) =~= seq![]);
        r
    }

    /// Adds what an `@import` rule brought (see `absorb_view`). Resolving the
    /// imports of a style sheet is: take its import rules, and for each, in
    /// order, load the URL, read the text (resolving its own imports the same
    /// way) and absorb the result.
    pub fn absorb_import(&mut self, rule: ImportRule, loaded: Option<StyleSheet>)
        requires
            rule.media is None ==> (loaded matches Some(sub) ==> forall|i: int|
                0 <= i < sub@.rules.len() ==> (#[trigger] sub@.rules[i]).index + next_index(
                    old(self)@.rules,
                ) <= usize::MAX),
        ensures
            final(self)@ == absorb_view(old(self)@, rule@, opt_sheet(loaded)),
    {
        proof {
            use_type_invariant(&*self);
        }
        let ghost a = self@;
        let ghost ir = rule@;
        match loaded {
            None => {
                let mut imports: Vec<ImportRule> = Vec::new();
                std::mem::swap(&mut imports, &mut self.import_rules);
                let ghost before = imports@;
                imports.push(rule);
                assert(import_views(imports@) =~= import_views(before).push(ir));
                self.import_rules = imports;
            },
            Some(sub) => {
                let ghost b = sub@;
                let ImportRule { url: _, media } = rule;
                match media {
                    None => {
                        proof {
                            use_type_invariant(&sub);
                        }
                        let StyleSheet { rules, media_rules, keyframes, font_faces, import_rules: _ } =
                            sub;
                        let rest = StyleSheet {
                            rules,
                            media_rules,
                            keyframes,
                            font_faces,
                            import_rules: Vec::new(),
                        };
                        assert(rest@.rules == b.rules);
                        let ghost imports = self.import_rules@;
                        self.merge(rest);
                        assert(import_views(imports) + import_views(seq![]) =~= import_views(imports));
                    },
                    Some(query) => {
                        let StyleSheet { rules, media_rules, keyframes, font_faces, import_rules: _ } =
                            sub;
                        let mut all_media: Vec<MediaRule> = Vec::new();
                        std::mem::swap(&mut all_media, &mut self.media_rules);
                        let ghost m0 = all_media@;
                        if rules.len() > 0 {
                            let m = MediaRule { query, rules };
                            all_media.push(m);
                            assert(media_views(all_media@) =~= media_views(m0) + seq![
                                MediaRuleView { query: ir.media.unwrap(), rules: b.rules },
                            ]);
                        } else {
                            assert(media_views(all_media@) =~= media_views(m0) + seq![]);
                        }
                        let ghost m1 = all_media@;
                        let mut media_rules = media_rules;
                        all_media.append(&mut media_rules);
                        assert(media_views(all_media@) =~= media_views(m1) + b.media_rules);
                        self.media_rules = all_media;
                        let mut all_keyframes: Vec<Keyframes> = Vec::new();
                        std::mem::swap(&mut all_keyframes, &mut self.keyframes);
                        insert_all_keyframes(&mut all_keyframes, keyframes, false);
                        proof {
                            lemma_kf_insert_all_unique(a.keyframes, b.keyframes);
                        }
                        self.keyframes = all_keyframes;
                        let mut font_faces = font_faces;
                        let mut all_faces: Vec<FontFace> = Vec::new();
                        std::mem::swap(&mut all_faces, &mut self.font_faces);
                        let ghost f0 = all_faces@;
                        all_faces.append(&mut font_faces);
                        assert(face_views(all_faces@) =~= face_views(f0) + b.font_faces);
                        self.font_faces = all_faces;
                    },
                }
            },
        }
    }
}

/// The declarations of the groups without a pseudo-class, in order.
pub open spec fn base_of(g: Seq<GroupView>) -> Seq<DeclView>
    decreases g.len(),
{
    if g.len() == 0 {
        seq![]
    } else {
        base_of(g.drop_last()) + if g.last().0 is None {
            g.last().1
        } else {
            seq![]
        }
    }
}

impl StyleSheet {
    /// The declarations that apply to a selector without any pseudo-class,
    /// with the cascade applied.
    pub fn base_declarations(&self, selector: &str) -> (r: Vec<Declaration>)
        ensures
            decl_views(r@) == base_of(styles_for(self@.rules, selector@)),
    {
        let groups = self.styles_vec(selector);
        let ghost g = group_views(groups@);
        let mut out: Vec<Declaration> = Vec::new();
        let mut i: usize = 0;
        while i < groups.len()
            invariant
                i <= groups@.len(),
                g == group_views(groups@),
                decl_views(out@) == base_of(g.take(i as int)),
            decreases groups@.len() - i,
        {
            assert(g.take(i + 1).drop_last() =~= g.take(i as int));
            if groups[i].0.is_none() {
                let ds = &groups[i].1;
                let ghost before = decl_views(out@);
                let mut j: usize = 0;
                while j < ds.len()
                    invariant
                        j <= ds@.len(),
                        decl_views(out@) == before + decl_views(ds@).take(j as int),
                    decreases ds@.len() - j,
                {
                    let ghost mid = out@;
                    out.push(copy_decl(&ds[j]));
                    assert(decl_views(out@) =~= decl_views(mid).push(ds@[j as int]@));
                    assert(decl_views(ds@).take(j + 1) =~= decl_views(ds@).take(j as int).push(
                        ds@[j as int]@,
                    ));
                    j = j + 1;
                }
                assert(decl_views(ds@).take(j as int) =~= decl_views(ds@));
            } else {
                assert(base_of(g.take(i + 1)) =~= base_of(g.take(i as int)));
            }
            i = i + 1;
        }
        assert(g.take(i as int) =~= g);
        out
    }
}

} // verus!
