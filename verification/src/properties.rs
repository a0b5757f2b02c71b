//! Properties of the style sheet operations, proved over their specifications.
use vstd::prelude::*;

use crate::declaration::{decl_kind, DeclView};
use crate::selector::PseudoView;
use crate::lexer::{lex, TokenView};
use crate::parser::{
    is_var_def, parse_rules, rules_wf, root_from, var_defs, with_vars_replaced, RuleView,
};
use crate::style::{
    apply_decl, apply_decls, cascade_onto, cascade_step, empty_sheet, group_index,
    group_index_from, insert_sorted, key_le, kf_index, kf_index_from, kf_insert, kind_index,
    kind_index_from, matches_query, media_matches, merge_view, next_index, lemma_next_index, shift_entries, sort_entries,
    styles_for, at_fold, at_step, entries_of, route, sheet_text, stops_of, top_rules,
    is_keyframes_keyword, AtItem, AtState, EntryView, GroupView, KeyframesView, MediaRuleView,
    SheetView,
};
use crate::at_rules::media_text;

verus! {

broadcast use vstd::seq_lib::group_seq_properties;

// ---------------------------------------------------------------------------
// Declarations of one kind
// ---------------------------------------------------------------------------

/// The last declaration of the given kind.
pub open spec fn last_of_kind(ds: Seq<DeclView>, k: nat) -> Option<DeclView>
    decreases ds.len(),
{
    if ds.len() == 0 {
        None
    } else if decl_kind(ds.last()) == k {
        Some(ds.last())
    } else {
        last_of_kind(ds.drop_last(), k)
    }
}

/// No two declarations are of the same kind.
pub open spec fn kinds_distinct(ds: Seq<DeclView>) -> bool {
    forall|i: int, j: int| 0 <= i < j < ds.len() ==> decl_kind(ds[i]) != decl_kind(ds[j])
}

/// `ds` holds, for each kind, the last declaration of that kind in `all`, and
/// nothing else.
pub open spec fn winners(ds: Seq<DeclView>, all: Seq<DeclView>) -> bool {
    &&& kinds_distinct(ds)
    &&& forall|k: nat|
        #![trigger kind_index(ds, k)]
        #![trigger last_of_kind(all, k)]
        (kind_index(ds, k) is Some <==> last_of_kind(all, k) is Some) && (kind_index(ds, k) is Some
            ==> ds[kind_index(ds, k).unwrap()] == last_of_kind(all, k).unwrap())
}

pub proof fn lemma_kind_index_from(ds: Seq<DeclView>, k: nat, i: int)
    requires
        0 <= i,
    ensures
        kind_index_from(ds, k, i) matches Some(j) ==> i <= j < ds.len() && decl_kind(ds[j]) == k
            && forall|m: int| i <= m < j ==> decl_kind(#[trigger] ds[m]) != k,
        kind_index_from(ds, k, i) is None ==> forall|m: int|
            i <= m < ds.len() ==> decl_kind(#[trigger] ds[m]) != k,
    decreases ds.len() - i,
{
    if i < ds.len() && decl_kind(ds[i]) != k {
        lemma_kind_index_from(ds, k, i + 1);
    }
}

/// Where kinds are distinct, a declaration of kind `k` sits exactly at the
/// index that `kind_index` gives.
pub proof fn lemma_kind_index_at(ds: Seq<DeclView>, k: nat, j: int)
    requires
        kinds_distinct(ds),
        0 <= j < ds.len(),
        decl_kind(ds[j]) == k,
    ensures
        kind_index(ds, k) == Some(j),
{
    lemma_kind_index_from(ds, k, 0);
}

/// Applying a declaration keeps the winners of everything applied so far.
pub proof fn lemma_apply_decl_winners(ds: Seq<DeclView>, all: Seq<DeclView>, d: DeclView)
    requires
        winners(ds, all),
    ensures
        winners(apply_decl(ds, d), all.push(d)),
{
    let kd = decl_kind(d);
    let r = apply_decl(ds, d);
    let all2 = all.push(d);
    assert(all2.drop_last() =~= all);
    lemma_kind_index_from(ds, kd, 0);
    match kind_index(ds, kd) {
        Some(i) => {
            assert(r == ds.update(i, d));
            assert(kinds_distinct(r));
            assert forall|k: nat| #![trigger kind_index(r, k)] #![trigger last_of_kind(all2, k)]
                (kind_index(r, k) is Some <==> last_of_kind(all2, k) is Some) && (kind_index(
                    r,
                    k,
                ) is Some ==> r[kind_index(r, k).unwrap()] == last_of_kind(all2, k).unwrap()) by {
                lemma_kind_index_from(ds, k, 0);
                lemma_kind_index_from(r, k, 0);
                if k == kd {
                    lemma_kind_index_at(r, k, i);
                } else {
                    assert(kind_index(ds, k) is Some ==> kind_index(ds, k).unwrap() != i);
                    if let Some(j) = kind_index(ds, k) {
                        lemma_kind_index_at(r, k, j);
                    }
                    if let Some(j) = kind_index(r, k) {
                        assert(j != i);
                        lemma_kind_index_at(ds, k, j);
                    }
                }
            }
        },
        None => {
            assert(r == ds.push(d));
            assert(kinds_distinct(r));
            assert forall|k: nat| #![trigger kind_index(r, k)] #![trigger last_of_kind(all2, k)]
                (kind_index(r, k) is Some <==> last_of_kind(all2, k) is Some) && (kind_index(
                    r,
                    k,
                ) is Some ==> r[kind_index(r, k).unwrap()] == last_of_kind(all2, k).unwrap()) by {
                lemma_kind_index_from(ds, k, 0);
                lemma_kind_index_from(r, k, 0);
                if k == kd {
                    lemma_kind_index_at(r, k, ds.len() as int);
                } else {
                    if let Some(j) = kind_index(ds, k) {
                        lemma_kind_index_at(r, k, j);
                    }
                    if let Some(j) = kind_index(r, k) {
                        assert(j < ds.len());
                        lemma_kind_index_at(ds, k, j);
                    }
                }
            }
        },
    }
}

pub proof fn lemma_apply_decls_winners(ds: Seq<DeclView>, all: Seq<DeclView>, new: Seq<DeclView>)
    requires
        winners(ds, all),
    ensures
        winners(apply_decls(ds, new), all + new),
    decreases new.len(),
{
    if new.len() == 0 {
        assert(all + new =~= all);
    } else {
        lemma_apply_decls_winners(ds, all, new.drop_last());
        lemma_apply_decl_winners(apply_decls(ds, new.drop_last()), all + new.drop_last(), new.last());
        assert((all + new.drop_last()).push(new.last()) =~= all + new);
    }
}

/// The empty list holds the winners of no declarations.
pub proof fn lemma_empty_winners()
    ensures
        winners(seq![], seq![]),
{
    let e = Seq::<DeclView>::empty();
    assert forall|k: nat| #![trigger kind_index(e, k)] #![trigger last_of_kind(e, k)]
        (kind_index(e, k) is Some <==> last_of_kind(e, k) is Some) && (kind_index(e, k) is Some
            ==> e[kind_index(e, k).unwrap()] == last_of_kind(e, k).unwrap()) by {}
}

// ---------------------------------------------------------------------------
// The cascade
// ---------------------------------------------------------------------------

/// The declarations of the rules with the given pseudo-class, in order.
pub open spec fn pseudo_decls(ms: Seq<EntryView>, p: Option<PseudoView>) -> Seq<DeclView>
    decreases ms.len(),
{
    if ms.len() == 0 {
        seq![]
    } else {
        pseudo_decls(ms.drop_last(), p) + if ms.last().selector.pseudo_class == p {
            ms.last().decls
        } else {
            seq![]
        }
    }
}

/// Groups that hold, for their pseudo-class, the winners of the rules `ms`:
/// one group per pseudo-class, a group for every pseudo-class that occurs.
pub open spec fn cascaded(groups: Seq<GroupView>, ms: Seq<EntryView>) -> bool {
    &&& forall|i: int, j: int| 0 <= i < j < groups.len() ==> groups[i].0 != groups[j].0
    &&& forall|i: int|
        0 <= i < groups.len() ==> winners(#[trigger] groups[i].1, pseudo_decls(ms, groups[i].0))
    &&& forall|p: Option<PseudoView>|
        group_index(groups, p) is None ==> #[trigger] pseudo_decls(ms, p) == Seq::<DeclView>::empty()
}

pub proof fn lemma_group_index_from(g: Seq<GroupView>, p: Option<PseudoView>, i: int)
    requires
        0 <= i,
    ensures
        group_index_from(g, p, i) matches Some(j) ==> i <= j < g.len() && g[j].0 == p,
        group_index_from(g, p, i) is None ==> forall|m: int| i <= m < g.len() ==> (#[trigger] g[m]).0
            != p,
    decreases g.len() - i,
{
    if i < g.len() && g[i].0 != p {
        lemma_group_index_from(g, p, i + 1);
    }
}

/// Every rule applied in turn keeps each group holding the winners of its
/// pseudo-class.
pub proof fn lemma_cascade_step(groups: Seq<GroupView>, ms: Seq<EntryView>, m: EntryView)
    requires
        cascaded(groups, ms),
    ensures
        cascaded(cascade_step(groups, m), ms.push(m)),
{
    let p = m.selector.pseudo_class;
    let ms2 = ms.push(m);
    assert(ms2.drop_last() =~= ms);
    let r = cascade_step(groups, m);
    lemma_group_index_from(groups, p, 0);
    assert forall|q: Option<PseudoView>| q != p implies #[trigger] pseudo_decls(ms2, q)
        == pseudo_decls(ms, q) by {
        assert(pseudo_decls(ms, q) + seq![] =~= pseudo_decls(ms, q));
    }
    assert(pseudo_decls(ms2, p) == pseudo_decls(ms, p) + m.decls);
    match group_index(groups, p) {
        Some(i) => {
            lemma_apply_decls_winners(groups[i].1, pseudo_decls(ms, p), m.decls);
            assert forall|a: int| 0 <= a < r.len() implies winners(
                #[trigger] r[a].1,
                pseudo_decls(ms2, r[a].0),
            ) by {
                if a != i {
                    assert(r[a] == groups[a]);
                    assert(groups[a].0 != p);
                }
            }
            assert forall|q: Option<PseudoView>| group_index(r, q) is None implies #[trigger] pseudo_decls(
                ms2,
                q,
            ) == Seq::<DeclView>::empty() by {
                lemma_group_index_from(r, q, 0);
                lemma_group_index_from(groups, q, 0);
                if q == p {
                    assert(r[i].0 == p);
                } else {
                    if let Some(j) = group_index(groups, q) {
                        assert(r[j].0 == q);
                    }
                }
            }
        },
        None => {
            assert(pseudo_decls(ms, p) == Seq::<DeclView>::empty());
            assert(pseudo_decls(ms2, p) =~= m.decls);
            lemma_empty_winners();
            lemma_apply_decls_winners(seq![], seq![], m.decls);
            assert(Seq::<DeclView>::empty() + m.decls =~= m.decls);
            assert forall|a: int| 0 <= a < r.len() implies winners(
                #[trigger] r[a].1,
                pseudo_decls(ms2, r[a].0),
            ) by {
                if a < groups.len() {
                    assert(r[a] == groups[a]);
                    assert(groups[a].0 != p);
                }
            }
            assert forall|q: Option<PseudoView>| group_index(r, q) is None implies #[trigger] pseudo_decls(
                ms2,
                q,
            ) == Seq::<DeclView>::empty() by {
                lemma_group_index_from(r, q, 0);
                lemma_group_index_from(groups, q, 0);
                if q == p {
                    assert(r[groups.len() as int].0 == p);
                } else {
                    if let Some(j) = group_index(groups, q) {
                        assert(r[j].0 == q);
                    }
                }
            }
        },
    }
}

/// Rules applied in order onto groups that hold the winners of earlier rules
/// give groups that hold the winners of all of them.
pub proof fn lemma_cascade_onto(g: Seq<GroupView>, before: Seq<EntryView>, ms: Seq<EntryView>)
    requires
        cascaded(g, before),
    ensures
        cascaded(cascade_onto(g, ms), before + ms),
    decreases ms.len(),
{
    if ms.len() == 0 {
        assert(before + ms =~= before);
    } else {
        lemma_cascade_onto(g, before, ms.drop_last());
        lemma_cascade_step(cascade_onto(g, ms.drop_last()), before + ms.drop_last(), ms.last());
        assert((before + ms.drop_last()).push(ms.last()) =~= before + ms);
    }
}

// ---------------------------------------------------------------------------
// Cascade order
// ---------------------------------------------------------------------------

pub open spec fn is_sorted(s: Seq<EntryView>) -> bool {
    forall|i: int, j: int| 0 <= i < j < s.len() ==> key_le(s[i], s[j])
}

pub proof fn lemma_key_le_total(a: EntryView, b: EntryView)
    ensures
        key_le(a, b) || key_le(b, a),
{
}

pub proof fn lemma_key_le_trans(a: EntryView, b: EntryView, c: EntryView)
    requires
        key_le(a, b),
        key_le(b, c),
    ensures
        key_le(a, c),
{
}

pub proof fn lemma_insert_sorted(s: Seq<EntryView>, x: EntryView)
    requires
        is_sorted(s),
    ensures
        is_sorted(insert_sorted(s, x)),
        insert_sorted(s, x).to_multiset() == s.to_multiset().insert(x),
        insert_sorted(s, x).len() == s.len() + 1,
    decreases s.len(),
{
    broadcast use vstd::multiset::group_multiset_axioms;

    if s.len() == 0 {
        assert(seq![x] =~= Seq::<EntryView>::empty().push(x));
        broadcast use vstd::seq_lib::group_to_multiset_ensures;
    } else if key_le(s.last(), x) {
        let r = s.push(x);
        assert forall|i: int, j: int| 0 <= i < j < r.len() implies key_le(r[i], r[j]) by {
            if j == s.len() {
                if i < s.len() - 1 {
                    lemma_key_le_trans(s[i], s.last(), x);
                }
            }
        }
        broadcast use vstd::seq_lib::group_to_multiset_ensures;
    } else {
        let init = s.drop_last();
        assert(is_sorted(init));
        lemma_insert_sorted(init, x);
        let t = insert_sorted(init, x);
        let r = t.push(s.last());
        assert(t.to_multiset() == init.to_multiset().insert(x));
        // Every element of `t` is `x` or one of `init`, and all are below `s.last()`.
        assert forall|i: int| 0 <= i < t.len() implies key_le(#[trigger] t[i], s.last()) by {
            broadcast use vstd::seq_lib::group_to_multiset_ensures;
            assert(t.to_multiset().count(t[i]) > 0);
            if t[i] == x {
                lemma_key_le_total(x, s.last());
            } else {
                assert(init.to_multiset().count(t[i]) > 0);
                assert(init.contains(t[i]));
                let k = choose|k: int| 0 <= k < init.len() && init[k] == t[i];
                assert(key_le(s[k], s[s.len() - 1]));
            }
        }
        assert forall|i: int, j: int| 0 <= i < j < r.len() implies key_le(r[i], r[j]) by {
            if j == t.len() {
                assert(key_le(t[i], s.last()));
            }
        }
        broadcast use vstd::seq_lib::group_to_multiset_ensures;
        assert(s =~= init.push(s.last()));
        assert(r.to_multiset() =~= s.to_multiset().insert(x));
    }
}

/// Sorting into cascade order gives a sorted sequence with the same entries.
pub proof fn lemma_sort_entries(s: Seq<EntryView>)
    ensures
        is_sorted(sort_entries(s)),
        sort_entries(s).to_multiset() == s.to_multiset(),
        sort_entries(s).len() == s.len(),
    decreases s.len(),
{
    broadcast use vstd::multiset::group_multiset_axioms;

    if s.len() > 0 {
        lemma_sort_entries(s.drop_last());
        lemma_insert_sorted(sort_entries(s.drop_last()), s.last());
        broadcast use vstd::seq_lib::group_to_multiset_ensures;
        assert(s =~= s.drop_last().push(s.last()));
    } else {
        broadcast use vstd::seq_lib::group_to_multiset_ensures;
    }
}

// ---------------------------------------------------------------------------
// The laws of style lookup
// ---------------------------------------------------------------------------

/// The rules that a query matches, in cascade order.
pub open spec fn sorted_matches(rules: Seq<EntryView>, q: Seq<char>) -> Seq<EntryView> {
    sort_entries(rules.filter(|e: EntryView| matches_query(e, q)))
}

/// Style lookup applies the cascade: the matching rules are taken in order of
/// specificity, then of source index, and the styles hold one group per
/// pseudo-class in which, for each kind of declaration, the one that is found
/// is the last of that kind among those rules (higher specificity and later
/// source order win, also within one rule).
pub proof fn law_styles_cascade(rules: Seq<EntryView>, q: Seq<char>)
    ensures
        is_sorted(sorted_matches(rules, q)),
        cascaded(styles_for(rules, q), sorted_matches(rules, q)),
{
    broadcast use vstd::multiset::group_multiset_axioms;

    let pred = |e: EntryView| matches_query(e, q);
    let f = rules.filter(pred);
    let ms = sorted_matches(rules, q);
    lemma_sort_entries(f);
    let empty = Seq::<GroupView>::empty();
    assert forall|p: Option<PseudoView>| group_index(empty, p) is None implies #[trigger] pseudo_decls(
        Seq::<EntryView>::empty(),
        p,
    ) == Seq::<DeclView>::empty() by {}
    assert(cascaded(empty, Seq::<EntryView>::empty()));
    lemma_cascade_onto(empty, Seq::<EntryView>::empty(), ms);
    assert(Seq::<EntryView>::empty() + ms =~= ms);
}

/// With `@media` rules, the declarations of the media rules that apply come
/// after the base styles: for each pseudo-class and kind, the one found is the
/// last of that kind among the matching base rules in cascade order followed
/// by the matching rules of the applying media rules, in order.
pub proof fn law_media_cascade(sheet: SheetView, q: Seq<char>, active: Seq<bool>)
    requires
        active.len() == sheet.media_rules.len(),
    ensures
        cascaded(
            cascade_onto(styles_for(sheet.rules, q), media_matches(sheet.media_rules, active, q)),
            sorted_matches(sheet.rules, q) + media_matches(sheet.media_rules, active, q),
        ),
{
    law_styles_cascade(sheet.rules, q);
    lemma_cascade_onto(
        styles_for(sheet.rules, q),
        sorted_matches(sheet.rules, q),
        media_matches(sheet.media_rules, active, q),
    );
}

/// Merging appends: every rule of the second style sheet comes after every
/// rule of the first in cascade order among rules of equal specificity, as
/// its source index is above all of theirs.
pub proof fn law_merge_later_wins(a: SheetView, b: SheetView)
    requires
        forall|j: int| 0 <= j < b.rules.len() ==> (#[trigger] b.rules[j]).index >= 0,
    ensures
        ({
            let m = merge_view(a, b);
            &&& m.rules.len() == a.rules.len() + b.rules.len()
            &&& forall|i: int, j: int|
                0 <= i < a.rules.len() && a.rules.len() <= j < m.rules.len() ==> (#[trigger] m.rules[i]).index
                    < (#[trigger] m.rules[j]).index
        }),
{
    let m = merge_view(a, b);
    let sh = shift_entries(b.rules, next_index(a.rules));
    lemma_next_index(a.rules);
    assert forall|i: int, j: int|
        0 <= i < a.rules.len() && a.rules.len() <= j < m.rules.len() implies (#[trigger] m.rules[i]).index
        < (#[trigger] m.rules[j]).index by {
        assert(m.rules[i] == a.rules[i]);
        assert(m.rules[j] == sh[j - a.rules.len()]);
        assert(b.rules[j - a.rules.len()].index >= 0);
    }
}

/// Merging an empty style sheet changes nothing.
pub proof fn law_merge_empty(a: SheetView)
    ensures
        merge_view(a, empty_sheet()) == a,
{
    assert(merge_view(a, empty_sheet()).rules =~= a.rules);
    assert(merge_view(a, empty_sheet()).media_rules =~= a.media_rules);
    assert(merge_view(a, empty_sheet()).font_faces =~= a.font_faces);
    assert(merge_view(a, empty_sheet()).import_rules =~= a.import_rules);
}

/// After removing a selector, no rule with that selector is left, and the other
/// rules keep their order.
pub proof fn law_remove_selector(rules: Seq<EntryView>, sel: Seq<char>)
    ensures
        ({
            let kept = rules.filter(|e: EntryView| e.selector.selector != sel);
            &&& forall|i: int| 0 <= i < kept.len() ==> (#[trigger] kept[i]).selector.selector != sel
            &&& forall|i: int|
                0 <= i < rules.len() && rules[i].selector.selector != sel ==> kept.contains(
                    #[trigger] rules[i],
                )
        }),
{
    broadcast use vstd::seq_lib::group_filter_ensures;

    let pred = |e: EntryView| e.selector.selector != sel;
    let kept = rules.filter(pred);
    assert forall|i: int| 0 <= i < kept.len() implies (#[trigger] kept[i]).selector.selector != sel by {
        assert(pred(kept[i]));
    }
    assert forall|i: int| 0 <= i < rules.len() && rules[i].selector.selector != sel implies kept.contains(
        #[trigger] rules[i],
    ) by {
        assert(pred(rules[i]));
    }
}

/// Keyframes stored by name are found by that name, and storing them leaves
/// the sets of other names as they were.
pub proof fn law_keyframes_by_name(kfs: Seq<KeyframesView>, k: KeyframesView, other: Seq<char>)
    requires
        other != k.name,
    ensures
        kf_index(kf_insert(kfs, k), k.name) matches Some(i) && kf_insert(kfs, k)[i] == k,
        match kf_index(kfs, other) {
            Some(i) => kf_index(kf_insert(kfs, k), other) == Some(i) && kf_insert(kfs, k)[i]
                == kfs[i],
            None => kf_index(kf_insert(kfs, k), other) is None,
        },
{
    let r = kf_insert(kfs, k);
    lemma_kf_index_char(kfs, k.name, 0);
    lemma_kf_index_char(kfs, other, 0);
    lemma_kf_index_char(r, k.name, 0);
    lemma_kf_index_char(r, other, 0);
    match kf_index(kfs, k.name) {
        Some(i) => {
            assert(r == kfs.update(i, k));
            assert(r[i].name == k.name);
            match kf_index(r, k.name) {
                Some(j) => {
                    if j < i {
                        assert(r[j] == kfs[j]);
                    }
                    assert(j == i);
                },
                None => {
                    assert(r[i].name != k.name);
                },
            }
            match kf_index(kfs, other) {
                Some(o) => {
                    assert(o != i);
                    match kf_index(r, other) {
                        Some(j) => {
                            if j < o {
                                assert(r[j] == kfs[j] || j == i);
                            }
                            if j > o {
                                assert(r[o] == kfs[o]);
                            }
                        },
                        None => {
                            assert(r[o] == kfs[o]);
                        },
                    }
                },
                None => {
                    match kf_index(r, other) {
                        Some(j) => {
                            assert(j != i);
                            assert(r[j] == kfs[j]);
                        },
                        None => {},
                    }
                },
            }
        },
        None => {
            assert(r == kfs.push(k));
            let n = kfs.len() as int;
            match kf_index(r, k.name) {
                Some(j) => {
                    if j < n {
                        assert(r[j] == kfs[j]);
                    }
                },
                None => {
                    assert(r[n].name == k.name);
                },
            }
            match kf_index(kfs, other) {
                Some(o) => {
                    match kf_index(r, other) {
                        Some(j) => {
                            if j < o {
                                assert(r[j] == kfs[j]);
                            }
                            if j > o {
                                assert(r[o] == kfs[o]);
                            }
                        },
                        None => {
                            assert(r[o] == kfs[o]);
                        },
                    }
                },
                None => {
                    match kf_index(r, other) {
                        Some(j) => {
                            if j < n {
                                assert(r[j] == kfs[j]);
                            }
                        },
                        None => {},
                    }
                },
            }
        },
    }
}

proof fn lemma_kf_index_char(kfs: Seq<KeyframesView>, name: Seq<char>, i: int)
    requires
        0 <= i,
    ensures
        kf_index_from(kfs, name, i) matches Some(j) ==> i <= j < kfs.len() && kfs[j].name == name
            && forall|m: int| i <= m < j ==> (#[trigger] kfs[m]).name != name,
        kf_index_from(kfs, name, i) is None ==> forall|m: int|
            i <= m < kfs.len() ==> (#[trigger] kfs[m]).name != name,
    decreases kfs.len() - i,
{
    if i < kfs.len() && kfs[i].name != name {
        lemma_kf_index_char(kfs, name, i + 1);
    }
}

/// Substituting `:root` variables removes their definitions from the `:root`
/// rule: none of its properties defines a variable any more.
pub proof fn law_root_definitions_removed(rules: Seq<RuleView>)
    requires
        rules_wf(rules),
    ensures
        root_from(rules, 0) matches Some(ri) ==> forall|k: int|
            0 <= k < with_vars_replaced(rules)[ri].properties.len() ==> !is_var_def(
                #[trigger] with_vars_replaced(rules)[ri].properties[k],
            ),
{
    crate::parser::lemma_root_from(rules, 0);
    if let Some(ri) = root_from(rules, 0) {
        let root = rules[ri];
        let out = with_vars_replaced(rules);
        assert(out[ri].properties == crate::parser::without_defs(root).properties);
        lemma_kept_decls(root, root.properties.len() as int);
    }
}

proof fn lemma_kept_decls(r: RuleView, n: int)
    ensures
        forall|k: int|
            0 <= k < crate::parser::kept_decls(r, n).len() ==> !is_var_def(
                #[trigger] crate::parser::kept_decls(r, n)[k].0,
            ),
    decreases n,
{
    if n > 0 && n <= r.properties.len() && n <= r.values.len() {
        lemma_kept_decls(r, n - 1);
        let prev = crate::parser::kept_decls(r, n - 1);
        let cur = crate::parser::kept_decls(r, n);
        assert forall|k: int| 0 <= k < cur.len() implies !is_var_def(#[trigger] cur[k].0) by {
            if k < prev.len() {
                assert(cur[k] == prev[k]);
            }
        }
    }
}

proof fn lemma_route_plain(ts: Seq<TokenView>, i: int)
    requires
        0 <= i <= ts.len(),
        forall|k: int| 0 <= k < ts.len() ==> !(#[trigger] ts[k] is AtRule),
    ensures
        route(ts, i).top == ts.skip(i),
        route(ts, i).items.len() == 0,
    decreases ts.len() - i,
{
    if i < ts.len() {
        lemma_route_plain(ts, i + 1);
        assert(seq![ts[i]] + ts.skip(i + 1) =~= ts.skip(i));
    } else {
        assert(ts.skip(i) =~= Seq::<TokenView>::empty());
    }
}

/// Without at-rules, a style sheet holds the rules that `css_to_rules` reads
/// from the same text, one entry per selector numbered from 0, and nothing
/// else.
pub proof fn law_sheet_without_at_rules(s: Seq<char>)
    requires
        forall|k: int| 0 <= k < lex(s).len() ==> !(#[trigger] lex(s)[k] is AtRule),
    ensures
        sheet_text(s) == (SheetView {
            rules: entries_of(with_vars_replaced(parse_rules(lex(s))), 0),
            media_rules: seq![],
            keyframes: seq![],
            font_faces: seq![],
            import_rules: seq![],
        }),
{
    let ts = lex(s);
    lemma_route_plain(ts, 0);
    assert(ts.skip(0) =~= ts);
    assert(route(ts, 0).items =~= Seq::<crate::style::AtItem>::empty());
    assert(top_rules(s) == with_vars_replaced(parse_rules(ts)));
}

/// Each at-rule goes where its keyword says: `@media` adds one media rule with
/// the query of its prelude and changes nothing else but the next source
/// index; `@keyframes` stores keyframes under the name of its prelude and
/// changes nothing else; `@font-face` adds at most a font face; `@import` adds
/// at most an import; any other at-rule changes nothing.
pub proof fn law_at_rule_routing(st: AtState, item: AtItem)
    ensures
        ({
            let r = at_step(st, item);
            match item {
                AtItem::Block { keyword, prelude, inner } => {
                    &&& r.imports == st.imports
                    &&& keyword == "media"@ ==> r.keyframes == st.keyframes && r.faces == st.faces
                        && r.media.len() == st.media.len() + 1 && r.media.take(
                        st.media.len() as int,
                    ) == st.media && r.media.last().query == media_text(prelude)
                    &&& is_keyframes_keyword(keyword) ==> r.media == st.media && r.faces
                        == st.faces && r.next == st.next && (kf_index(r.keyframes, prelude) matches Some(
                        i,
                    ) && r.keyframes[i].name == prelude)
                    &&& keyword == "font-face"@ ==> r.media == st.media && r.keyframes
                        == st.keyframes && r.next == st.next && (r.faces == st.faces || (
                    r.faces.len() == st.faces.len() + 1 && r.faces.drop_last() == st.faces))
                    &&& !(keyword == "media"@ || is_keyframes_keyword(keyword) || keyword
                        == "font-face"@) ==> r == st
                },
                AtItem::Statement { keyword, prelude } => {
                    &&& r.media == st.media && r.keyframes == st.keyframes && r.faces == st.faces
                        && r.next == st.next
                    &&& keyword != "import"@ ==> r.imports == st.imports
                    &&& keyword == "import"@ ==> (r.imports == st.imports || (r.imports.len()
                        == st.imports.len() + 1 && r.imports.drop_last() == st.imports))
                },
            }
        }),
{
    reveal_strlit("media");
    reveal_strlit("keyframes");
    reveal_strlit("-webkit-keyframes");
    reveal_strlit("font-face");
    assert("media"@.len() == 5);
    assert("keyframes"@.len() == 9);
    assert("-webkit-keyframes"@.len() == 17);
    assert("font-face"@.len() == 9);
    assert("keyframes"@[0] != "font-face"@[0]);
    match item {
        AtItem::Block { keyword, prelude, inner } => {
            if keyword == "media"@ {
                let r = at_step(st, item);
                assert(r.media.take(st.media.len() as int) =~= st.media);
            } else if is_keyframes_keyword(keyword) {
                let k = KeyframesView { name: prelude, stops: stops_of(inner) };
                law_keyframes_by_name(st.keyframes, k, prelude.push('x'));
            } else if keyword == "font-face"@ {
                let r = at_step(st, item);
                if r.faces != st.faces {
                    assert(r.faces.drop_last() =~= st.faces);
                }
            }
        },
        AtItem::Statement { keyword, prelude } => {
            let r = at_step(st, item);
            if keyword == "import"@ && r.imports != st.imports {
                assert(r.imports.drop_last() =~= st.imports);
            }
        },
    }
}

} // verus!
