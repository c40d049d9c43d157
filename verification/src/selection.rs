//! Editing the set of selected display keys from the tray menu: the saved
//! selection is kept sorted and free of repeats, "All displays" clears it,
//! and picking a display toggles it.
use vstd::prelude::*;
use crate::text::chars_of;

verus! {

/// Lexicographic order of strings by character code (the order of `String`).
pub open spec fn text_less(a: Seq<char>, b: Seq<char>) -> bool
    decreases a.len(),
{
    if a.len() == 0 {
        b.len() > 0
    } else if b.len() == 0 {
        false
    } else if a[0] != b[0] {
        (a[0] as u32) < (b[0] as u32)
    } else {
        text_less(a.drop_first(), b.drop_first())
    }
}

/// Every entry is less than every later one: sorted, with no repeats.
pub open spec fn strictly_sorted(s: Seq<Seq<char>>) -> bool {
    forall|i: int, j: int| 0 <= i < j < s.len() ==> text_less(#[trigger] s[i], #[trigger] s[j])
}

pub proof fn lemma_text_less_irreflexive(a: Seq<char>)
    ensures
        !text_less(a, a),
    decreases a.len(),
{
    if a.len() > 0 {
        lemma_text_less_irreflexive(a.drop_first());
    }
}

pub proof fn lemma_text_less_total(a: Seq<char>, b: Seq<char>)
    ensures
        a == b || text_less(a, b) || text_less(b, a),
    decreases a.len(),
{
    if a.len() > 0 && b.len() > 0 && a[0] == b[0] {
        lemma_text_less_total(a.drop_first(), b.drop_first());
        if a.drop_first() == b.drop_first() {
            assert(a =~= seq![a[0]] + a.drop_first());
            assert(b =~= seq![b[0]] + b.drop_first());
        }
    } else if a.len() > 0 && b.len() > 0 {
        vstd::utf8::char_u32_cast(a[0], a[0] as u32);
        vstd::utf8::char_u32_cast(b[0], b[0] as u32);
    } else if a.len() == 0 && b.len() == 0 {
        assert(a =~= b);
    }
}

pub proof fn lemma_text_less_asymmetric(a: Seq<char>, b: Seq<char>)
    requires
        text_less(a, b),
    ensures
        !text_less(b, a),
    decreases a.len(),
{
    if a.len() > 0 && b.len() > 0 && a[0] == b[0] {
        lemma_text_less_asymmetric(a.drop_first(), b.drop_first());
    }
}

pub proof fn lemma_text_less_transitive(a: Seq<char>, b: Seq<char>, c: Seq<char>)
    requires
        text_less(a, b),
        text_less(b, c),
    ensures
        text_less(a, c),
    decreases a.len(),
{
    if a.len() > 0 && b.len() > 0 && c.len() > 0 {
        if a[0] == b[0] && b[0] == c[0] {
            lemma_text_less_transitive(a.drop_first(), b.drop_first(), c.drop_first());
        } else {
            vstd::utf8::char_u32_cast(a[0], a[0] as u32);
            vstd::utf8::char_u32_cast(b[0], b[0] as u32);
            vstd::utf8::char_u32_cast(c[0], c[0] as u32);
        }
    }
}

/// Whether `a` comes before `b`.
pub fn text_lt(a: &String, b: &String) -> (r: bool)
    ensures
        r == text_less(a@, b@),
{
    let x = chars_of(a.as_str());
    let y = chars_of(b.as_str());
    let mut i: usize = 0;
    while i < x.len() && i < y.len() && x[i] == y[i]
        invariant
            x@ == a@,
            y@ == b@,
            i <= x.len(),
            i <= y.len(),
            x@.subrange(0, i as int) == y@.subrange(0, i as int),
        decreases x.len() - i,
    {
        i = i + 1;
        assert(x@.subrange(0, i as int) =~= x@.subrange(0, i - 1).push(x@[i - 1]));
        assert(y@.subrange(0, i as int) =~= y@.subrange(0, i - 1).push(y@[i - 1]));
    }
    proof {
        lemma_text_less_common_prefix(a@, b@, i as int);
    }
    if i < x.len() && i < y.len() {
        (x[i] as u32) < (y[i] as u32)
    } else {
        i == x.len() && i < y.len()
    }
}

proof fn lemma_text_less_common_prefix(a: Seq<char>, b: Seq<char>, i: int)
    requires
        0 <= i <= a.len(),
        i <= b.len(),
        a.subrange(0, i) == b.subrange(0, i),
    ensures
        text_less(a, b) == text_less(a.subrange(i, a.len() as int), b.subrange(i, b.len() as int)),
    decreases i,
{
    if i == 0 {
        assert(a.subrange(0, a.len() as int) =~= a);
        assert(b.subrange(0, b.len() as int) =~= b);
    } else {
        assert(a[0] == a.subrange(0, i)[0]);
        assert(b[0] == b.subrange(0, i)[0]);
        let a1 = a.drop_first();
        let b1 = b.drop_first();
        assert(a1.subrange(0, i - 1) =~= a.subrange(0, i).drop_first());
        assert(b1.subrange(0, i - 1) =~= b.subrange(0, i).drop_first());
        lemma_text_less_common_prefix(a1, b1, i - 1);
        assert(a1.subrange(i - 1, a1.len() as int) =~= a.subrange(i, a.len() as int));
        assert(b1.subrange(i - 1, b1.len() as int) =~= b.subrange(i, b.len() as int));
    }
}

/// Puts `item` into a strictly sorted list at its place, unless it is there
/// already.
fn insert_sorted(list: &mut Vec<String>, item: String)
    requires
        strictly_sorted(old(list).deep_view()),
    ensures
        strictly_sorted(final(list).deep_view()),
        forall|k: Seq<char>| final(list).deep_view().contains(k) <==> (old(list).deep_view().contains(k) || k == item@),
{
    let ghost before = list.deep_view();
    let mut p: usize = 0;
    while p < list.len() && text_lt(&list[p], &item)
        invariant
            before == list.deep_view(),
            p <= list.len(),
            forall|j: int| 0 <= j < p ==> text_less(#[trigger] before[j], item@),
        decreases list.len() - p,
    {
        p = p + 1;
    }
    if p < list.len() && list[p] == item {
        assert(before[p as int] == item@);
        return;
    }
    proof {
        if p < before.len() {
            lemma_text_less_total(before[p as int], item@);
        }
    }
    list.insert(p, item);
    proof {
        let after = list.deep_view();
        assert(after =~= before.insert(p as int, item@));
        assert forall|i: int, j: int| 0 <= i < j < after.len() implies text_less(
            #[trigger] after[i],
            #[trigger] after[j],
        ) by {
            if j < p {
            } else if j == p {
                assert(text_less(before[i], item@));
            } else if i == p {
                assert(after[j] == before[j - 1]);
                if j - 1 > p {
                    assert(text_less(before[p as int], before[j - 1]));
                    lemma_text_less_transitive(item@, before[p as int], before[j - 1]);
                }
            } else if i < p {
                assert(after[j] == before[j - 1]);
                assert(text_less(before[i], before[j - 1]));
            } else {
                assert(after[i] == before[i - 1]);
                assert(after[j] == before[j - 1]);
            }
        }
        assert forall|k: Seq<char>| after.contains(k) <==> (before.contains(k) || k == item@) by {
            if after.contains(k) {
                let m = choose|m: int| 0 <= m < after.len() && after[m] == k;
                if m < p {
                    assert(before[m] == k);
                } else if m > p {
                    assert(before[m - 1] == k);
                }
            }
            if before.contains(k) {
                let m = choose|m: int| 0 <= m < before.len() && before[m] == k;
                if m < p {
                    assert(after[m] == k);
                } else {
                    assert(after[m + 1] == k);
                }
            }
            if k == item@ {
                assert(after[p as int] == k);
            }
        }
    }
}

/// Sorts the selected keys and drops repeats; `sort` then `dedup`.
pub fn sort_and_dedup(targets: &mut Vec<String>)
    ensures
        strictly_sorted(final(targets).deep_view()),
        forall|k: Seq<char>| final(targets).deep_view().contains(k) <==> old(targets).deep_view().contains(k),
{
    let ghost original = targets.deep_view();
    let mut sorted: Vec<String> = Vec::new();
    let mut i: usize = 0;
    while i < targets.len()
        invariant
            original == targets.deep_view(),
            i <= original.len(),
            strictly_sorted(sorted.deep_view()),
            forall|k: Seq<char>| sorted.deep_view().contains(k) <==> original.subrange(0, i as int).contains(k),
        decreases original.len() - i,
    {
        let item = targets[i].clone();
        proof {
            assert(original[i as int] == item@);
        }
        insert_sorted(&mut sorted, item);
        proof {
            let s0 = original.subrange(0, i as int);
            let s1 = original.subrange(0, i + 1);
            assert(s1 =~= s0.push(item@));
            assert forall|k: Seq<char>| s1.contains(k) <==> (s0.contains(k) || k == item@) by {
                if s1.contains(k) {
                    let m = choose|m: int| 0 <= m < s1.len() && s1[m] == k;
                    if m < i {
                        assert(s0[m] == k);
                    }
                }
                if s0.contains(k) {
                    let m = choose|m: int| 0 <= m < s0.len() && s0[m] == k;
                    assert(s1[m] == k);
                }
                if k == item@ {
                    assert(s1[i as int] == k);
                }
            }
        }
        i = i + 1;
    }
    assert(original.subrange(0, original.len() as int) =~= original);
    *targets = sorted;
}

/// Selects every display: clears the selection.
pub fn select_all(targets: &mut Vec<String>)
    ensures
        final(targets)@.len() == 0,
{
    targets.clear();
}

/// The position of the first occurrence of `key` in `s`.
pub open spec fn first_index(s: Seq<Seq<char>>, key: Seq<char>) -> int {
    choose|p: int| 0 <= p < s.len() && s[p] == key && forall|j: int| 0 <= j < p ==> s[j] != key
}

/// The selection after toggling `key`, before sorting: when nothing was
/// selected (every display), only `key`; otherwise the first `key` is
/// taken out if it is there, and `key` is added if not.
pub open spec fn toggled(selected: Seq<Seq<char>>, key: Seq<char>) -> Seq<Seq<char>> {
    if selected.len() == 0 {
        seq![key]
    } else if selected.contains(key) {
        selected.remove(first_index(selected, key))
    } else {
        selected.push(key)
    }
}

/// Toggles the display with `target_key` in the selection, then sorts it
/// and drops repeats.
pub fn toggle_target_selection(targets: &mut Vec<String>, target_key: String)
    ensures
        strictly_sorted(final(targets).deep_view()),
        forall|x: Seq<char>| final(targets).deep_view().contains(x) <==> toggled(old(targets).deep_view(), target_key@).contains(x),
{
    let ghost before = targets.deep_view();
    let ghost key = target_key@;
    if targets.len() == 0 {
        targets.push(target_key);
        assert(targets.deep_view() =~= seq![key]);
    } else {
        let mut position: Option<usize> = None;
        let mut i: usize = 0;
        while i < targets.len()
            invariant
                before == targets.deep_view(),
                key == target_key@,
                i <= targets.len(),
                position is None ==> forall|j: int| 0 <= j < i ==> before[j] != key,
                position matches Some(p) ==> (p < targets.len() && before[p as int] == key
                    && forall|j: int| 0 <= j < p ==> before[j] != key),
            decreases targets.len() - i,
        {
            if position.is_none() && targets[i] == target_key {
                position = Some(i);
            }
            i = i + 1;
        }
        match position {
            Some(p) => {
                proof {
                    assert(before.contains(key));
                    let q = first_index(before, key);
                    assert(0 <= q < before.len() && before[q] == key && forall|j: int| 0 <= j < q ==> before[j] != key);
                    assert(q == p) by {
                        if q < p {
                            assert(before[q] != key);
                        }
                        if p < q {
                            assert(before[p as int] != key);
                        }
                    }
                }
                targets.remove(p);
                assert(targets.deep_view() =~= before.remove(p as int));
            },
            None => {
                targets.push(target_key);
                assert(targets.deep_view() =~= before.push(key));
            },
        }
    }
    sort_and_dedup(targets);
}

/// Toggling a display in a selection without repeats: from the empty
/// selection (every display) only that display ends up selected; a selected
/// display is taken out; an unselected one is added; no other display
/// changes.
pub proof fn law_toggle_membership(selected: Seq<Seq<char>>, key: Seq<char>)
    requires
        forall|i: int, j: int|
            0 <= i < selected.len() && 0 <= j < selected.len() && selected[i] == selected[j] ==> i == j,
    ensures
        forall|x: Seq<char>|
            #[trigger] toggled(selected, key).contains(x) <==> (if selected.len() == 0 {
                x == key
            } else if selected.contains(key) {
                selected.contains(x) && x != key
            } else {
                selected.contains(x) || x == key
            }),
{
    let t = toggled(selected, key);
    assert forall|x: Seq<char>| t.contains(x) <==> (if selected.len() == 0 {
        x == key
    } else if selected.contains(key) {
        selected.contains(x) && x != key
    } else {
        selected.contains(x) || x == key
    }) by {
        if selected.len() == 0 {
            if t.contains(x) {
                assert(t[0] == x);
            }
            if x == key {
                assert(t[0] == x);
            }
        } else if selected.contains(key) {
            let p = first_index(selected, key);
            assert(t =~= selected.remove(p));
            if t.contains(x) {
                let m = choose|m: int| 0 <= m < t.len() && t[m] == x;
                if m < p {
                    assert(selected[m] == x);
                    assert(m != p);
                } else {
                    assert(selected[m + 1] == x);
                    assert(m + 1 != p);
                }
            }
            if selected.contains(x) && x != key {
                let m = choose|m: int| 0 <= m < selected.len() && selected[m] == x;
                if m < p {
                    assert(t[m] == x);
                } else {
                    assert(m != p);
                    assert(t[m - 1] == x);
                }
            }
        } else {
            if t.contains(x) {
                let m = choose|m: int| 0 <= m < t.len() && t[m] == x;
                if m < selected.len() {
                    assert(selected[m] == x);
                }
            }
            if selected.contains(x) {
                let m = choose|m: int| 0 <= m < selected.len() && selected[m] == x;
                assert(t[m] == x);
            }
            if x == key {
                assert(t[selected.len() as int] == x);
            }
        }
    }
}

/// Toggling the same display twice gives back the same selection, for a
/// saved selection (sorted, without repeats).
pub proof fn law_toggle_twice_restores(selected: Seq<Seq<char>>, key: Seq<char>, after: Seq<Seq<char>>)
    requires
        strictly_sorted(selected),
        strictly_sorted(after),
        forall|x: Seq<char>| after.contains(x) <==> toggled(selected, key).contains(x),
    ensures
        forall|x: Seq<char>| toggled(after, key).contains(x) <==> selected.contains(x),
{
    lemma_strictly_sorted_unique(selected);
    law_toggle_membership(selected, key);
    lemma_strictly_sorted_unique(after);
    law_toggle_membership(after, key);
    let u = toggled(after, key);
    assert forall|x: Seq<char>| u.contains(x) <==> selected.contains(x) by {
        assert(u.contains(x) == toggled(after, key).contains(x));
        assert(after.contains(key) == toggled(selected, key).contains(key));
        if selected.len() == 0 {
            assert(after.contains(key));
            if after.contains(x) {
                assert(toggled(selected, key).contains(x));
                assert(x == key);
            }
            assert(!selected.contains(x));
        } else if selected.contains(key) {
            assert(after.contains(x) == toggled(selected, key).contains(x));
            if after.len() == 0 {
                assert forall|y: Seq<char>| selected.contains(y) implies y == key by {
                    if y != key {
                        assert(toggled(selected, key).contains(y));
                        assert(after.contains(y));
                        assert(!after.contains(y));
                    }
                }
                if selected.contains(x) {
                    assert(x == key);
                }
            } else {
                assert(!after.contains(key));
            }
        } else {
            assert(after.contains(x) == toggled(selected, key).contains(x));
            assert(after.contains(key));
            assert(after.len() > 0);
        }
    }
}

/// In a strictly sorted list no entry occurs twice.
pub proof fn lemma_strictly_sorted_unique(s: Seq<Seq<char>>)
    requires
        strictly_sorted(s),
    ensures
        forall|i: int, j: int| 0 <= i < s.len() && 0 <= j < s.len() && s[i] == s[j] ==> i == j,
{
    assert forall|i: int, j: int| 0 <= i < s.len() && 0 <= j < s.len() && s[i] == s[j] implies i == j by {
        if i < j {
            assert(text_less(s[i], s[j]));
            lemma_text_less_irreflexive(s[i]);
        } else if j < i {
            assert(text_less(s[j], s[i]));
            lemma_text_less_irreflexive(s[j]);
        }
    }
}

} // verus!
