//! One row of the learned value table: the value estimates a single state
//! key holds, one entry per discrete action already tried there.
//!
//! Entries stay in first-encountered order, and that order is what breaks
//! ties when the best action is picked — the policy is deterministic all
//! the way down. An action with no entry is estimated at zero (optimistic
//! zero initialisation).

use vstd::prelude::*;
use crate::fixed::Q_LIMIT;

verus! {

/// One learned estimate: the value of one discrete action at one state.
#[derive(Clone, Copy, Debug, PartialEq, Eq, Structural)]
pub struct QEntry {
    /// Identifier of the discrete action, at most 6.
    pub action: u8,
    /// Current value estimate, within `Q_LIMIT` of zero.
    pub value: i64,
}

/// A well-formed row: small action identifiers, bounded values, and no
/// action listed twice.
pub open spec fn row_wf(s: Seq<QEntry>) -> bool {
    &&& forall|i: int| 0 <= i < s.len() ==> (#[trigger] s[i]).action <= 6
    &&& forall|i: int|
        0 <= i < s.len() ==> -Q_LIMIT <= (#[trigger] s[i]).value as int <= Q_LIMIT as int
    &&& forall|i: int, j: int| 0 <= i < j < s.len() ==> s[i].action != s[j].action
}

/// Whether the row holds an entry for action `a`.
pub open spec fn row_has(s: Seq<QEntry>, a: int) -> bool
    decreases s.len(),
{
    if s.len() == 0 {
        false
    } else if s[0].action == a {
        true
    } else {
        row_has(s.drop_first(), a)
    }
}

/// Value the row stores for action `a`, zero when the action is absent.
pub open spec fn row_val(s: Seq<QEntry>, a: int) -> int
    decreases s.len(),
{
    if s.len() == 0 {
        0
    } else if s[0].action == a {
        s[0].value as int
    } else {
        row_val(s.drop_first(), a)
    }
}

/// Largest value in the row, folded over a running accumulator.
pub open spec fn row_max_from(s: Seq<QEntry>, acc: int) -> int
    decreases s.len(),
{
    if s.len() == 0 {
        acc
    } else {
        row_max_from(s.drop_first(), if s[0].value as int > acc { s[0].value as int } else { acc })
    }
}

/// Largest stored value of a nonempty row.
pub open spec fn row_max_spec(s: Seq<QEntry>) -> int
    recommends
        s.len() >= 1,
{
    row_max_from(s.drop_first(), s[0].value as int)
}

/// Action of the best entry, scanning left with a running best; a later
/// entry wins only by a strictly greater value.
pub open spec fn row_best_from(s: Seq<QEntry>, best_a: int, best_v: int) -> int
    decreases s.len(),
{
    if s.len() == 0 {
        best_a
    } else if s[0].value as int > best_v {
        row_best_from(s.drop_first(), s[0].action as int, s[0].value as int)
    } else {
        row_best_from(s.drop_first(), best_a, best_v)
    }
}

/// Action with the highest stored value, ties broken by first-encountered
/// order; the no-op identifier when the row is empty.
pub open spec fn row_best_spec(s: Seq<QEntry>) -> int {
    if s.len() == 0 {
        6
    } else {
        row_best_from(s.drop_first(), s[0].action as int, s[0].value as int)
    }
}

/// The row after the estimate of action `a` is set to `v`: updated in
/// place when present, appended when new; order otherwise untouched.
pub open spec fn row_set_spec(s: Seq<QEntry>, a: int, v: int) -> Seq<QEntry>
    decreases s.len(),
{
    if s.len() == 0 {
        seq![QEntry { action: a as u8, value: v as i64 }]
    } else if s[0].action == a {
        seq![QEntry { action: a as u8, value: v as i64 }] + s.drop_first()
    } else {
        seq![s[0]] + row_set_spec(s.drop_first(), a, v)
    }
}

/// An absent action means no index holds it.
pub proof fn lemma_row_has_index(s: Seq<QEntry>, a: int)
    ensures
        row_has(s, a) <==> exists|j: int| 0 <= j < s.len() && s[j].action == a,
    decreases s.len(),
{
    if s.len() > 0 {
        lemma_row_has_index(s.drop_first(), a);
        if row_has(s.drop_first(), a) {
            let j = choose|j: int|
                0 <= j < s.drop_first().len() && s.drop_first()[j].action == a;
            assert(s[j + 1].action == a);
        }
        if exists|j: int| 0 <= j < s.len() && s[j].action == a {
            let j = choose|j: int| 0 <= j < s.len() && s[j].action == a;
            if j > 0 && s[0].action != a {
                assert(s.drop_first()[j - 1].action == a);
            }
        }
    }
}

/// The value of the first index holding `a` is the row's value for `a`.
pub proof fn lemma_row_val_at(s: Seq<QEntry>, a: int, i: int)
    requires
        0 <= i < s.len(),
        s[i].action == a,
        forall|j: int| 0 <= j < i ==> s[j].action != a,
    ensures
        row_has(s, a),
        row_val(s, a) == s[i].value as int,
    decreases s.len(),
{
    if s[0].action != a {
        assert(forall|j: int|
            0 <= j < i - 1 ==> #[trigger] s.drop_first()[j].action == s[j + 1].action);
        lemma_row_val_at(s.drop_first(), a, i - 1);
    }
}

/// Setting an absent action appends its entry.
pub proof fn lemma_row_set_absent(s: Seq<QEntry>, a: int, v: int)
    requires
        !row_has(s, a),
    ensures
        row_set_spec(s, a, v) =~= s.push(QEntry { action: a as u8, value: v as i64 }),
    decreases s.len(),
{
    if s.len() > 0 {
        lemma_row_set_absent(s.drop_first(), a, v);
    }
}

/// Setting a present action rewrites exactly its first entry.
pub proof fn lemma_row_set_at(s: Seq<QEntry>, a: int, v: int, i: int)
    requires
        0 <= i < s.len(),
        s[i].action == a,
        forall|j: int| 0 <= j < i ==> s[j].action != a,
    ensures
        row_set_spec(s, a, v) =~= s.update(i, QEntry { action: a as u8, value: v as i64 }),
    decreases s.len(),
{
    if s[0].action == a {
        assert(i == 0);
    } else {
        assert(forall|j: int|
            0 <= j < i - 1 ==> #[trigger] s.drop_first()[j].action == s[j + 1].action);
        lemma_row_set_at(s.drop_first(), a, v, i - 1);
        assert(s.update(i, QEntry { action: a as u8, value: v as i64 }).drop_first() =~= s
            .drop_first()
            .update(i - 1, QEntry { action: a as u8, value: v as i64 }));
    }
}

/// What one `row_set` changes and what it leaves alone.
pub proof fn lemma_row_set_props(s: Seq<QEntry>, a: int, v: int)
    requires
        row_wf(s),
        0 <= a <= 6,
        -Q_LIMIT <= v <= Q_LIMIT as int,
    ensures
        row_wf(row_set_spec(s, a, v)),
        row_set_spec(s, a, v).len() >= 1,
        row_set_spec(s, a, v).len() == if row_has(s, a) {
            s.len() as int
        } else {
            s.len() + 1 as int
        },
        row_has(row_set_spec(s, a, v), a),
        row_val(row_set_spec(s, a, v), a) == v,
        forall|b: int| b != a ==> row_has(row_set_spec(s, a, v), b) == row_has(s, b),
        forall|b: int| b != a ==> row_val(row_set_spec(s, a, v), b) == row_val(s, b),
    decreases s.len(),
{
    let e = QEntry { action: a as u8, value: v as i64 };
    let r = row_set_spec(s, a, v);
    if s.len() == 0 {
        assert forall|b: int| b != a implies row_has(r, b) == row_has(s, b) && row_val(r, b)
            == row_val(s, b) by {
            assert(r.drop_first() =~= s);
        }
    } else if s[0].action == a {
        assert(r.drop_first() =~= s.drop_first());
        assert forall|b: int| b != a implies row_has(r, b) == row_has(s, b) && row_val(r, b)
            == row_val(s, b) by {
            assert(r[0].action == a as u8);
            assert(!(r[0].action == b));
            assert(row_has(r, b) == row_has(r.drop_first(), b));
            assert(row_val(r, b) == row_val(r.drop_first(), b));
            assert(row_has(s, b) == row_has(s.drop_first(), b));
            assert(row_val(s, b) == row_val(s.drop_first(), b));
        }
        assert(row_wf(r)) by {
            assert(forall|i: int| 1 <= i < r.len() ==> (#[trigger] r[i]) == s[i]);
        }
    } else {
        lemma_row_set_props(s.drop_first(), a, v);
        let rs = row_set_spec(s.drop_first(), a, v);
        assert(r[0] == s[0]);
        assert(r.drop_first() =~= rs);
        assert forall|b: int| b != a implies row_has(r, b) == row_has(s, b) && row_val(r, b)
            == row_val(s, b) by {
            assert(r[0] == s[0]);
            assert(r.drop_first() =~= rs);
            if !(s[0].action == b) {
                assert(row_has(r, b) == row_has(rs, b));
                assert(row_has(s, b) == row_has(s.drop_first(), b));
                assert(row_val(r, b) == row_val(rs, b));
                assert(row_val(s, b) == row_val(s.drop_first(), b));
            }
        }
        assert(row_wf(r)) by {
            assert(forall|i: int| 0 <= i < rs.len() ==> (#[trigger] rs[i]) == r[i + 1]);
            assert forall|i: int, j: int| 0 <= i < j < r.len() implies r[i].action
                != r[j].action by {
                if i > 0 {
                    assert(r[i] == rs[i - 1] && r[j] == rs[j - 1]);
                } else {
                    assert(r[j] == rs[j - 1]);
                    if r[j].action == s[0].action {
                        lemma_row_has_index(rs, s[0].action as int);
                        assert(row_has(rs, s[0].action as int));
                        assert(row_has(s.drop_first(), s[0].action as int));
                        lemma_row_has_index(s.drop_first(), s[0].action as int);
                        let ghost a0: u8 = s[0].action;
                        let k = choose|k: int|
                            0 <= k < s.drop_first().len() && s.drop_first()[k].action == a0;
                        assert(s[k + 1].action == s[0].action);
                        assert(false);
                    }
                }
            }
        }
    }
}

/// An absent action is estimated at zero.
pub proof fn lemma_row_val_absent(s: Seq<QEntry>, a: int)
    requires
        !row_has(s, a),
    ensures
        row_val(s, a) == 0,
    decreases s.len(),
{
    if s.len() > 0 {
        lemma_row_val_absent(s.drop_first(), a);
    }
}

/// Every value a well-formed row answers stays within the value bound.
pub proof fn lemma_row_val_bounds(s: Seq<QEntry>, a: int)
    requires
        row_wf(s),
    ensures
        -Q_LIMIT <= row_val(s, a) <= Q_LIMIT as int,
    decreases s.len(),
{
    if s.len() > 0 && s[0].action != a {
        assert(forall|i: int|
            0 <= i < s.drop_first().len() ==> (#[trigger] s.drop_first()[i]) == s[i + 1]);
        lemma_row_val_bounds(s.drop_first(), a);
    }
}

/// The running maximum never escapes the value bound.
pub proof fn lemma_row_max_from_bounds(s: Seq<QEntry>, acc: int)
    requires
        row_wf(s),
        -Q_LIMIT <= acc <= Q_LIMIT as int,
    ensures
        -Q_LIMIT <= row_max_from(s, acc) <= Q_LIMIT as int,
    decreases s.len(),
{
    if s.len() > 0 {
        assert(forall|i: int|
            0 <= i < s.drop_first().len() ==> (#[trigger] s.drop_first()[i]) == s[i + 1]);
        lemma_row_max_from_bounds(
            s.drop_first(),
            if s[0].value as int > acc {
                s[0].value as int
            } else {
                acc
            },
        );
    }
}

/// The maximum of a well-formed nonempty row stays within the value bound.
pub proof fn lemma_row_max_bounds(s: Seq<QEntry>)
    requires
        row_wf(s),
        s.len() >= 1,
    ensures
        -Q_LIMIT <= row_max_spec(s) <= Q_LIMIT as int,
{
    assert(forall|i: int|
        0 <= i < s.drop_first().len() ==> (#[trigger] s.drop_first()[i]) == s[i + 1]);
    lemma_row_max_from_bounds(s.drop_first(), s[0].value as int);
}

/// Find the stored value of an action, if the row holds one.
pub fn row_get(row: &Vec<QEntry>, a: u8) -> (r: Option<i64>)
    ensures
        match r {
            Some(v) => row_has(row@, a as int) && v == row_val(row@, a as int),
            None => !row_has(row@, a as int),
        },
{
    let n = row.len();
    let mut i: usize = 0;
    proof {
        assert(row@.skip(0) =~= row@);
    }
    while i < n
        invariant
            n == row@.len(),
            0 <= i <= n,
            row_has(row@, a as int) == row_has(row@.skip(i as int), a as int),
            row_val(row@, a as int) == row_val(row@.skip(i as int), a as int),
        decreases n - i,
    {
        if row[i].action == a {
            return Some(row[i].value);
        }
        proof {
            assert(row@.skip(i as int).drop_first() =~= row@.skip(i as int + 1));
        }
        i = i + 1;
    }
    None
}

/// Largest stored value of a nonempty row.
pub fn row_max(row: &Vec<QEntry>) -> (r: i64)
    requires
        row@.len() >= 1,
    ensures
        r == row_max_spec(row@),
{
    let n = row.len();
    let mut acc: i64 = row[0].value;
    let mut i: usize = 1;
    proof {
        assert(row@.skip(1) =~= row@.drop_first());
    }
    while i < n
        invariant
            n == row@.len(),
            1 <= i <= n,
            row_max_spec(row@) == row_max_from(row@.skip(i as int), acc as int),
        decreases n - i,
    {
        proof {
            assert(row@.skip(i as int).drop_first() =~= row@.skip(i as int + 1));
        }
        if row[i].value > acc {
            acc = row[i].value;
        }
        i = i + 1;
    }
    acc
}

/// Best action of a row: highest value, first-encountered order breaking
/// ties, the no-op identifier when the row is empty.
pub fn row_best(row: &Vec<QEntry>) -> (r: u8)
    requires
        row_wf(row@),
    ensures
        r == row_best_spec(row@),
        r <= 6,
{
    let n = row.len();
    if n == 0 {
        return 6;
    }
    let mut best_a: u8 = row[0].action;
    let mut best_v: i64 = row[0].value;
    let mut i: usize = 1;
    proof {
        assert(row@.skip(1) =~= row@.drop_first());
    }
    while i < n
        invariant
            n == row@.len(),
            1 <= i <= n,
            row_wf(row@),
            best_a <= 6,
            row_best_spec(row@) == row_best_from(row@.skip(i as int), best_a as int, best_v as int),
        decreases n - i,
    {
        proof {
            assert(row@.skip(i as int).drop_first() =~= row@.skip(i as int + 1));
        }
        if row[i].value > best_v {
            best_a = row[i].action;
            best_v = row[i].value;
        }
        i = i + 1;
    }
    best_a
}

/// Set the estimate of one action: update its entry in place, or append a
/// new entry at the end.
pub fn row_set(row: &mut Vec<QEntry>, a: u8, v: i64)
    requires
        row_wf(old(row)@),
        a <= 6,
        -Q_LIMIT <= v <= Q_LIMIT,
    ensures
        final(row)@ == row_set_spec(old(row)@, a as int, v as int),
{
    let n = row.len();
    let mut i: usize = 0;
    while i < n
        invariant
            n == row@.len(),
            0 <= i <= n,
            row@ == old(row)@,
            forall|j: int| 0 <= j < i ==> old(row)@[j].action != a,
        decreases n - i,
    {
        if row[i].action == a {
            row.set(i, QEntry { action: a, value: v });
            proof {
                lemma_row_set_at(old(row)@, a as int, v as int, i as int);
            }
            return ;
        }
        i = i + 1;
    }
    proof {
        lemma_row_has_index(old(row)@, a as int);
    }
    row.push(QEntry { action: a, value: v });
    proof {
        lemma_row_set_absent(old(row)@, a as int, v as int);
    }
}

} // verus!
