//! Ghost aggregation over the stored rows: sums and counts of
//! transaction amounts under a predicate, sums of session openings, and
//! the lemmas the executable loops rely on.

use vstd::prelude::*;

use crate::models::Date;
use crate::models::SessionV;
use crate::models::TransactionType;
use crate::models::TransactionV;

verus! {

/// The transactions of one session with one type.
pub open spec fn session_type_pred(session_id: u64, ty: TransactionType) -> spec_fn(
    TransactionV,
) -> bool {
    |t: TransactionV| t.session_id == session_id && t.transaction_type == ty
}

/// The transactions created on one calendar date with one type.
pub open spec fn date_type_pred(date: Date, ty: TransactionType) -> spec_fn(
    TransactionV,
) -> bool {
    |t: TransactionV| t.created_at.date == date && t.transaction_type == ty
}

/// Sum of one session's income amounts.
pub open spec fn income_sum(ts: Seq<TransactionV>, session_id: u64) -> int {
    sum_where(ts, session_type_pred(session_id, TransactionType::Income))
}

/// Sum of one session's expense amounts.
pub open spec fn expense_sum(ts: Seq<TransactionV>, session_id: u64) -> int {
    sum_where(ts, session_type_pred(session_id, TransactionType::Expense))
}

/// A session's computed balance: opening plus income minus expenses.
pub open spec fn balance_of(s: SessionV, ts: Seq<TransactionV>) -> int {
    s.opening_amount + income_sum(ts, s.id) - expense_sum(ts, s.id)
}

/// The element-wise views of a sequence of owned values.
pub open spec fn views<T: View>(s: Seq<T>) -> Seq<T::V> {
    Seq::new(s.len(), |i: int| s[i]@)
}

pub proof fn lemma_views_push<T: View>(s: Seq<T>, x: T)
    ensures
        views(s.push(x)) =~= views(s).push(x@),
{
}

pub proof fn lemma_views_update<T: View>(s: Seq<T>, i: int, x: T)
    requires
        0 <= i < s.len(),
    ensures
        views(s.update(i, x)) =~= views(s).update(i, x@),
{
}

/// Sum of the amounts of the transactions satisfying `f`.
pub open spec fn sum_where(ts: Seq<TransactionV>, f: spec_fn(TransactionV) -> bool) -> int
    decreases ts.len(),
{
    if ts.len() == 0 {
        0
    } else {
        sum_where(ts.drop_last(), f) + if f(ts.last()) {
            ts.last().amount as int
        } else {
            0
        }
    }
}

/// Number of transactions satisfying `f`.
pub open spec fn count_where(ts: Seq<TransactionV>, f: spec_fn(TransactionV) -> bool) -> int
    decreases ts.len(),
{
    if ts.len() == 0 {
        0
    } else {
        count_where(ts.drop_last(), f) + if f(ts.last()) {
            1int
        } else {
            0
        }
    }
}

/// Sum of all transaction amounts.
pub open spec fn sum_amounts(ts: Seq<TransactionV>) -> int
    decreases ts.len(),
{
    if ts.len() == 0 {
        0
    } else {
        sum_amounts(ts.drop_last()) + ts.last().amount as int
    }
}

/// Sum of all session opening amounts.
pub open spec fn sum_openings(ss: Seq<SessionV>) -> int
    decreases ss.len(),
{
    if ss.len() == 0 {
        0
    } else {
        sum_openings(ss.drop_last()) + ss.last().opening_amount as int
    }
}

pub proof fn lemma_sum_where_nonneg(ts: Seq<TransactionV>, f: spec_fn(TransactionV) -> bool)
    ensures
        0 <= sum_where(ts, f),
    decreases ts.len(),
{
    if ts.len() > 0 {
        lemma_sum_where_nonneg(ts.drop_last(), f);
    }
}

pub proof fn lemma_count_where_nonneg(ts: Seq<TransactionV>, f: spec_fn(TransactionV) -> bool)
    ensures
        0 <= count_where(ts, f) <= ts.len(),
    decreases ts.len(),
{
    if ts.len() > 0 {
        lemma_count_where_nonneg(ts.drop_last(), f);
    }
}

pub proof fn lemma_sum_amounts_nonneg(ts: Seq<TransactionV>)
    ensures
        0 <= sum_amounts(ts),
    decreases ts.len(),
{
    if ts.len() > 0 {
        lemma_sum_amounts_nonneg(ts.drop_last());
    }
}

pub proof fn lemma_sum_openings_nonneg(ss: Seq<SessionV>)
    ensures
        0 <= sum_openings(ss),
    decreases ss.len(),
{
    if ss.len() > 0 {
        lemma_sum_openings_nonneg(ss.drop_last());
    }
}

/// A filtered amount sum never exceeds the sum of all amounts.
pub proof fn lemma_sum_where_le_amounts(ts: Seq<TransactionV>, f: spec_fn(TransactionV) -> bool)
    ensures
        sum_where(ts, f) <= sum_amounts(ts),
    decreases ts.len(),
{
    if ts.len() > 0 {
        lemma_sum_where_le_amounts(ts.drop_last(), f);
    }
}

/// A prefix's filtered sum never exceeds the whole sequence's.
pub proof fn lemma_sum_where_take_le(
    ts: Seq<TransactionV>,
    f: spec_fn(TransactionV) -> bool,
    i: int,
)
    requires
        0 <= i <= ts.len(),
    ensures
        sum_where(ts.take(i), f) <= sum_where(ts, f),
    decreases ts.len(),
{
    if i == ts.len() {
        assert(ts.take(i) =~= ts);
    } else {
        lemma_sum_where_take_le(ts.drop_last(), f, i);
        assert(ts.drop_last().take(i) =~= ts.take(i));
    }
}

/// Unfolds one step of a filtered sum over a growing prefix.
pub proof fn lemma_sum_where_take_step(
    ts: Seq<TransactionV>,
    f: spec_fn(TransactionV) -> bool,
    i: int,
)
    requires
        0 <= i < ts.len(),
    ensures
        sum_where(ts.take(i + 1), f) == sum_where(ts.take(i), f) + if f(ts[i]) {
            ts[i].amount as int
        } else {
            0
        },
{
    assert(ts.take(i + 1).drop_last() =~= ts.take(i));
    assert(ts.take(i + 1).last() == ts[i]);
}

/// Unfolds one step of a filtered count over a growing prefix.
pub proof fn lemma_count_where_take_step(
    ts: Seq<TransactionV>,
    f: spec_fn(TransactionV) -> bool,
    i: int,
)
    requires
        0 <= i < ts.len(),
    ensures
        count_where(ts.take(i + 1), f) == count_where(ts.take(i), f) + if f(ts[i]) {
            1int
        } else {
            0
        },
{
    assert(ts.take(i + 1).drop_last() =~= ts.take(i));
    assert(ts.take(i + 1).last() == ts[i]);
}

/// Appending a transaction adds its amount to a filtered sum when it
/// matches, and leaves the sum unchanged when it does not.
pub proof fn lemma_sum_where_push(
    ts: Seq<TransactionV>,
    f: spec_fn(TransactionV) -> bool,
    x: TransactionV,
)
    ensures
        sum_where(ts.push(x), f) == sum_where(ts, f) + if f(x) {
            x.amount as int
        } else {
            0
        },
{
    assert(ts.push(x).drop_last() =~= ts);
    assert(ts.push(x).last() == x);
}

pub proof fn lemma_sum_amounts_push(ts: Seq<TransactionV>, x: TransactionV)
    ensures
        sum_amounts(ts.push(x)) == sum_amounts(ts) + x.amount as int,
{
    assert(ts.push(x).drop_last() =~= ts);
    assert(ts.push(x).last() == x);
}

pub proof fn lemma_sum_openings_push(ss: Seq<SessionV>, x: SessionV)
    ensures
        sum_openings(ss.push(x)) == sum_openings(ss) + x.opening_amount as int,
{
    assert(ss.push(x).drop_last() =~= ss);
    assert(ss.push(x).last() == x);
}

/// Replacing a session with one of equal opening amount leaves the sum
/// of openings unchanged.
pub proof fn lemma_sum_openings_update(ss: Seq<SessionV>, i: int, x: SessionV)
    requires
        0 <= i < ss.len(),
        x.opening_amount == ss[i].opening_amount,
    ensures
        sum_openings(ss.update(i, x)) == sum_openings(ss),
    decreases ss.len(),
{
    let upd = ss.update(i, x);
    if i == ss.len() - 1 {
        assert(upd.drop_last() =~= ss.drop_last());
    } else {
        assert(upd.drop_last() =~= ss.drop_last().update(i, x));
        lemma_sum_openings_update(ss.drop_last(), i, x);
    }
}

/// An opening amount never exceeds the sum of all openings.
pub proof fn lemma_opening_le_sum(ss: Seq<SessionV>, i: int)
    requires
        0 <= i < ss.len(),
    ensures
        ss[i].opening_amount as int <= sum_openings(ss),
    decreases ss.len(),
{
    if i == ss.len() - 1 {
        lemma_sum_openings_nonneg(ss.drop_last());
    } else {
        lemma_opening_le_sum(ss.drop_last(), i);
    }
}

/// A filtered count splits over concatenation.
pub proof fn lemma_count_where_concat(
    a: Seq<TransactionV>,
    b: Seq<TransactionV>,
    f: spec_fn(TransactionV) -> bool,
)
    ensures
        count_where(a + b, f) == count_where(a, f) + count_where(b, f),
    decreases b.len(),
{
    if b.len() == 0 {
        assert(a + b =~= a);
    } else {
        assert((a + b).drop_last() =~= a + b.drop_last());
        assert((a + b).last() == b.last());
        lemma_count_where_concat(a, b.drop_last(), f);
    }
}

/// Reversing a sequence does not change a filtered count.
pub proof fn lemma_count_where_reverse(ts: Seq<TransactionV>, f: spec_fn(TransactionV) -> bool)
    ensures
        count_where(ts.reverse(), f) == count_where(ts, f),
    decreases ts.len(),
{
    if ts.len() == 0 {
        assert(ts.reverse() =~= ts);
    } else {
        let first = seq![ts.last()];
        assert(ts.reverse() =~= first + ts.drop_last().reverse());
        lemma_count_where_concat(first, ts.drop_last().reverse(), f);
        assert(first.drop_last() =~= Seq::<TransactionV>::empty());
        assert(count_where(first.drop_last(), f) == 0);
        assert(count_where(first, f) == if f(ts.last()) {
            1int
        } else {
            0
        });
        lemma_count_where_reverse(ts.drop_last(), f);
    }
}

/// A filtered count equals the length of the filtered sequence.
pub proof fn lemma_count_is_filter_len(ts: Seq<TransactionV>, f: spec_fn(TransactionV) -> bool)
    ensures
        count_where(ts, f) == ts.filter(f).len(),
    decreases ts.len(),
{
    reveal(Seq::filter);
    if ts.len() > 0 {
        lemma_count_is_filter_len(ts.drop_last(), f);
    }
}

/// An amount sum is bounded by the row count times the largest amount.
pub proof fn lemma_sum_amounts_le_len_max(ts: Seq<TransactionV>)
    ensures
        sum_amounts(ts) <= ts.len() * 0xffff_ffff_ffff_ffff,
    decreases ts.len(),
{
    if ts.len() > 0 {
        lemma_sum_amounts_le_len_max(ts.drop_last());
    }
}

/// Two disjoint filters together count at most every row once.
pub proof fn lemma_count_where_disjoint(
    ts: Seq<TransactionV>,
    f: spec_fn(TransactionV) -> bool,
    g: spec_fn(TransactionV) -> bool,
)
    requires
        forall|t: TransactionV| !(#[trigger] f(t) && g(t)),
    ensures
        count_where(ts, f) + count_where(ts, g) <= ts.len(),
    decreases ts.len(),
{
    if ts.len() > 0 {
        lemma_count_where_disjoint(ts.drop_last(), f, g);
    }
}

/// One step of `Seq::filter` over an appended element.
pub proof fn lemma_filter_push<A>(s: Seq<A>, f: spec_fn(A) -> bool, x: A)
    ensures
        s.push(x).filter(f) == if f(x) {
            s.filter(f).push(x)
        } else {
            s.filter(f)
        },
{
    reveal(Seq::filter);
    assert(s.push(x).drop_last() =~= s);
    assert(s.push(x).last() == x);
}

/// With every amount positive, a sequence cannot hold more rows than
/// the sum of its amounts.
pub proof fn lemma_len_le_sum_amounts(ts: Seq<TransactionV>)
    requires
        forall|i: int| 0 <= i < ts.len() ==> (#[trigger] ts[i]).amount >= 1,
    ensures
        ts.len() <= sum_amounts(ts),
    decreases ts.len(),
{
    if ts.len() > 0 {
        lemma_len_le_sum_amounts(ts.drop_last());
    }
}

} // verus!
