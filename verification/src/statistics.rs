//! Quota sums: running totals of `i64` values and of issued amounts, with the
//! exact condition under which the running totals stay within `i64`.

use vstd::prelude::*;

verus! {

/// Whether `x` is a value of `i64`.
pub open spec fn in_i64(x: int) -> bool {
    i64::MIN <= x <= i64::MAX
}

/// The sum of `s`, added left to right.
pub open spec fn sum_values(s: Seq<i64>) -> int
    decreases s.len(),
{
    if s.len() == 0 {
        0
    } else {
        sum_values(s.drop_last()) + s.last()
    }
}

/// The sum of `s`, added left to right.
pub open spec fn sum_ints(s: Seq<int>) -> int
    decreases s.len(),
{
    if s.len() == 0 {
        0
    } else {
        sum_ints(s.drop_last()) + s.last()
    }
}

/// Every running total of `s`, from the empty prefix to the whole, is an `i64`.
pub open spec fn values_fit(s: Seq<i64>) -> bool {
    forall|k: int| 0 <= k <= s.len() ==> in_i64(#[trigger] sum_values(s.take(k)))
}

/// The amount of one issue entry: the product of its first two numbers, a
/// missing number counting as zero and further numbers ignored.
pub open spec fn entry_amount(e: Seq<i64>) -> int {
    (if e.len() > 0 {
        e[0] as int
    } else {
        0
    }) * (if e.len() > 1 {
        e[1] as int
    } else {
        0
    })
}

/// The amounts of the entries of one row, in order.
pub open spec fn row_amounts(row: Seq<Seq<i64>>) -> Seq<int> {
    Seq::new(row.len(), |j: int| entry_amount(row[j]))
}

/// The amounts of all entries of all rows, row after row.
pub open spec fn issued_amounts(rows: Seq<Seq<Seq<i64>>>) -> Seq<int>
    decreases rows.len(),
{
    if rows.len() == 0 {
        Seq::empty()
    } else {
        issued_amounts(rows.drop_last()) + row_amounts(rows.last())
    }
}

/// The total issued amount of `rows`.
pub open spec fn issued_total(rows: Seq<Seq<Seq<i64>>>) -> int {
    sum_ints(issued_amounts(rows))
}

/// Every amount of `rows` and every running total of those amounts is an `i64`.
pub open spec fn amounts_fit(rows: Seq<Seq<Seq<i64>>>) -> bool {
    let a = issued_amounts(rows);
    &&& forall|i: int| 0 <= i < a.len() ==> in_i64(#[trigger] a[i])
    &&& forall|k: int| 0 <= k <= a.len() ==> in_i64(#[trigger] sum_ints(a.take(k)))
}

/// Law: nothing sums to zero.
pub proof fn lemma_sum_values_empty()
    ensures
        sum_values(Seq::<i64>::empty()) == 0,
        sum_ints(Seq::<int>::empty()) == 0,
{
}

/// Law: appending a value adds exactly that value to the sum, whatever came
/// before it.
pub proof fn lemma_sum_values_push(s: Seq<i64>, x: i64)
    ensures
        sum_values(s.push(x)) == sum_values(s) + x,
{
    assert(s.push(x).drop_last() =~= s);
}

/// Law: the sum of two sequences one after the other is the sum of their sums.
pub proof fn lemma_sum_values_append(a: Seq<i64>, b: Seq<i64>)
    ensures
        sum_values(a + b) == sum_values(a) + sum_values(b),
    decreases b.len(),
{
    if b.len() == 0 {
        assert(a + b =~= a);
    } else {
        assert((a + b).drop_last() =~= a + b.drop_last());
        assert((a + b).last() == b.last());
        lemma_sum_values_append(a, b.drop_last());
    }
}

/// Law: appending a number adds exactly that number to the sum.
pub proof fn lemma_sum_ints_push(s: Seq<int>, x: int)
    ensures
        sum_ints(s.push(x)) == sum_ints(s) + x,
{
    assert(s.push(x).drop_last() =~= s);
}

/// Law: the sum of two sequences one after the other is the sum of their sums.
pub proof fn lemma_sum_ints_append(a: Seq<int>, b: Seq<int>)
    ensures
        sum_ints(a + b) == sum_ints(a) + sum_ints(b),
    decreases b.len(),
{
    if b.len() == 0 {
        assert(a + b =~= a);
    } else {
        assert((a + b).drop_last() =~= a + b.drop_last());
        assert((a + b).last() == b.last());
        lemma_sum_ints_append(a, b.drop_last());
    }
}

/// Law: no row issues nothing; a row with no entry adds nothing; an entry
/// added to the last row adds the product of its first two numbers (a
/// missing number counting as zero) to the issued total.
pub proof fn lemma_issued_total_steps(
    rows: Seq<Seq<Seq<i64>>>,
    row: Seq<Seq<i64>>,
    e: Seq<i64>,
)
    ensures
        issued_total(Seq::empty()) == 0,
        issued_total(rows.push(Seq::empty())) == issued_total(rows),
        issued_total(rows.push(row.push(e))) == issued_total(rows.push(row)) + (if e.len() > 0 {
            e[0] as int
        } else {
            0
        }) * (if e.len() > 1 {
            e[1] as int
        } else {
            0
        }),
{
    let r0 = rows.push(Seq::<Seq<i64>>::empty());
    assert(r0.drop_last() =~= rows);
    assert(row_amounts(Seq::<Seq<i64>>::empty()) =~= Seq::<int>::empty());
    assert(issued_amounts(r0) =~= issued_amounts(rows));
    let r1 = rows.push(row);
    let r2 = rows.push(row.push(e));
    assert(r1.drop_last() =~= rows);
    assert(r2.drop_last() =~= rows);
    assert(row_amounts(row.push(e)) =~= row_amounts(row).push(entry_amount(e)));
    assert(issued_amounts(r2) =~= issued_amounts(r1).push(entry_amount(e)));
    lemma_sum_ints_push(issued_amounts(r1), entry_amount(e));
}

/// Law: a sequence with no value fits; appending `x` keeps every running
/// total within `i64` exactly when the earlier ones were and the new total
/// `sum + x` is.
pub proof fn lemma_values_fit_steps(s: Seq<i64>, x: i64)
    ensures
        values_fit(Seq::<i64>::empty()),
        values_fit(s.push(x)) <==> values_fit(s) && in_i64(sum_values(s) + x),
{
    assert(Seq::<i64>::empty().take(0) =~= Seq::<i64>::empty());
    let t = s.push(x);
    assert forall|k: int| 0 <= k <= s.len() implies #[trigger] t.take(k) == s.take(k) by {
        assert(t.take(k) =~= s.take(k));
    }
    assert(t.take(t.len() as int) =~= t);
    assert(s.take(s.len() as int) =~= s);
    lemma_sum_values_push(s, x);
    if values_fit(s) && in_i64(sum_values(s) + x) {
        assert forall|k: int| 0 <= k <= t.len() implies in_i64(#[trigger] sum_values(t.take(k))) by {
            if k <= s.len() {
                assert(t.take(k) == s.take(k));
            }
        }
    }
    if values_fit(t) {
        assert forall|k: int| 0 <= k <= s.len() implies in_i64(#[trigger] sum_values(s.take(k))) by {
            assert(t.take(k) == s.take(k));
            assert(in_i64(sum_values(t.take(k))));
        }
        assert(in_i64(sum_values(t.take(t.len() as int))));
    }
}

spec fn ints_fit(a: Seq<int>) -> bool {
    &&& forall|i: int| 0 <= i < a.len() ==> in_i64(#[trigger] a[i])
    &&& forall|k: int| 0 <= k <= a.len() ==> in_i64(#[trigger] sum_ints(a.take(k)))
}

proof fn lemma_ints_fit_push(a: Seq<int>, x: int)
    ensures
        ints_fit(a.push(x)) <==> ints_fit(a) && in_i64(x) && in_i64(sum_ints(a) + x),
{
    let t = a.push(x);
    assert forall|k: int| 0 <= k <= a.len() implies #[trigger] t.take(k) == a.take(k) by {
        assert(t.take(k) =~= a.take(k));
    }
    assert(t.take(t.len() as int) =~= t);
    assert(a.take(a.len() as int) =~= a);
    lemma_sum_ints_push(a, x);
    if ints_fit(a) && in_i64(x) && in_i64(sum_ints(a) + x) {
        assert forall|i: int| 0 <= i < t.len() implies in_i64(#[trigger] t[i]) by {
            if i < a.len() {
                assert(t[i] == a[i]);
            }
        }
        assert forall|k: int| 0 <= k <= t.len() implies in_i64(#[trigger] sum_ints(t.take(k))) by {
            if k <= a.len() {
                assert(t.take(k) == a.take(k));
            }
        }
    }
    if ints_fit(t) {
        assert forall|i: int| 0 <= i < a.len() implies in_i64(#[trigger] a[i]) by {
            assert(t[i] == a[i]);
        }
        assert forall|k: int| 0 <= k <= a.len() implies in_i64(#[trigger] sum_ints(a.take(k))) by {
            assert(t.take(k) == a.take(k));
            assert(in_i64(sum_ints(t.take(k))));
        }
        assert(in_i64(t[a.len() as int]));
        assert(in_i64(sum_ints(t.take(t.len() as int))));
    }
}

/// Law: no row fits; a row with no entry changes nothing; adding an entry
/// keeps everything within `i64` exactly when it did before, the entry's
/// amount (product of its first two numbers, a missing one counting as zero)
/// is an `i64`, and so is the new issued total.
pub proof fn lemma_amounts_fit_steps(
    rows: Seq<Seq<Seq<i64>>>,
    row: Seq<Seq<i64>>,
    e: Seq<i64>,
)
    ensures
        amounts_fit(Seq::empty()),
        amounts_fit(rows.push(Seq::empty())) <==> amounts_fit(rows),
        amounts_fit(rows.push(row.push(e))) <==> ({
            let amount = (if e.len() > 0 {
                e[0] as int
            } else {
                0
            }) * (if e.len() > 1 {
                e[1] as int
            } else {
                0
            });
            &&& amounts_fit(rows.push(row))
            &&& in_i64(amount)
            &&& in_i64(issued_total(rows.push(row)) + amount)
        }),
{
    let empty_rows = Seq::<Seq<Seq<i64>>>::empty();
    assert(issued_amounts(empty_rows) =~= Seq::<int>::empty());
    assert(Seq::<int>::empty().take(0) =~= Seq::<int>::empty());
    assert(ints_fit(issued_amounts(empty_rows)));
    let r0 = rows.push(Seq::<Seq<i64>>::empty());
    assert(r0.drop_last() =~= rows);
    assert(row_amounts(Seq::<Seq<i64>>::empty()) =~= Seq::<int>::empty());
    assert(issued_amounts(r0) =~= issued_amounts(rows));
    let r1 = rows.push(row);
    let r2 = rows.push(row.push(e));
    assert(r1.drop_last() =~= rows);
    assert(r2.drop_last() =~= rows);
    assert(row_amounts(row.push(e)) =~= row_amounts(row).push(entry_amount(e)));
    assert(issued_amounts(r2) =~= issued_amounts(r1).push(entry_amount(e)));
    lemma_ints_fit_push(issued_amounts(r1), entry_amount(e));
    assert(amounts_fit(r2) == ints_fit(issued_amounts(r2)));
    assert(amounts_fit(r1) == ints_fit(issued_amounts(r1)));
}

proof fn lemma_amounts_append(a: Seq<Seq<Seq<i64>>>, b: Seq<Seq<Seq<i64>>>)
    ensures
        issued_amounts(a + b) == issued_amounts(a) + issued_amounts(b),
    decreases b.len(),
{
    if b.len() == 0 {
        assert(a + b =~= a);
        assert(issued_amounts(a) + issued_amounts(b) =~= issued_amounts(a));
    } else {
        assert((a + b).drop_last() =~= a + b.drop_last());
        assert((a + b).last() == b.last());
        lemma_amounts_append(a, b.drop_last());
        assert(issued_amounts(a + b) =~= issued_amounts(a) + issued_amounts(b));
    }
}

/// The amounts of `rows` are those of the rows before `i`, then those of row
/// `i`, then those after it.
proof fn lemma_amounts_split(rows: Seq<Seq<Seq<i64>>>, i: int)
    requires
        0 <= i < rows.len(),
    ensures
        issued_amounts(rows) == issued_amounts(rows.take(i)) + row_amounts(rows[i])
            + issued_amounts(rows.skip(i + 1)),
        issued_amounts(rows.take(i + 1)) == issued_amounts(rows.take(i)) + row_amounts(rows[i]),
{
    let one = seq![rows[i]];
    assert(rows =~= rows.take(i) + one + rows.skip(i + 1));
    assert(rows.take(i + 1) =~= rows.take(i) + one);
    assert(one.drop_last() =~= Seq::<Seq<Seq<i64>>>::empty());
    assert(issued_amounts(one.drop_last()) =~= Seq::<int>::empty());
    assert(one.last() == rows[i]);
    assert(issued_amounts(one) =~= row_amounts(rows[i]));
    lemma_amounts_append(rows.take(i) + one, rows.skip(i + 1));
    lemma_amounts_append(rows.take(i), one);
}

proof fn lemma_product_bound(a: i64, b: i64)
    by (nonlinear_arith)
    ensures
        -0x4000_0000_0000_0000_0000_0000_0000_0000 <= (a as int) * (b as int)
            <= 0x4000_0000_0000_0000_0000_0000_0000_0000,
{
}

/// The sum of `v`, added left to right as `+=` on `i64` does.
pub fn sum_of_values(v: &Vec<i64>) -> (res: i64)
    requires
        values_fit(v@),
    ensures
        res == sum_values(v@),
{
    let n = v.len();
    let mut acc: i64 = 0;
    let mut i: usize = 0;
    assert(v@.take(0) =~= Seq::<i64>::empty());
    while i < n
        invariant
            n == v@.len(),
            0 <= i <= n,
            values_fit(v@),
            acc == sum_values(v@.take(i as int)),
        decreases n - i,
    {
        proof {
            assert(v@.take(i + 1).drop_last() =~= v@.take(i as int));
            assert(in_i64(sum_values(v@.take(i + 1))));
        }
        acc = acc + v[i];
        i = i + 1;
    }
    assert(v@.take(n as int) =~= v@);
    acc
}

/// Whether every running total of `v` is an `i64`.
pub fn values_fit_check(v: &Vec<i64>) -> (res: bool)
    ensures
        res == values_fit(v@),
{
    let n = v.len();
    let mut acc: i128 = 0;
    let mut i: usize = 0;
    assert(v@.take(0) =~= Seq::<i64>::empty());
    while i < n
        invariant
            n == v@.len(),
            0 <= i <= n,
            acc == sum_values(v@.take(i as int)),
            forall|k: int| 0 <= k <= i ==> in_i64(#[trigger] sum_values(v@.take(k))),
        decreases n - i,
    {
        proof {
            assert(v@.take(i + 1).drop_last() =~= v@.take(i as int));
        }
        acc = acc + v[i] as i128;
        i = i + 1;
        if acc < i64::MIN as i128 || acc > i64::MAX as i128 {
            assert(!in_i64(sum_values(v@.take(i as int))));
            return false;
        }
    }
    true
}

/// The total issued amount of `rows`, computed as nested `+=` loops on `i64`.
pub fn sum_of_issued(rows: &Vec<Vec<Vec<i64>>>) -> (res: i64)
    requires
        amounts_fit(rows.deep_view()),
    ensures
        res == issued_total(rows.deep_view()),
{
    let ghost rv = rows.deep_view();
    let ghost all = issued_amounts(rv);
    let n = rows.len();
    let mut acc: i64 = 0;
    let mut i: usize = 0;
    assert(rv.take(0) =~= Seq::<Seq<Seq<i64>>>::empty());
    while i < n
        invariant
            n == rows@.len(),
            rv == rows.deep_view(),
            rv.len() == n,
            all == issued_amounts(rv),
            amounts_fit(rv),
            0 <= i <= n,
            acc == sum_ints(issued_amounts(rv.take(i as int))),
        decreases n - i,
    {
        let row = &rows[i];
        let m = row.len();
        let ghost base = issued_amounts(rv.take(i as int));
        let ghost ra = row_amounts(rv[i as int]);
        proof {
            lemma_amounts_split(rv, i as int);
            assert(rv[i as int] == row.deep_view());
            assert(base + ra.take(0) =~= base);
        }
        let mut j: usize = 0;
        while j < m
            invariant
                i < rv.len(),
                rv == rows.deep_view(),
                m == row@.len(),
                rv[i as int] == row.deep_view(),
                ra == row_amounts(rv[i as int]),
                all == base + ra + issued_amounts(rv.skip(i + 1)),
                amounts_fit(rv),
                all == issued_amounts(rv),
                0 <= j <= m,
                acc == sum_ints(base + ra.take(j as int)),
            decreases m - j,
        {
            let e = &row[j];
            let a: i64 = if e.len() > 0 {
                e[0]
            } else {
                0
            };
            let b: i64 = if e.len() > 1 {
                e[1]
            } else {
                0
            };
            proof {
                assert(row.deep_view()[j as int] == e.deep_view());
                assert(e.deep_view() =~= e@);
                assert(ra[j as int] == entry_amount(e@));
                assert(a * b == entry_amount(e@));
                assert(all[base.len() + j] == ra[j as int]);
                assert(in_i64(all[base.len() + j]));
                assert(all.take(base.len() + j + 1) =~= base + ra.take(j + 1));
                assert(in_i64(sum_ints(all.take(base.len() + j + 1))));
                assert((base + ra.take(j + 1)).drop_last() =~= base + ra.take(j as int));
            }
            let p: i64 = a * b;
            acc = acc + p;
            j = j + 1;
        }
        proof {
            assert(ra.take(m as int) =~= ra);
        }
        i = i + 1;
    }
    assert(rv.take(n as int) =~= rv);
    acc
}

/// Whether every issued amount of `rows` and every running total of them is
/// an `i64`.
pub fn amounts_fit_check(rows: &Vec<Vec<Vec<i64>>>) -> (res: bool)
    ensures
        res == amounts_fit(rows.deep_view()),
{
    let ghost rv = rows.deep_view();
    let ghost all = issued_amounts(rv);
    let n = rows.len();
    let mut acc: i128 = 0;
    let mut i: usize = 0;
    assert(rv.take(0) =~= Seq::<Seq<Seq<i64>>>::empty());
    while i < n
        invariant
            n == rows@.len(),
            rv == rows.deep_view(),
            rv.len() == n,
            all == issued_amounts(rv),
            0 <= i <= n,
            acc == sum_ints(issued_amounts(rv.take(i as int))),
            issued_amounts(rv.take(i as int)).len() <= all.len(),
            all.take(issued_amounts(rv.take(i as int)).len() as int) == issued_amounts(rv.take(i as int)),
            forall|x: int| 0 <= x < issued_amounts(rv.take(i as int)).len() ==> in_i64(#[trigger] all[x]),
            forall|k: int| 0 <= k <= issued_amounts(rv.take(i as int)).len() ==> in_i64(#[trigger] sum_ints(all.take(k))),
        decreases n - i,
    {
        let row = &rows[i];
        let m = row.len();
        let ghost base = issued_amounts(rv.take(i as int));
        let ghost ra = row_amounts(rv[i as int]);
        proof {
            lemma_amounts_split(rv, i as int);
            assert(rv[i as int] == row.deep_view());
            assert(base + ra.take(0) =~= base);
        }
        let mut j: usize = 0;
        while j < m
            invariant
                i < rv.len(),
                rv == rows.deep_view(),
                m == row@.len(),
                rv[i as int] == row.deep_view(),
                ra == row_amounts(rv[i as int]),
                ra.len() == m,
                all == base + ra + issued_amounts(rv.skip(i + 1)),
                all == issued_amounts(rv),
                0 <= j <= m,
                acc == sum_ints(base + ra.take(j as int)),
                forall|x: int| 0 <= x < base.len() + j ==> in_i64(#[trigger] all[x]),
                forall|k: int| 0 <= k <= base.len() + j ==> in_i64(#[trigger] sum_ints(all.take(k))),
            decreases m - j,
        {
            let e = &row[j];
            let a: i64 = if e.len() > 0 {
                e[0]
            } else {
                0
            };
            let b: i64 = if e.len() > 1 {
                e[1]
            } else {
                0
            };
            proof {
                assert(row.deep_view()[j as int] == e.deep_view());
                assert(e.deep_view() =~= e@);
                assert(ra[j as int] == entry_amount(e@));
                assert(a * b == entry_amount(e@));
                assert(all[base.len() + j] == ra[j as int]);
                assert(all.take(base.len() + j + 1) =~= base + ra.take(j + 1));
                assert((base + ra.take(j + 1)).drop_last() =~= base + ra.take(j as int));
                lemma_product_bound(a, b);
                assert(all.take(base.len() + j) =~= base + ra.take(j as int));
                assert(in_i64(acc as int));
                assert(0 <= base.len() + j < all.len());
            }
            let p: i128 = (a as i128) * (b as i128);
            if p < i64::MIN as i128 || p > i64::MAX as i128 {
                assert(!in_i64(all[base.len() + j]));
                assert(!amounts_fit(rv));
                return false;
            }
            acc = acc + p;
            j = j + 1;
            if acc < i64::MIN as i128 || acc > i64::MAX as i128 {
                assert(all.take(base.len() + j) =~= base + ra.take(j as int));
                assert(!in_i64(sum_ints(all.take(base.len() + j))));
                assert(!amounts_fit(rv));
                return false;
            }
        }
        proof {
            assert(ra.take(m as int) =~= ra);
            assert(all.take((base + ra).len() as int) =~= base + ra);
        }
        i = i + 1;
    }
    proof {
        assert(rv.take(n as int) =~= rv);
    }
    true
}

} // verus!
