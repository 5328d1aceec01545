//! Tables of counts: how often each value occurs among a list of values, in
//! rising order of the values, with or without a running count.
use vstd::prelude::*;

verus! {

/// One line of a table of counts: a value, and how often it was seen.
#[derive(Debug, Clone, Copy, PartialEq, Eq, Structural)]
pub struct Bucket {
    pub key: i64,
    pub count: usize,
}

/// How often `key` occurs in `values`.
pub open spec fn occurrences(values: Seq<i64>, key: i64) -> nat
    decreases values.len(),
{
    if values.len() == 0 {
        0
    } else {
        occurrences(values.drop_last(), key) + if values.last() == key {
            1nat
        } else {
            0nat
        }
    }
}

/// `buckets` is the table of counts of `values`: its keys rise, every key is
/// listed with the number of times it occurs, which is not zero, and every
/// value is among the keys.
pub open spec fn is_histogram(buckets: Seq<Bucket>, values: Seq<i64>) -> bool {
    &&& forall|i: int, j: int|
        0 <= i < j < buckets.len() ==> (#[trigger] buckets[i]).key < (#[trigger] buckets[j]).key
    &&& forall|i: int|
        0 <= i < buckets.len() ==> (#[trigger] buckets[i]).count == occurrences(
            values,
            buckets[i].key,
        ) && buckets[i].count > 0
    &&& forall|k: int|
        0 <= k < values.len() ==> exists|i: int|
            0 <= i < buckets.len() && (#[trigger] buckets[i]).key == #[trigger] values[k]
}

/// A value occurs no more often than there are values.
pub proof fn lemma_occurrences_bounded(values: Seq<i64>, key: i64)
    ensures
        occurrences(values, key) <= values.len(),
    decreases values.len(),
{
    if values.len() > 0 {
        lemma_occurrences_bounded(values.drop_last(), key);
    }
}

/// A value occurs at least once exactly if it is one of the values.
pub proof fn lemma_occurrences_positive(values: Seq<i64>, key: i64)
    ensures
        occurrences(values, key) > 0 <==> exists|k: int|
            0 <= k < values.len() && #[trigger] values[k] == key,
    decreases values.len(),
{
    if values.len() > 0 {
        let front = values.drop_last();
        lemma_occurrences_positive(front, key);
        if occurrences(values, key) > 0 {
            if values.last() == key {
                assert(values[values.len() - 1] == key);
            } else {
                let k = choose|k: int| 0 <= k < front.len() && #[trigger] front[k] == key;
                assert(values[k] == key);
            }
        }
        if exists|k: int| 0 <= k < values.len() && #[trigger] values[k] == key {
            let k = choose|k: int| 0 <= k < values.len() && #[trigger] values[k] == key;
            if k < values.len() - 1 {
                assert(front[k] == key);
            }
        }
    }
}

spec fn rising(keys: Seq<i64>) -> bool {
    forall|i: int, j: int| 0 <= i < j < keys.len() ==> keys[i] < keys[j]
}

proof fn lemma_rising_agree(a: Seq<i64>, b: Seq<i64>)
    requires
        rising(a),
        rising(b),
        forall|key: i64| a.contains(key) <==> b.contains(key),
    ensures
        a == b,
    decreases a.len(),
{
    if a.len() == 0 {
        if b.len() > 0 {
            assert(b.contains(b[0]));
            assert(a.contains(b[0]));
        }
        assert(a =~= b);
    } else {
        let top = a.last();
        assert(a.contains(top));
        assert(b.contains(top));
        assert(b.len() > 0);
        assert(b.contains(b.last()));
        assert(a.contains(b.last()));
        let in_b = choose|j: int| 0 <= j < b.len() && b[j] == top;
        let in_a = choose|i: int| 0 <= i < a.len() && a[i] == b.last();
        if in_b < b.len() - 1 {
            assert(b[in_b] < b[b.len() - 1]);
        }
        if in_a < a.len() - 1 {
            assert(a[in_a] < a[a.len() - 1]);
        }
        assert(b.last() == top);
        let front_a = a.drop_last();
        let front_b = b.drop_last();
        assert forall|key: i64| front_a.contains(key) implies front_b.contains(key) by {
            let i = choose|i: int| 0 <= i < front_a.len() && front_a[i] == key;
            assert(a[i] == key);
            assert(a[i] < a[a.len() - 1]);
            assert(a.contains(key));
            let j = choose|j: int| 0 <= j < b.len() && b[j] == key;
            assert(front_b[j] == key);
        }
        assert forall|key: i64| front_b.contains(key) implies front_a.contains(key) by {
            let j = choose|j: int| 0 <= j < front_b.len() && front_b[j] == key;
            assert(b[j] == key);
            assert(b[j] < b[b.len() - 1]);
            assert(b.contains(key));
            let i = choose|i: int| 0 <= i < a.len() && a[i] == key;
            assert(front_a[i] == key);
        }
        assert(rising(front_a)) by {
            assert forall|i: int, j: int| 0 <= i < j < front_a.len() implies front_a[i]
                < front_a[j] by {
                assert(a[i] < a[j]);
            }
        }
        assert(rising(front_b)) by {
            assert forall|i: int, j: int| 0 <= i < j < front_b.len() implies front_b[i]
                < front_b[j] by {
                assert(b[i] < b[j]);
            }
        }
        lemma_rising_agree(front_a, front_b);
        assert(a =~= front_a.push(top));
        assert(b =~= front_b.push(top));
    }
}

/// The keys of `buckets`, in their order.
pub open spec fn bucket_keys(buckets: Seq<Bucket>) -> Seq<i64> {
    buckets.map_values(|bucket: Bucket| bucket.key)
}

proof fn lemma_histogram_keys(buckets: Seq<Bucket>, values: Seq<i64>)
    requires
        is_histogram(buckets, values),
    ensures
        rising(bucket_keys(buckets)),
        forall|key: i64|
            #![trigger bucket_keys(buckets).contains(key)]
            #![trigger values.contains(key)]
            bucket_keys(buckets).contains(key) <==> values.contains(key),
{
    let keys = bucket_keys(buckets);
    assert forall|i: int, j: int| 0 <= i < j < keys.len() implies keys[i] < keys[j] by {
        assert(buckets[i].key < buckets[j].key);
    }
    assert forall|key: i64| keys.contains(key) implies values.contains(key) by {
        let i = choose|i: int| 0 <= i < keys.len() && keys[i] == key;
        assert(buckets[i].count > 0);
        lemma_occurrences_positive(values, key);
    }
    assert forall|key: i64| values.contains(key) implies keys.contains(key) by {
        let k = choose|k: int| 0 <= k < values.len() && values[k] == key;
        let i = choose|i: int| 0 <= i < buckets.len() && (#[trigger] buckets[i]).key == values[k];
        assert(keys[i] == key);
    }
}

/// The values decide their table of counts: two tables of the same values are
/// the same table.
pub proof fn lemma_histogram_unique(a: Seq<Bucket>, b: Seq<Bucket>, values: Seq<i64>)
    requires
        is_histogram(a, values),
        is_histogram(b, values),
    ensures
        a == b,
{
    lemma_histogram_keys(a, values);
    lemma_histogram_keys(b, values);
    assert forall|key: i64| bucket_keys(a).contains(key) <==> bucket_keys(b).contains(key) by {
        assert(bucket_keys(a).contains(key) <==> values.contains(key));
        assert(bucket_keys(b).contains(key) <==> values.contains(key));
    }
    lemma_rising_agree(bucket_keys(a), bucket_keys(b));
    assert forall|i: int| 0 <= i < a.len() implies a[i] == b[i] by {
        assert(bucket_keys(a)[i] == bucket_keys(b)[i]);
        assert(a[i].count == occurrences(values, a[i].key));
        assert(b[i].count == occurrences(values, b[i].key));
    }
    assert(a.len() == bucket_keys(a).len());
    assert(b.len() == bucket_keys(b).len());
    assert(a =~= b);
}

/// Counts how often each of `values` occurs; the table lists the values seen in
/// rising order.
pub fn bucket_counts(values: &Vec<i64>) -> (buckets: Vec<Bucket>)
    ensures
        is_histogram(buckets@, values@),
{
    let mut buckets: Vec<Bucket> = Vec::new();
    let mut i: usize = 0;
    while i < values.len()
        invariant
            i <= values.len(),
            is_histogram(buckets@, values@.take(i as int)),
        decreases values.len() - i,
    {
        let value = values[i];
        let ghost seen = values@.take(i as int);
        let ghost more = values@.take(i + 1);
        let ghost before = buckets@;
        let mut at: usize = 0;
        while at < buckets.len() && buckets[at].key < value
            invariant
                at <= buckets.len(),
                forall|k: int| 0 <= k < at ==> (#[trigger] buckets@[k]).key < value,
            decreases buckets.len() - at,
        {
            at = at + 1;
        }
        proof {
            assert(more.drop_last() =~= seen);
            assert(more.last() == value);
            assert forall|key: i64| occurrences(more, key) == occurrences(seen, key) + if value
                == key {
                1nat
            } else {
                0nat
            } by {}
            lemma_occurrences_bounded(seen, value);
            lemma_occurrences_positive(seen, value);
        }
        if at < buckets.len() && buckets[at].key == value {
            let count = buckets[at].count;
            buckets.set(at, Bucket { key: value, count: count + 1 });
            proof {
                assert forall|k: int| 0 <= k < more.len() implies exists|b: int|
                    0 <= b < buckets@.len() && (#[trigger] buckets@[b]).key
                        == #[trigger] more[k] by {
                    if k < i {
                        assert(seen[k] == more[k]);
                        let b = choose|b: int|
                            0 <= b < before.len() && (#[trigger] before[b]).key == seen[k];
                        assert(buckets@[b].key == more[k]);
                    } else {
                        assert(buckets@[at as int].key == more[k]);
                    }
                }
            }
        } else {
            proof {
                if exists|k: int| 0 <= k < seen.len() && #[trigger] seen[k] == value {
                    let k = choose|k: int| 0 <= k < seen.len() && #[trigger] seen[k] == value;
                    let b = choose|b: int|
                        0 <= b < before.len() && (#[trigger] before[b]).key == seen[k];
                    if b < at {
                        assert(before[b].key < value);
                    } else if b > at {
                        assert(before[at as int].key < before[b].key);
                    }
                }
                assert(occurrences(seen, value) == 0);
            }
            buckets.insert(at, Bucket { key: value, count: 1 });
            proof {
                assert(buckets@ =~= before.insert(at as int, Bucket { key: value, count: 1 }));
                assert forall|a: int, b: int| 0 <= a < b < buckets@.len() implies (
                #[trigger] buckets@[a]).key < (#[trigger] buckets@[b]).key by {
                    let from_a = if a < at {
                        a
                    } else {
                        a - 1
                    };
                    let from_b = if b < at {
                        b
                    } else {
                        b - 1
                    };
                    if a != at && b != at {
                        assert(buckets@[a] == before[from_a]);
                        assert(buckets@[b] == before[from_b]);
                    } else if a == at {
                        assert(buckets@[b] == before[from_b]);
                        if from_b > at {
                            assert(before[at as int].key < before[from_b].key);
                        }
                    } else {
                        assert(buckets@[a] == before[from_a]);
                    }
                }
                assert forall|b: int| 0 <= b < buckets@.len() implies (
                #[trigger] buckets@[b]).count == occurrences(more, buckets@[b].key)
                    && buckets@[b].count > 0 by {
                    if b < at {
                        assert(buckets@[b] == before[b]);
                    } else if b > at {
                        assert(buckets@[b] == before[b - 1]);
                        if b - 1 > at {
                            assert(before[at as int].key < before[b - 1].key);
                        }
                    }
                }
                assert forall|k: int| 0 <= k < more.len() implies exists|b: int|
                    0 <= b < buckets@.len() && (#[trigger] buckets@[b]).key
                        == #[trigger] more[k] by {
                    if k < i {
                        assert(seen[k] == more[k]);
                        let b = choose|b: int|
                            0 <= b < before.len() && (#[trigger] before[b]).key == seen[k];
                        if b < at {
                            assert(buckets@[b] == before[b]);
                        } else {
                            assert(buckets@[b + 1] == before[b]);
                        }
                    } else {
                        assert(buckets@[at as int].key == more[k]);
                    }
                }
            }
        }
        i = i + 1;
    }
    assert(values@.take(values.len() as int) =~= values@);
    buckets
}

/// How many of `values` are `key` or less.
pub open spec fn at_most(values: Seq<i64>, key: i64) -> nat
    decreases values.len(),
{
    if values.len() == 0 {
        0
    } else {
        at_most(values.drop_last(), key) + if values.last() <= key {
            1nat
        } else {
            0nat
        }
    }
}

/// One line of the table of time in the unit.
#[derive(Debug, Clone, Copy, PartialEq, Eq, Structural)]
pub struct TenureRow {
    /// Months in the unit.
    pub months: i64,
    /// How many members have been in the unit for so many months.
    pub count: usize,
    /// How many members have been in the unit for so many months or fewer.
    pub running: usize,
}

/// The counts that the rows of a table of time in the unit hold.
pub open spec fn row_buckets(rows: Seq<TenureRow>) -> Seq<Bucket> {
    rows.map_values(|row: TenureRow| Bucket { key: row.months, count: row.count })
}

/// `rows` is the table of time in the unit for the given months: the table of
/// counts of the months, each line with the number of members that have been
/// in the unit for as long or less.
pub open spec fn is_tenure_table(rows: Seq<TenureRow>, months: Seq<i64>) -> bool {
    &&& is_histogram(row_buckets(rows), months)
    &&& forall|i: int|
        0 <= i < rows.len() ==> (#[trigger] rows[i]).running == at_most(months, rows[i].months)
}

/// The sum of the counts of the first `upto` of `buckets`.
pub open spec fn counted(buckets: Seq<Bucket>, upto: int) -> nat
    decreases upto,
{
    if upto <= 0 {
        0
    } else {
        counted(buckets, upto - 1) + buckets[upto - 1].count as nat
    }
}

spec fn occurrences_sum(buckets: Seq<Bucket>, upto: int, values: Seq<i64>) -> nat
    decreases upto,
{
    if upto <= 0 {
        0
    } else {
        occurrences_sum(buckets, upto - 1, values) + occurrences(values, buckets[upto - 1].key)
    }
}

spec fn rising_keys(buckets: Seq<Bucket>) -> bool {
    forall|i: int, j: int|
        0 <= i < j < buckets.len() ==> (#[trigger] buckets[i]).key < (#[trigger] buckets[j]).key
}

proof fn lemma_occurrences_sum_step(
    buckets: Seq<Bucket>,
    upto: int,
    front: Seq<i64>,
    value: i64,
    at: int,
)
    requires
        rising_keys(buckets),
        0 <= upto <= buckets.len(),
        0 <= at < buckets.len(),
        buckets[at].key == value,
    ensures
        occurrences_sum(buckets, upto, front.push(value)) == occurrences_sum(buckets, upto, front)
            + if at < upto {
            1nat
        } else {
            0nat
        },
    decreases upto,
{
    if upto > 0 {
        lemma_occurrences_sum_step(buckets, upto - 1, front, value, at);
        assert(front.push(value).drop_last() =~= front);
        if upto - 1 < at {
            assert(buckets[upto - 1].key < buckets[at].key);
        } else if upto - 1 > at {
            assert(buckets[at].key < buckets[upto - 1].key);
        }
    }
}

proof fn lemma_occurrences_sum(buckets: Seq<Bucket>, last: int, values: Seq<i64>)
    requires
        rising_keys(buckets),
        0 <= last < buckets.len(),
        forall|k: int|
            0 <= k < values.len() ==> exists|i: int|
                0 <= i < buckets.len() && (#[trigger] buckets[i]).key == #[trigger] values[k],
    ensures
        occurrences_sum(buckets, last + 1, values) == at_most(values, buckets[last].key),
    decreases values.len(),
{
    if values.len() == 0 {
        assert(values =~= Seq::<i64>::empty());
        lemma_occurrences_sum_of_none(buckets, last + 1);
    } else {
        let front = values.drop_last();
        let value = values.last();
        assert forall|k: int| 0 <= k < front.len() implies exists|i: int|
            0 <= i < buckets.len() && (#[trigger] buckets[i]).key == #[trigger] front[k] by {
            assert(front[k] == values[k]);
            let i = choose|i: int|
                0 <= i < buckets.len() && (#[trigger] buckets[i]).key == values[k];
            assert(buckets[i].key == front[k]);
        }
        lemma_occurrences_sum(buckets, last, front);
        assert(values[values.len() - 1] == value);
        let at = choose|i: int| 0 <= i < buckets.len() && (#[trigger] buckets[i]).key == value;
        assert(front.push(value) =~= values);
        lemma_occurrences_sum_step(buckets, last + 1, front, value, at);
        if at < last {
            assert(buckets[at].key < buckets[last].key);
        } else if at > last {
            assert(buckets[last].key < buckets[at].key);
        }
    }
}

proof fn lemma_occurrences_sum_of_none(buckets: Seq<Bucket>, upto: int)
    ensures
        occurrences_sum(buckets, upto, Seq::<i64>::empty()) == 0,
    decreases upto,
{
    if upto > 0 {
        lemma_occurrences_sum_of_none(buckets, upto - 1);
    }
}

proof fn lemma_counted_is_occurrences_sum(buckets: Seq<Bucket>, upto: int, values: Seq<i64>)
    requires
        is_histogram(buckets, values),
        0 <= upto <= buckets.len(),
    ensures
        counted(buckets, upto) == occurrences_sum(buckets, upto, values),
    decreases upto,
{
    if upto > 0 {
        lemma_counted_is_occurrences_sum(buckets, upto - 1, values);
    }
}

/// In a table of counts, the counts down to a line add up to the number of
/// values that are no greater than the key of that line.
pub proof fn lemma_counted_is_at_most(buckets: Seq<Bucket>, values: Seq<i64>, line: int)
    requires
        is_histogram(buckets, values),
        0 <= line < buckets.len(),
    ensures
        counted(buckets, line + 1) == at_most(values, buckets[line].key),
{
    lemma_counted_is_occurrences_sum(buckets, line + 1, values);
    lemma_occurrences_sum(buckets, line, values);
}

/// No more values are at most `key` than there are values.
pub proof fn lemma_at_most_bounded(values: Seq<i64>, key: i64)
    ensures
        at_most(values, key) <= values.len(),
    decreases values.len(),
{
    if values.len() > 0 {
        lemma_at_most_bounded(values.drop_last(), key);
    }
}

/// The table of time in the unit for `month_vec`, which holds for each member
/// the number of months in the unit: one line for every number of months that
/// occurs, in rising order, with the number of members that have been in the
/// unit for so long, and the number that have been for so long or less.
pub fn time_in_ward_buckets(month_vec: &Vec<i64>) -> (rows: Vec<TenureRow>)
    ensures
        is_tenure_table(rows@, month_vec@),
{
    let buckets = bucket_counts(month_vec);
    assert(month_vec@.len() == month_vec.len());
    let mut rows: Vec<TenureRow> = Vec::new();
    let mut running_count: usize = 0;
    let mut i: usize = 0;
    while i < buckets.len()
        invariant
            i <= buckets.len(),
            is_histogram(buckets@, month_vec@),
            month_vec@.len() <= usize::MAX,
            running_count == counted(buckets@, i as int),
            rows@.len() == i,
            forall|k: int|
                0 <= k < i ==> {
                    &&& (#[trigger] rows@[k]).months == buckets@[k].key
                    &&& rows@[k].count == buckets@[k].count
                    &&& rows@[k].running == at_most(month_vec@, buckets@[k].key)
                },
        decreases buckets.len() - i,
    {
        let bucket = buckets[i];
        proof {
            lemma_counted_is_at_most(buckets@, month_vec@, i as int);
            lemma_at_most_bounded(month_vec@, bucket.key);
            assert(counted(buckets@, i + 1) == counted(buckets@, i as int) + bucket.count);
        }
        running_count = running_count + bucket.count;
        rows.push(TenureRow { months: bucket.key, count: bucket.count, running: running_count });
        i = i + 1;
    }
    assert(row_buckets(rows@) =~= buckets@);
    rows
}

/// The running count never falls from one line of the table to a later one, and
/// neither does the share of all members that it stands for: `at_most(.., a)`
/// of `total` is no more than `at_most(.., b)` of `total`, compared here
/// without dividing.
pub proof fn lemma_running_never_falls(values: Seq<i64>, a: i64, b: i64)
    requires
        a <= b,
    ensures
        at_most(values, a) <= at_most(values, b),
        at_most(values, a) * 100 * values.len() <= at_most(values, b) * 100 * values.len(),
    decreases values.len(),
{
    if values.len() > 0 {
        lemma_running_never_falls(values.drop_last(), a, b);
    }
    let low = at_most(values, a);
    let high = at_most(values, b);
    let total = values.len();
    assert(low * 100 * total <= high * 100 * total) by (nonlinear_arith)
        requires
            low <= high,
    ;
}

/// The running counts of a table of time in the unit rise with its lines, and
/// the last line counts everyone.
pub proof fn lemma_tenure_table_running(rows: Seq<TenureRow>, months: Seq<i64>)
    requires
        is_tenure_table(rows, months),
    ensures
        forall|i: int, j: int|
            0 <= i <= j < rows.len() ==> (#[trigger] rows[i]).running <= (#[trigger] rows[j]).running,
        rows.len() > 0 ==> rows[rows.len() - 1].running == months.len(),
        rows.len() == 0 <==> months.len() == 0,
{
    let buckets = row_buckets(rows);
    assert forall|i: int, j: int| 0 <= i <= j < rows.len() implies (#[trigger] rows[i]).running <= (
    #[trigger] rows[j]).running by {
        if i < j {
            assert(buckets[i].key < buckets[j].key);
        }
        lemma_running_never_falls(months, rows[i].months, rows[j].months);
    }
    if rows.len() > 0 {
        let last = rows.len() - 1;
        lemma_all_at_most_greatest(buckets, months, months.len() as int);
        assert(months.take(months.len() as int) =~= months);
        assert(rows[last].months == buckets[last].key);
    }
    if months.len() > 0 {
        assert(exists|i: int| 0 <= i < buckets.len() && (#[trigger] buckets[i]).key == months[0]);
    }
    if rows.len() > 0 {
        assert(buckets[0].count > 0);
        lemma_occurrences_positive(months, buckets[0].key);
    }
}

proof fn lemma_all_at_most_greatest(buckets: Seq<Bucket>, values: Seq<i64>, upto: int)
    requires
        is_histogram(buckets, values),
        buckets.len() > 0,
        0 <= upto <= values.len(),
    ensures
        at_most(values.take(upto), buckets[buckets.len() - 1].key) == upto,
    decreases upto,
{
    if upto > 0 {
        lemma_all_at_most_greatest(buckets, values, upto - 1);
        assert(values.take(upto).drop_last() =~= values.take(upto - 1));
        let value = values[upto - 1];
        assert(values.take(upto).last() == value);
        let at = choose|i: int| 0 <= i < buckets.len() && (#[trigger] buckets[i]).key == value;
        if at < buckets.len() - 1 {
            assert(buckets[at].key < buckets[buckets.len() - 1].key);
        }
    }
}

} // verus!
