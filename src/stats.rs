//! Counts over the index: tasks, results, the years and months they fall in.
//! Computed from the index alone; shard files are never opened.

use vstd::prelude::*;
use crate::index::{IndexEntry, IndexStore, INDEX_CAPACITY};
use crate::text::{signed_decimal, signed_decimal_text, two_digit_text, two_digits};

verus! {

/// The sum of the entries' result counts.
pub open spec fn sum_counts(s: Seq<IndexEntry>) -> int
    decreases s.len(),
{
    if s.len() == 0 {
        0
    } else {
        sum_counts(s.drop_last()) + s.last().total_count
    }
}

/// How many entries fall in `year` and `month`.
pub open spec fn month_count(s: Seq<IndexEntry>, year: int, month: int) -> nat
    decreases s.len(),
{
    if s.len() == 0 {
        0
    } else {
        month_count(s.drop_last(), year, month) + if s.last().year == year && s.last().month
            == month {
            1nat
        } else {
            0nat
        }
    }
}

/// Some entry falls in `year`.
pub open spec fn year_present(s: Seq<IndexEntry>, year: int) -> bool {
    exists|i: int| 0 <= i < s.len() && #[trigger] s[i].year == year
}

/// Some entry falls in `year` and `month`.
pub open spec fn month_present(s: Seq<IndexEntry>, year: int, month: int) -> bool {
    exists|i: int| 0 <= i < s.len() && #[trigger] s[i].year == year && s[i].month == month
}

/// The key of a month: the year, `-`, the month in two digits.
pub open spec fn month_key_of(year: int, month: int) -> Seq<char> {
    signed_decimal(year) + seq!['-'] + two_digits(month as nat)
}

/// Year and month `(y1, m1)` come before `(y2, m2)`.
pub open spec fn month_before(y1: int, m1: int, y2: int, m2: int) -> bool {
    y1 < y2 || (y1 == y2 && m1 < m2)
}

/// The number of entries of one month.
#[derive(Debug, PartialEq, Eq)]
pub struct MonthCount {
    pub year: i32,
    pub month: u32,
    pub key: String,
    pub count: usize,
}

/// Aggregate counts over the index.
#[derive(Debug, PartialEq, Eq)]
pub struct HistoryStats {
    pub total_tasks: usize,
    pub total_results: i128,
    pub years: Vec<i32>,
    pub months: Vec<MonthCount>,
}

pub open spec fn years_sorted(v: Seq<i32>) -> bool {
    forall|a: int, b: int| 0 <= a < b < v.len() ==> #[trigger] v[a] < #[trigger] v[b]
}

pub open spec fn months_sorted(v: Seq<MonthCount>) -> bool {
    forall|a: int, b: int|
        0 <= a < b < v.len() ==> month_before(
            #[trigger] v[a].year as int,
            v[a].month as int,
            #[trigger] v[b].year as int,
            v[b].month as int,
        )
}

/// `years` lists, in increasing order and once each, the years of `s`.
pub open spec fn years_of(years: Seq<i32>, s: Seq<IndexEntry>) -> bool {
    &&& years_sorted(years)
    &&& forall|y: i32| #[trigger] years.contains(y) <==> year_present(s, y as int)
}

/// `months` lists, in increasing order and once each, the months of `s`, each
/// with its key and its number of entries.
pub open spec fn months_of(months: Seq<MonthCount>, s: Seq<IndexEntry>) -> bool {
    &&& months_sorted(months)
    &&& forall|k: int|
        0 <= k < months.len() ==> {
            &&& #[trigger] months[k].count == month_count(
                s,
                months[k].year as int,
                months[k].month as int,
            )
            &&& months[k].key@ == month_key_of(months[k].year as int, months[k].month as int)
            &&& month_present(s, months[k].year as int, months[k].month as int)
        }
    &&& forall|y: i32, m: u32|
        #![trigger month_present(s, y as int, m as int)]
        month_present(s, y as int, m as int) ==> exists|k: int|
            0 <= k < months.len() && #[trigger] months[k].year == y && months[k].month == m
}

proof fn lemma_month_count_absent(s: Seq<IndexEntry>, year: int, month: int)
    requires
        !month_present(s, year, month),
    ensures
        month_count(s, year, month) == 0,
    decreases s.len(),
{
    if s.len() > 0 {
        let t = s.drop_last();
        assert(!month_present(t, year, month)) by {
            if month_present(t, year, month) {
                let i = choose|i: int|
                    0 <= i < t.len() && #[trigger] t[i].year == year && t[i].month == month;
                assert(s[i] == t[i]);
            }
        }
        lemma_month_count_absent(t, year, month);
        assert(!(s[s.len() - 1].year == year && s[s.len() - 1].month == month));
    }
}

proof fn lemma_month_count_bound(s: Seq<IndexEntry>, year: int, month: int)
    ensures
        month_count(s, year, month) <= s.len(),
    decreases s.len(),
{
    if s.len() > 0 {
        lemma_month_count_bound(s.drop_last(), year, month);
    }
}

/// The first position of `v` whose year is not below `y`.
fn year_slot(v: &Vec<i32>, y: i32) -> (p: usize)
    requires
        years_sorted(v@),
    ensures
        p <= v@.len(),
        forall|k: int| 0 <= k < p ==> v@[k] < y,
        forall|k: int| p <= k < v@.len() ==> v@[k] >= y,
{
    let mut p: usize = 0;
    while p < v.len() && v[p] < y
        invariant
            years_sorted(v@),
            p <= v@.len(),
            forall|k: int| 0 <= k < p ==> v@[k] < y,
        decreases v@.len() - p,
    {
        p = p + 1;
    }
    if p < v.len() {
        assert forall|k: int| p <= k < v@.len() implies v@[k] >= y by {
            if k > p {
                assert(v@[p as int] < v@[k]);
            }
        }
    }
    p
}

/// The first position of `v` whose month is not before `(y, m)`.
fn month_slot(v: &Vec<MonthCount>, y: i32, m: u32) -> (p: usize)
    requires
        months_sorted(v@),
    ensures
        p <= v@.len(),
        forall|k: int|
            0 <= k < p ==> month_before(v@[k].year as int, v@[k].month as int, y as int, m as int),
        forall|k: int|
            p <= k < v@.len() ==> !month_before(
                v@[k].year as int,
                v@[k].month as int,
                y as int,
                m as int,
            ),
{
    let mut p: usize = 0;
    while p < v.len() && (v[p].year < y || (v[p].year == y && v[p].month < m))
        invariant
            months_sorted(v@),
            p <= v@.len(),
            forall|k: int|
                0 <= k < p ==> month_before(
                    v@[k].year as int,
                    v@[k].month as int,
                    y as int,
                    m as int,
                ),
        decreases v@.len() - p,
    {
        p = p + 1;
    }
    if p < v.len() {
        assert forall|k: int| p <= k < v@.len() implies !month_before(
            v@[k].year as int,
            v@[k].month as int,
            y as int,
            m as int,
        ) by {
            if k > p {
                assert(month_before(
                    v@[p as int].year as int,
                    v@[p as int].month as int,
                    v@[k].year as int,
                    v@[k].month as int,
                ));
            }
        }
    }
    p
}

/// The key of a month, as `month_key_of` spells it.
pub fn month_key(year: i32, month: u32) -> (r: String)
    ensures
        r@ == month_key_of(year as int, month as int),
{
    let mut r = signed_decimal_text(year as i64);
    proof {
        reveal_strlit("-");
    }
    r.append("-");
    let m = two_digit_text(month as u64);
    r.append(m.as_str());
    assert(r@ =~= month_key_of(year as int, month as int));
    r
}

/// Counts over the index: the number of tasks, the sum of their result counts,
/// the years in increasing order, and the number of tasks of each month in
/// increasing order.
pub fn compute_stats(index: &IndexStore) -> (r: HistoryStats)
    ensures
        r.total_tasks == index@.len(),
        r.total_results == sum_counts(index@),
        years_of(r.years@, index@),
        months_of(r.months@, index@),
{
    let n = index.len();
    let entries = index.entries();
    let ghost s = index@;
    let mut total: i128 = 0;
    let mut years: Vec<i32> = Vec::new();
    let mut months: Vec<MonthCount> = Vec::new();
    let mut i: usize = 0;
    while i < n
        invariant
            n == s.len() <= INDEX_CAPACITY,
            entries@ == s,
            i <= n,
            total == sum_counts(s.take(i as int)),
            -(i as int) * 0x8000_0000_0000_0000int <= total <= (i as int) * 0x8000_0000_0000_0000int,
            years_of(years@, s.take(i as int)),
            months_of(months@, s.take(i as int)),
        decreases n - i,
    {
        let ghost t = s.take(i as int);
        let ghost t1 = s.take(i as int + 1);
        let e = &entries[i];
        assert(t1.drop_last() =~= t);
        assert(t1.last() == s[i as int]);
        assert forall|k: int| 0 <= k < t.len() implies #[trigger] t1[k] == t[k] by {}
        total = total + e.total_count as i128;

        let y = e.year;
        let p = year_slot(&years, y);
        if p < years.len() && years[p] == y {
            assert forall|x: i32| #[trigger] years@.contains(x) <==> year_present(t1, x as int) by {
                if year_present(t1, x as int) {
                    let j = choose|j: int| 0 <= j < t1.len() && #[trigger] t1[j].year == x as int;
                    if j < t.len() {
                        assert(t[j].year == x);
                    } else {
                        assert(years@[p as int] == x);
                    }
                }
                if years@.contains(x) {
                    assert(year_present(t, x as int));
                    let j = choose|j: int| 0 <= j < t.len() && #[trigger] t[j].year == x as int;
                    assert(t1[j].year == x);
                }
            }
        } else {
            let ghost old_years = years@;
            years.insert(p, y);
            assert forall|a: int, b: int| 0 <= a < b < years@.len() implies #[trigger] years@[a]
                < #[trigger] years@[b] by {
                if b < p {
                    assert(old_years[a] < old_years[b]);
                } else if b == p {
                } else if a < p {
                    assert(old_years[b - 1] >= y);
                } else if a == p {
                    assert(old_years[b - 1] >= y);
                    assert(old_years[b - 1] != y || b - 1 != p);
                    if b - 1 > p {
                        assert(old_years[p as int] < old_years[b - 1]);
                    }
                } else {
                    assert(old_years[a - 1] < old_years[b - 1]);
                }
            }
            assert forall|x: i32| #[trigger] years@.contains(x) <==> year_present(t1, x as int) by {
                if year_present(t1, x as int) {
                    let j = choose|j: int| 0 <= j < t1.len() && #[trigger] t1[j].year == x as int;
                    if j < t.len() {
                        assert(t[j].year == x);
                        assert(old_years.contains(x));
                        let q = choose|q: int| 0 <= q < old_years.len() && old_years[q] == x;
                        if q < p {
                            assert(years@[q] == x);
                        } else {
                            assert(years@[q + 1] == x);
                        }
                    } else {
                        assert(years@[p as int] == x);
                    }
                }
                if years@.contains(x) {
                    let q = choose|q: int| 0 <= q < years@.len() && years@[q] == x;
                    if q == p {
                        assert(t1[i as int].year == x);
                    } else {
                        let q2 = if q < p { q } else { q - 1 };
                        assert(old_years[q2] == x);
                        assert(old_years.contains(x));
                        let j = choose|j: int| 0 <= j < t.len() && #[trigger] t[j].year == x as int;
                        assert(t1[j].year == x);
                    }
                }
            }
        }

        let m = e.month;
        let ghost old_months = months@;
        let q = month_slot(&months, y, m);
        if q < months.len() && months[q].year == y && months[q].month == m {
            proof {
                lemma_month_count_bound(t, y as int, m as int);
            }
            let updated = MonthCount {
                year: y,
                month: m,
                key: months[q].key.clone(),
                count: months[q].count + 1,
            };
            months.set(q, updated);
            assert forall|k: int| 0 <= k < months@.len() implies {
                &&& #[trigger] months@[k].count == month_count(
                    t1,
                    months@[k].year as int,
                    months@[k].month as int,
                )
                &&& months@[k].key@ == month_key_of(
                    months@[k].year as int,
                    months@[k].month as int,
                )
                &&& month_present(t1, months@[k].year as int, months@[k].month as int)
            } by {
                let ky = months@[k].year as int;
                let km = months@[k].month as int;
                assert(old_months[k].count == month_count(t, ky, km));
                assert(old_months[k].year == months@[k].year && old_months[k].month
                    == months@[k].month);
                assert(month_present(t, ky, km));
                let j = choose|j: int|
                    0 <= j < t.len() && #[trigger] t[j].year == ky && t[j].month == km;
                assert(t1[j].year == ky);
                if k != q {
                    if k < q {
                        assert(month_before(ky, km, y as int, m as int));
                    } else {
                        assert(month_before(y as int, m as int, ky, km));
                    }
                }
            }
            assert forall|yy: i32, mm: u32|
                #![trigger month_present(t1, yy as int, mm as int)]
                month_present(t1, yy as int, mm as int) implies exists|k: int|
                0 <= k < months@.len() && #[trigger] months@[k].year == yy && months@[k].month
                    == mm by {
                let j = choose|j: int|
                    0 <= j < t1.len() && #[trigger] t1[j].year == yy as int && t1[j].month
                        == mm as int;
                if j < t.len() {
                    assert(t[j].year == yy && t[j].month == mm);
                    assert(month_present(t, yy as int, mm as int));
                    let k = choose|k: int|
                        0 <= k < old_months.len() && #[trigger] old_months[k].year == yy
                            && old_months[k].month == mm;
                    assert(months@[k].year == yy && months@[k].month == mm);
                } else {
                    assert(months@[q as int].year == yy && months@[q as int].month == mm);
                }
            }
        } else {
            proof {
                if month_present(t, y as int, m as int) {
                    let k = choose|k: int|
                        0 <= k < old_months.len() && #[trigger] old_months[k].year == y
                            && old_months[k].month == m;
                    if k < q {
                        assert(month_before(y as int, m as int, y as int, m as int));
                    } else if k > q {
                        assert(month_before(
                            old_months[q as int].year as int,
                            old_months[q as int].month as int,
                            y as int,
                            m as int,
                        ));
                    }
                }
                lemma_month_count_absent(t, y as int, m as int);
            }
            let key = month_key(y, m);
            months.insert(q, MonthCount { year: y, month: m, key, count: 1 });
            assert forall|a: int, b: int| 0 <= a < b < months@.len() implies month_before(
                #[trigger] months@[a].year as int,
                months@[a].month as int,
                #[trigger] months@[b].year as int,
                months@[b].month as int,
            ) by {
                if b < q {
                    assert(month_before(
                        old_months[a].year as int,
                        old_months[a].month as int,
                        old_months[b].year as int,
                        old_months[b].month as int,
                    ));
                } else if b == q {
                } else if a < q {
                    assert(!month_before(
                        old_months[b - 1].year as int,
                        old_months[b - 1].month as int,
                        y as int,
                        m as int,
                    ));
                } else if a == q {
                    assert(!month_before(
                        old_months[b - 1].year as int,
                        old_months[b - 1].month as int,
                        y as int,
                        m as int,
                    ));
                    if b - 1 > q {
                        assert(month_before(
                            old_months[q as int].year as int,
                            old_months[q as int].month as int,
                            old_months[b - 1].year as int,
                            old_months[b - 1].month as int,
                        ));
                    }
                } else {
                    assert(month_before(
                        old_months[a - 1].year as int,
                        old_months[a - 1].month as int,
                        old_months[b - 1].year as int,
                        old_months[b - 1].month as int,
                    ));
                }
            }
            assert forall|k: int| 0 <= k < months@.len() implies {
                &&& #[trigger] months@[k].count == month_count(
                    t1,
                    months@[k].year as int,
                    months@[k].month as int,
                )
                &&& months@[k].key@ == month_key_of(
                    months@[k].year as int,
                    months@[k].month as int,
                )
                &&& month_present(t1, months@[k].year as int, months@[k].month as int)
            } by {
                if k == q {
                    assert(t1[i as int].year == y && t1[i as int].month == m);
                } else {
                    let k2 = if k < q { k } else { k - 1 };
                    assert(months@[k] == old_months[k2]);
                    let ky = old_months[k2].year as int;
                    let km = old_months[k2].month as int;
                    assert(old_months[k2].count == month_count(t, ky, km));
                    assert(month_present(t, ky, km));
                    let j = choose|j: int|
                        0 <= j < t.len() && #[trigger] t[j].year == ky && t[j].month == km;
                    assert(t1[j].year == ky);
                    assert(ky != y || km != m);
                }
            }
            assert forall|yy: i32, mm: u32|
                #![trigger month_present(t1, yy as int, mm as int)]
                month_present(t1, yy as int, mm as int) implies exists|k: int|
                0 <= k < months@.len() && #[trigger] months@[k].year == yy && months@[k].month
                    == mm by {
                let j = choose|j: int|
                    0 <= j < t1.len() && #[trigger] t1[j].year == yy as int && t1[j].month
                        == mm as int;
                if j < t.len() {
                    assert(t[j].year == yy && t[j].month == mm);
                    assert(month_present(t, yy as int, mm as int));
                    let k = choose|k: int|
                        0 <= k < old_months.len() && #[trigger] old_months[k].year == yy
                            && old_months[k].month == mm;
                    if k < q {
                        assert(months@[k].year == yy && months@[k].month == mm);
                    } else {
                        assert(months@[k + 1].year == yy && months@[k + 1].month == mm);
                    }
                } else {
                    assert(months@[q as int].year == yy && months@[q as int].month == mm);
                }
            }
        }
        i = i + 1;
    }
    assert(s.take(n as int) =~= s);
    HistoryStats { total_tasks: n, total_results: total, years, months }
}

} // verus!
