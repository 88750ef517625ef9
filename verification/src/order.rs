//! The order a list shows its rows in: by a measure, then by a text, up or
//! down, rows that tie staying as they came.
use crate::text;
use vstd::prelude::*;

verus! {

/// What a list is sorted by first.
pub enum Measure {
    Text(String),
    Number(i128),
}

/// Where a row belongs: its measure, and the text that parts rows of one
/// measure.
pub struct Rank {
    pub first: Measure,
    pub second: String,
}

/// A [`Measure`] as a value.
pub enum MeasureModel {
    Text(Seq<char>),
    Number(int),
}

/// A [`Rank`] as a value.
pub struct RankModel {
    pub first: MeasureModel,
    pub second: Seq<char>,
}

impl View for Measure {
    type V = MeasureModel;

    open spec fn view(&self) -> MeasureModel {
        match self {
            Measure::Text(t) => MeasureModel::Text(t@),
            Measure::Number(n) => MeasureModel::Number(*n as int),
        }
    }
}

impl View for Rank {
    type V = RankModel;

    open spec fn view(&self) -> RankModel {
        RankModel { first: self.first@, second: self.second@ }
    }
}

/// The ranks a list of them holds.
pub open spec fn models(ranks: Seq<Rank>) -> Seq<RankModel> {
    ranks.map_values(|r: Rank| r@)
}

/// Whether `a` stands before `b` in the dictionary of code points, which is
/// the order of their UTF-8 bytes.
pub open spec fn text_before(a: Seq<char>, b: Seq<char>) -> bool
    decreases a.len(),
{
    if b.len() == 0 {
        false
    } else if a.len() == 0 {
        true
    } else if a[0] != b[0] {
        a[0] < b[0]
    } else {
        text_before(a.drop_first(), b.drop_first())
    }
}

pub open spec fn measure_before(a: MeasureModel, b: MeasureModel) -> bool {
    match (a, b) {
        (MeasureModel::Text(a), MeasureModel::Text(b)) => text_before(a, b),
        (MeasureModel::Number(a), MeasureModel::Number(b)) => a < b,
        (MeasureModel::Number(_), MeasureModel::Text(_)) => true,
        (MeasureModel::Text(_), MeasureModel::Number(_)) => false,
    }
}

/// Whether rank `a` stands strictly before rank `b`, ascending.
pub open spec fn rank_before(a: RankModel, b: RankModel) -> bool {
    measure_before(a.first, b.first) || (a.first == b.first && text_before(a.second, b.second))
}

/// Whether the row at `i` shows before the row at `j`.
pub open spec fn shows_before(
    ranks: Seq<RankModel>,
    descending: bool,
    i: int,
    j: int,
) -> bool {
    if descending {
        rank_before(ranks[j], ranks[i]) || (ranks[i] == ranks[j] && i < j)
    } else {
        rank_before(ranks[i], ranks[j]) || (ranks[i] == ranks[j] && i < j)
    }
}

/// Whether `p` names each of the first `n` positions once.
pub open spec fn is_permutation(p: Seq<int>, n: nat) -> bool {
    &&& p.len() == n
    &&& forall|i: int| 0 <= i < p.len() ==> 0 <= #[trigger] p[i] < n
    &&& forall|i: int, j: int| 0 <= i < j < p.len() ==> p[i] != p[j]
}

/// Whether `p` is the order the rows with these ranks show in.
pub open spec fn is_arrangement(p: Seq<int>, ranks: Seq<RankModel>, descending: bool) -> bool {
    &&& is_permutation(p, ranks.len())
    &&& forall|i: int, j: int|
        0 <= i < j < p.len() ==> #[trigger] shows_before(ranks, descending, p[i], p[j])
}

/// Whether `shown` is `rows` in the order of their ranks.
pub open spec fn is_arranged<T>(
    rows: Seq<T>,
    ranks: Seq<RankModel>,
    descending: bool,
    shown: Seq<T>,
) -> bool {
    exists|p: Seq<int>| #[trigger]
        is_arrangement(p, ranks, descending) && shown == p.map_values(|i: int| rows[i])
}

proof fn lemma_text_total(a: Seq<char>, b: Seq<char>)
    ensures
        a == b ==> !text_before(a, b) && !text_before(b, a),
        a != b ==> (text_before(a, b) <==> !text_before(b, a)),
    decreases a.len(),
{
    if a.len() > 0 && b.len() > 0 && a[0] == b[0] {
        lemma_text_total(a.drop_first(), b.drop_first());
        if a.drop_first() == b.drop_first() {
            assert(a == seq![a[0]] + a.drop_first());
            assert(b == seq![b[0]] + b.drop_first());
        }
    } else if a.len() == 0 && b.len() == 0 {
        assert(a == b);
    }
}

proof fn lemma_text_transitive(a: Seq<char>, b: Seq<char>, c: Seq<char>)
    requires
        text_before(a, b),
        text_before(b, c),
    ensures
        text_before(a, c),
    decreases a.len(),
{
    if a.len() > 0 && a[0] == b[0] && b[0] == c[0] {
        lemma_text_transitive(a.drop_first(), b.drop_first(), c.drop_first());
    }
}

/// Ranks stand in one line: of two that differ, one stands before the other.
pub proof fn lemma_rank_total(a: RankModel, b: RankModel)
    ensures
        a == b ==> !rank_before(a, b) && !rank_before(b, a),
        a != b ==> (rank_before(a, b) <==> !rank_before(b, a)),
{
    lemma_text_total(a.second, b.second);
    match (a.first, b.first) {
        (MeasureModel::Text(x), MeasureModel::Text(y)) => {
            lemma_text_total(x, y);
        },
        _ => {},
    }
}

/// What stands before a rank stands before all that stand behind it.
pub proof fn lemma_rank_transitive(a: RankModel, b: RankModel, c: RankModel)
    requires
        rank_before(a, b),
        rank_before(b, c),
    ensures
        rank_before(a, c),
{
    match (a.first, b.first, c.first) {
        (MeasureModel::Text(x), MeasureModel::Text(y), MeasureModel::Text(z)) => {
            if text_before(x, y) && text_before(y, z) {
                lemma_text_transitive(x, y, z);
            }
        },
        _ => {},
    }
    if a.first == b.first && b.first == c.first {
        lemma_text_total(a.second, b.second);
        match a.first {
            MeasureModel::Text(x) => {
                lemma_text_total(x, x);
            },
            _ => {},
        }
        lemma_text_transitive(a.second, b.second, c.second);
    }
}

proof fn lemma_shows_transitive(
    ranks: Seq<RankModel>,
    descending: bool,
    i: int,
    j: int,
    k: int,
)
    requires
        shows_before(ranks, descending, i, j),
        shows_before(ranks, descending, j, k),
    ensures
        shows_before(ranks, descending, i, k),
{
    let (a, b, c) = (ranks[i], ranks[j], ranks[k]);
    if descending {
        if rank_before(b, a) && rank_before(c, b) {
            lemma_rank_transitive(c, b, a);
        }
    } else {
        if rank_before(a, b) && rank_before(b, c) {
            lemma_rank_transitive(a, b, c);
        }
    }
}

/// Rows with the same ranks have one order: two lists arranged from the same
/// rows are the same list.
pub proof fn law_one_arrangement<T>(
    rows: Seq<T>,
    ranks: Seq<RankModel>,
    descending: bool,
    a: Seq<T>,
    b: Seq<T>,
)
    requires
        rows.len() == ranks.len(),
        is_arranged(rows, ranks, descending, a),
        is_arranged(rows, ranks, descending, b),
    ensures
        a == b,
{
    let p = choose|p: Seq<int>| #[trigger]
        is_arrangement(p, ranks, descending) && a == p.map_values(|i: int| rows[i]);
    let q = choose|q: Seq<int>| #[trigger]
        is_arrangement(q, ranks, descending) && b == q.map_values(|i: int| rows[i]);
    lemma_same_arrangement(ranks, descending, p, q, 0);
    assert(p =~= q);
}

/// A permutation holds every position there is.
proof fn lemma_permutation_covers(p: Seq<int>, n: nat, v: int)
    requires
        is_permutation(p, n),
        0 <= v < n,
    ensures
        p.contains(v),
{
    let whole = Set::<int>::new(|i: int| 0 <= i < n);
    assert(whole =~= vstd::set_lib::set_int_range(0, n as int));
    vstd::set_lib::lemma_int_range(0, n as int);
    assert(p.no_duplicates());
    p.unique_seq_to_set();
    assert(p.to_set().subset_of(whole));
    vstd::set_lib::lemma_subset_equality(p.to_set(), whole);
    assert(p.to_set().contains(v));
}

proof fn lemma_same_arrangement(
    ranks: Seq<RankModel>,
    descending: bool,
    p: Seq<int>,
    q: Seq<int>,
    at: int,
)
    requires
        is_arrangement(p, ranks, descending),
        is_arrangement(q, ranks, descending),
        0 <= at <= p.len(),
        forall|i: int| 0 <= i < at ==> p[i] == q[i],
    ensures
        forall|i: int| 0 <= i < p.len() ==> p[i] == q[i],
    decreases p.len() - at,
{
    if at < p.len() {
        if p[at] != q[at] {
            lemma_permutation_covers(p, ranks.len(), q[at]);
            lemma_permutation_covers(q, ranks.len(), p[at]);
            let i = choose|i: int| 0 <= i < p.len() && p[i] == q[at];
            let j = choose|j: int| 0 <= j < q.len() && q[j] == p[at];
            if i < at {
                assert(p[i] == q[i]);
                assert(q[i] == q[at]);
            }
            if j < at {
                assert(p[j] == q[j]);
                assert(p[j] == p[at]);
            }
            assert(shows_before(ranks, descending, p[at], p[i]));
            assert(shows_before(ranks, descending, q[at], q[j]));
            lemma_rank_total(ranks[p[at]], ranks[q[at]]);
        }
        lemma_same_arrangement(ranks, descending, p, q, at + 1);
    }
}

/// A permutation of all positions shows every row, as often as it is there.
proof fn lemma_permuted_rows<T>(rows: Seq<T>, p: Seq<int>)
    requires
        is_permutation(p, rows.len()),
    ensures
        p.map_values(|i: int| rows[i]).to_multiset() == rows.to_multiset(),
    decreases rows.len(),
{
    broadcast use vstd::seq_lib::group_to_multiset_ensures;

    let shown = p.map_values(|i: int| rows[i]);
    if rows.len() == 0 {
        assert(shown =~= rows);
    } else {
        let n = rows.len() - 1;
        lemma_permutation_covers(p, rows.len(), n);
        let k = choose|k: int| 0 <= k < p.len() && p[k] == n;
        let q = p.remove(k);
        let rest = rows.drop_last();
        assert forall|i: int| 0 <= i < q.len() implies 0 <= #[trigger] q[i] < n by {
            let at = if i < k { i } else { i + 1 };
            assert(q[i] == p[at]);
            assert(p[at] != p[k]);
        }
        assert forall|i: int, j: int| 0 <= i < j < q.len() implies q[i] != q[j] by {
            let a = if i < k { i } else { i + 1 };
            let b = if j < k { j } else { j + 1 };
            assert(p[a] != p[b]);
        }
        lemma_permuted_rows(rest, q);
        assert(shown.remove(k) =~= q.map_values(|i: int| rest[i]));
        assert(shown[k] == rows[n]);
        assert(rest.push(rows[n]) =~= rows);
        assert(shown.contains(rows[n]));
        assert(shown.to_multiset().remove(rows[n]).insert(rows[n]) =~= shown.to_multiset());
    }
}

/// Whether two rows stand in the order of their ranks, rows of one rank as they
/// came.
pub open spec fn come_in_order<T>(
    rows: Seq<T>,
    ranks: Seq<RankModel>,
    descending: bool,
    first: T,
    second: T,
) -> bool {
    exists|a: int, b: int|
        #![trigger rows[a], rows[b]]
        {
            &&& 0 <= a < rows.len() && 0 <= b < rows.len() && a != b
            &&& first == rows[a] && second == rows[b]
            &&& if descending {
                !rank_before(ranks[a], ranks[b])
            } else {
                !rank_before(ranks[b], ranks[a])
            }
            &&& ranks[a] == ranks[b] ==> a < b
        }
}

/// A list put in order holds every row as often as before, and any two of its
/// rows stand in the order of their ranks, rows of one rank as they came.
pub proof fn law_arranging_keeps_every_row<T>(
    rows: Seq<T>,
    ranks: Seq<RankModel>,
    descending: bool,
    shown: Seq<T>,
)
    requires
        rows.len() == ranks.len(),
        is_arranged(rows, ranks, descending, shown),
    ensures
        shown.len() == rows.len(),
        shown.to_multiset() == rows.to_multiset(),
        forall|i: int, j: int|
            #![trigger shown[i], shown[j]]
            0 <= i < j < shown.len() ==> come_in_order(rows, ranks, descending, shown[i], shown[j]),
{
    let p = choose|p: Seq<int>| #[trigger]
        is_arrangement(p, ranks, descending) && shown == p.map_values(|i: int| rows[i]);
    lemma_permuted_rows(rows, p);
    assert forall|i: int, j: int|
        #![trigger shown[i], shown[j]]
        0 <= i < j < shown.len() implies come_in_order(
        rows,
        ranks,
        descending,
        shown[i],
        shown[j],
    ) by {
        assert(shows_before(ranks, descending, p[i], p[j]));
        lemma_rank_total(ranks[p[i]], ranks[p[j]]);
        assert(shown[i] == rows[p[i]] && shown[j] == rows[p[j]]);
    }
}

/// Two rows that come in order stood somewhere in the list, in ranks that agree
/// with it.
pub proof fn lemma_positions<T>(
    rows: Seq<T>,
    ranks: Seq<RankModel>,
    descending: bool,
    first: T,
    second: T,
) -> (at: (int, int))
    requires
        come_in_order(rows, ranks, descending, first, second),
    ensures
        0 <= at.0 < rows.len(),
        0 <= at.1 < rows.len(),
        at.0 != at.1,
        first == rows[at.0],
        second == rows[at.1],
        descending ==> !rank_before(ranks[at.0], ranks[at.1]),
        !descending ==> !rank_before(ranks[at.1], ranks[at.0]),
        ranks[at.0] == ranks[at.1] ==> at.0 < at.1,
{
    choose|a: int, b: int|
        #![trigger rows[a], rows[b]]
        {
            &&& 0 <= a < rows.len() && 0 <= b < rows.len() && a != b
            &&& first == rows[a] && second == rows[b]
            &&& if descending {
                !rank_before(ranks[a], ranks[b])
            } else {
                !rank_before(ranks[b], ranks[a])
            }
            &&& ranks[a] == ranks[b] ==> a < b
        }
}

/// Whether `a` may stand before `b` in a dictionary: where they first differ it
/// has the smaller character, and where they do not it is not the longer one.
pub open spec fn in_dictionary_order(a: Seq<char>, b: Seq<char>) -> bool {
    &&& forall|k: int|
        0 <= k < a.len() && k < b.len() && #[trigger] a.take(k) == b.take(k) ==> a[k] <= b[k]
    &&& b.is_prefix_of(a) ==> a == b
}

/// Of two texts the one that does not stand behind comes first in a dictionary.
pub proof fn lemma_dictionary_order(a: Seq<char>, b: Seq<char>)
    requires
        !text_before(b, a),
    ensures
        in_dictionary_order(a, b),
{
    assert forall|k: int|
        0 <= k < a.len() && k < b.len() && #[trigger] a.take(k) == b.take(k) implies a[k]
        <= b[k] by {
        law_texts_stand_by_their_first_difference(b, a, k);
    }
    if b.is_prefix_of(a) {
        let n = b.len() as int;
        assert(b.take(n) =~= b);
        assert(a.take(n) =~= b);
        law_texts_stand_by_their_first_difference(b, a, n);
        assert(a.len() == b.len());
        assert(a.take(n) =~= a);
    }
}

/// Whether two ranks come in order: by their measure, and by their second text
/// where the measures agree.
pub proof fn lemma_ranks_in_order(a: RankModel, b: RankModel)
    requires
        !rank_before(b, a),
    ensures
        match (a.first, b.first) {
            (MeasureModel::Number(m), MeasureModel::Number(n)) => m <= n,
            (MeasureModel::Text(s), MeasureModel::Text(t)) => in_dictionary_order(s, t),
            _ => true,
        },
        a.first == b.first ==> in_dictionary_order(a.second, b.second),
{
    match (a.first, b.first) {
        (MeasureModel::Text(s), MeasureModel::Text(t)) => {
            lemma_dictionary_order(s, t);
        },
        _ => {},
    }
    if a.first == b.first {
        lemma_dictionary_order(a.second, b.second);
    }
}

/// Where two texts part, the one with the smaller character stands first; where
/// they do not, the shorter one does.
pub proof fn law_texts_stand_by_their_first_difference(a: Seq<char>, b: Seq<char>, k: int)
    requires
        0 <= k <= a.len(),
        k <= b.len(),
        a.take(k) == b.take(k),
    ensures
        k < a.len() && k < b.len() && a[k] < b[k] ==> text_before(a, b) && !text_before(b, a),
        k == a.len() && k < b.len() ==> text_before(a, b) && !text_before(b, a),
        k == a.len() && k == b.len() ==> !text_before(a, b) && !text_before(b, a),
    decreases k,
{
    if k > 0 {
        assert(a[0] == a.take(k)[0] && b[0] == b.take(k)[0]);
        let (x, y) = (a.drop_first(), b.drop_first());
        assert(x.take(k - 1) =~= a.take(k).drop_first());
        assert(y.take(k - 1) =~= b.take(k).drop_first());
        law_texts_stand_by_their_first_difference(x, y, k - 1);
    }
}

/// Whether `a` stands before `b` in the dictionary.
pub fn text_less(a: &str, b: &str) -> (r: bool)
    ensures
        r == text_before(a@, b@),
{
    let x = text::letters(a);
    let y = text::letters(b);
    let mut i: usize = 0;
    assert(x@.skip(0) == x@);
    assert(y@.skip(0) == y@);
    while i < x.len() && i < y.len()
        invariant
            i <= x.len(),
            i <= y.len(),
            x@ == a@,
            y@ == b@,
            text_before(x@, y@) == text_before(x@.skip(i as int), y@.skip(i as int)),
        decreases x.len() - i,
    {
        if x[i] != y[i] {
            return x[i] < y[i];
        }
        assert(x@.skip(i as int).drop_first() == x@.skip(i + 1));
        assert(y@.skip(i as int).drop_first() == y@.skip(i + 1));
        i += 1;
    }
    i < y.len()
}

fn measure_less(a: &Measure, b: &Measure) -> (r: bool)
    ensures
        r == measure_before(a@, b@),
{
    match (a, b) {
        (Measure::Text(a), Measure::Text(b)) => text_less(a, b),
        (Measure::Number(a), Measure::Number(b)) => *a < *b,
        (Measure::Number(_), Measure::Text(_)) => true,
        (Measure::Text(_), Measure::Number(_)) => false,
    }
}

/// Whether `a` stands strictly before `b`, ascending.
pub fn rank_less(a: &Rank, b: &Rank) -> (r: bool)
    ensures
        r == rank_before(a@, b@),
{
    if measure_less(&a.first, &b.first) {
        return true;
    }
    proof {
        match (a.first@, b.first@) {
            (MeasureModel::Text(x), MeasureModel::Text(y)) => {
                lemma_text_total(x, y);
            },
            _ => {},
        }
    }
    if measure_less(&b.first, &a.first) {
        return false;
    }
    text_less(&a.second, &b.second)
}

/// The rows in the order of their ranks: ascending or descending, rows of one
/// rank in the order they came in.
pub fn arrange<T>(rows: Vec<T>, ranks: &Vec<Rank>, descending: bool) -> (shown: Vec<T>)
    requires
        rows.len() == ranks.len(),
    ensures
        is_arranged(rows@, models(ranks@), descending, shown@),
{
    let ghost all = rows@;
    let ghost keys = models(ranks@);
    let mut rest = rows;
    let mut shown: Vec<T> = Vec::new();
    let mut order: Vec<usize> = Vec::new();
    let ghost mut p: Seq<int> = Seq::empty();
    let mut k: usize = 0;
    while k < ranks.len()
        invariant
            k <= ranks.len(),
            all.len() == ranks.len(),
            keys == models(ranks@),
            rest@ == all.skip(k as int),
            order.len() == k,
            p.len() == k,
            shown@ == p.map_values(|i: int| all[i]),
            forall|i: int| 0 <= i < k ==> #[trigger] p[i] == order@[i],
            forall|i: int| 0 <= i < k ==> 0 <= #[trigger] p[i] < k,
            forall|i: int, j: int| 0 <= i < j < k ==> p[i] != p[j],
            forall|i: int, j: int|
                0 <= i < j < k ==> #[trigger] shows_before(keys, descending, p[i], p[j]),
        decreases ranks.len() - k,
    {
        let mut at: usize = 0;
        while at < k
            invariant
                at <= k < ranks.len(),
                keys == models(ranks@),
                order.len() == k,
                p.len() == k,
                forall|i: int| 0 <= i < k ==> #[trigger] p[i] == order@[i],
                forall|i: int| 0 <= i < k ==> 0 <= #[trigger] p[i] < k,
                forall|i: int|
                    0 <= i < at ==> #[trigger] shows_before(keys, descending, p[i], k as int),
            ensures
                at <= k,
                forall|i: int|
                    0 <= i < at ==> #[trigger] shows_before(keys, descending, p[i], k as int),
                at < k ==> shows_before(keys, descending, k as int, p[at as int]),
            decreases k - at,
        {
            let held: usize = order[at];
            proof {
                assert(p[at as int] == held);
                lemma_rank_total(keys[held as int], keys[k as int]);
            }
            let passes = if descending {
                rank_less(&ranks[held], &ranks[k])
            } else {
                rank_less(&ranks[k], &ranks[held])
            };
            if passes {
                break;
            }
            at += 1;
        }
        let ghost before = p;
        proof {
            assert forall|i: int, j: int| 0 <= i < j < k + 1 implies #[trigger] shows_before(
                keys,
                descending,
                before.insert(at as int, k as int)[i],
                before.insert(at as int, k as int)[j],
            ) by {
                let q = before.insert(at as int, k as int);
                if i < at && j == at {
                    assert(shows_before(keys, descending, before[i], k as int));
                } else if i == at {
                    assert(shows_before(keys, descending, k as int, before[at as int]));
                    if j > at + 1 {
                        assert(shows_before(keys, descending, before[at as int], before[j - 1]));
                        lemma_shows_transitive(keys, descending, k as int, before[at as int], before[j - 1]);
                    }
                } else if j < at {
                    assert(shows_before(keys, descending, before[i], before[j]));
                } else if i < at {
                    assert(shows_before(keys, descending, before[i], before[j - 1]));
                } else {
                    assert(shows_before(keys, descending, before[i - 1], before[j - 1]));
                }
            }
            p = before.insert(at as int, k as int);
        }
        let row = rest.remove(0);
        shown.insert(at, row);
        order.insert(at, k);
        proof {
            assert(shown@ =~= p.map_values(|i: int| all[i]));
            assert(rest@ =~= all.skip(k + 1));
        }
        k += 1;
    }
    proof {
        assert(is_arrangement(p, keys, descending));
    }
    shown
}

} // verus!
