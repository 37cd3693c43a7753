//! A searchable collection: the canonical ordered list of items together with
//! a derived filtered view.  The view is recomputed in full on every query
//! change: an empty query shows the canonical list untouched; a non-empty
//! query keeps exactly the items the caller-supplied filter accepts and, when
//! rank sorting is on, stably sorts them by descending fuzzy score.

use vstd::prelude::*;
use vstd::seq_lib::*;

use crate::ranker::{ranking_score, score_or_zero};

verus! {

/// An item that the collection can search: it exposes one piece of text that
/// the fuzzy ranker scores, and it can be copied exactly.  The copy must be
/// exact because the filtered view holds full clones of canonical items, and
/// the view's contract promises the canonical items themselves.
pub trait SearchableItem: Sized {
    /// The text that the ranker and the filters see for this item.
    spec fn text_spec(&self) -> Seq<char>;

    fn search_text(&self) -> (r: &str)
        ensures
            r@ == self.text_spec(),
    ;

    fn duplicate(&self) -> (r: Self)
        ensures
            r == *self,
    ;
}

/// The caller-supplied inclusion test: for a non-empty query it decides which
/// items may appear in the filtered view at all; the ranker only orders them.
pub trait SearchFilter<T> {
    /// Whether the filtered view may contain `item` under `query`.
    spec fn accepts(&self, item: T, query: Seq<char>) -> bool;

    fn accept(&self, item: &T, query: &str) -> (r: bool)
        ensures
            r == self.accepts(*item, query@),
    ;
}

/// The filter's test for one given query, as a function on items.
pub open spec fn accept_pred<T: SearchableItem, P: SearchFilter<T>>(
    p: P,
    query: Seq<char>,
) -> spec_fn(T) -> bool {
    |t: T| p.accepts(t, query)
}

/// The canonical items the filter keeps for a query, in canonical order.
pub open spec fn accepted_items<T: SearchableItem, P: SearchFilter<T>>(
    items: Seq<T>,
    p: P,
    query: Seq<char>,
) -> Seq<T> {
    items.filter(accept_pred(p, query))
}

/// Pairing an item with its ranking score for one given query.
pub open spec fn score_pair_fn<T: SearchableItem>(query: Seq<char>) -> spec_fn(T) -> (T, i64) {
    |t: T| (t, score_or_zero(t.text_spec(), query))
}

/// Each kept item paired with its ranking score.
pub open spec fn scored_pairs<T: SearchableItem, P: SearchFilter<T>>(
    items: Seq<T>,
    p: P,
    query: Seq<char>,
) -> Seq<(T, i64)> {
    accepted_items(items, p, query).map_values(score_pair_fn(query))
}

/// Projection on the item of a scored pair.
pub open spec fn fst_fn<A>() -> spec_fn((A, i64)) -> A {
    |pr: (A, i64)| pr.0
}

/// The items of a scored sequence, scores discarded.
pub open spec fn strip_scores<A>(s: Seq<(A, i64)>) -> Seq<A> {
    s.map_values(fst_fn())
}

/// Stable insertion into a sequence sorted by descending score: `x` goes in
/// front of the first element whose score is not larger than `x`'s.  Elements
/// of `s` stand for later canonical positions than `x`, so on a tie `x` stays
/// in front of them.
pub open spec fn insert_desc<A>(x: (A, i64), s: Seq<(A, i64)>) -> Seq<(A, i64)>
    decreases s.len(),
{
    if s.len() == 0 {
        seq![x]
    } else if x.1 >= s[0].1 {
        seq![x] + s
    } else {
        seq![s[0]] + insert_desc(x, s.drop_first())
    }
}

/// Stable sort by descending score: insertion sort, front to back.
pub open spec fn sort_desc<A>(s: Seq<(A, i64)>) -> Seq<(A, i64)>
    decreases s.len(),
{
    if s.len() == 0 {
        s
    } else {
        insert_desc(s.first(), sort_desc(s.drop_first()))
    }
}

/// Scores weakly decrease along the sequence.
pub open spec fn sorted_desc<A>(s: Seq<(A, i64)>) -> bool {
    forall|i: int, j: int| 0 <= i <= j < s.len() ==> #[trigger] s[i].1 >= #[trigger] s[j].1
}

/// The test for one given score value.
pub open spec fn score_pred<A>(v: i64) -> spec_fn((A, i64)) -> bool {
    |pr: (A, i64)| pr.1 == v
}

/// The subsequence of elements carrying one given score, in their current
/// order.  A sort is stable exactly when it leaves every such subsequence
/// unchanged.
pub open spec fn with_score<A>(s: Seq<(A, i64)>, v: i64) -> Seq<(A, i64)> {
    s.filter(score_pred(v))
}

/// The filtered view that `search` derives for a query: the canonical list
/// itself for the empty query; otherwise the kept items, stably rank-sorted
/// when asked to.
pub open spec fn search_spec<T: SearchableItem, P: SearchFilter<T>>(
    items: Seq<T>,
    p: P,
    query: Seq<char>,
    rank_sorted: bool,
) -> Seq<T> {
    if query.len() == 0 {
        items
    } else {
        let pairs = scored_pairs(items, p, query);
        strip_scores(if rank_sorted { sort_desc(pairs) } else { pairs })
    }
}

proof fn lemma_insert_desc_len<A>(x: (A, i64), s: Seq<(A, i64)>)
    ensures
        insert_desc(x, s).len() == s.len() + 1,
    decreases s.len(),
{
    if s.len() == 0 {
    } else if x.1 >= s[0].1 {
    } else {
        lemma_insert_desc_len(x, s.drop_first());
    }
}

/// Sorting does not add or drop elements.
pub proof fn lemma_sort_desc_len<A>(s: Seq<(A, i64)>)
    ensures
        sort_desc(s).len() == s.len(),
    decreases s.len(),
{
    if s.len() == 0 {
    } else {
        lemma_sort_desc_len(s.drop_first());
        lemma_insert_desc_len(s.first(), sort_desc(s.drop_first()));
    }
}

/// A property that holds of `x` and of every element of `s` holds of every
/// element of the insertion of `x` into `s`.
proof fn lemma_insert_desc_all<A>(x: (A, i64), s: Seq<(A, i64)>, q: spec_fn((A, i64)) -> bool)
    requires
        q(x),
        forall|i: int| 0 <= i < s.len() ==> q(#[trigger] s[i]),
    ensures
        forall|i: int| 0 <= i < insert_desc(x, s).len() ==> q(#[trigger] insert_desc(x, s)[i]),
    decreases s.len(),
{
    if s.len() == 0 {
    } else if x.1 >= s[0].1 {
    } else {
        assert(forall|i: int| 0 <= i < s.drop_first().len() ==> q(#[trigger] s.drop_first()[i]));
        lemma_insert_desc_all(x, s.drop_first(), q);
        assert forall|i: int| 0 <= i < insert_desc(x, s).len() implies q(
            #[trigger] insert_desc(x, s)[i],
        ) by {
            if i == 0 {
                assert(insert_desc(x, s)[0] == s[0]);
            } else {
                assert(insert_desc(x, s)[i] == insert_desc(x, s.drop_first())[i - 1]);
            }
        }
    }
}

/// Every element of a sort's result satisfies whatever holds of every element
/// of its argument.
pub proof fn lemma_sort_desc_all<A>(s: Seq<(A, i64)>, q: spec_fn((A, i64)) -> bool)
    requires
        forall|i: int| 0 <= i < s.len() ==> q(#[trigger] s[i]),
    ensures
        forall|i: int| 0 <= i < sort_desc(s).len() ==> q(#[trigger] sort_desc(s)[i]),
    decreases s.len(),
{
    if s.len() == 0 {
    } else {
        assert(forall|i: int| 0 <= i < s.drop_first().len() ==> q(#[trigger] s.drop_first()[i]));
        lemma_sort_desc_all(s.drop_first(), q);
        lemma_insert_desc_all(s.first(), sort_desc(s.drop_first()), q);
    }
}

proof fn lemma_insert_desc_sorted<A>(x: (A, i64), s: Seq<(A, i64)>)
    requires
        sorted_desc(s),
    ensures
        sorted_desc(insert_desc(x, s)),
    decreases s.len(),
{
    if s.len() == 0 {
    } else if x.1 >= s[0].1 {
        assert forall|i: int, j: int|
            0 <= i <= j < insert_desc(x, s).len() implies #[trigger] insert_desc(x, s)[i].1
            >= #[trigger] insert_desc(x, s)[j].1 by {
            if i > 0 {
                assert(insert_desc(x, s)[i] == s[i - 1]);
            }
            if j > 0 {
                assert(insert_desc(x, s)[j] == s[j - 1]);
            }
        }
    } else {
        assert(sorted_desc(s.drop_first()));
        lemma_insert_desc_sorted(x, s.drop_first());
        let rest = insert_desc(x, s.drop_first());
        lemma_insert_desc_all(x, s.drop_first(), |pr: (A, i64)| s[0].1 >= pr.1);
        assert forall|i: int, j: int|
            0 <= i <= j < insert_desc(x, s).len() implies #[trigger] insert_desc(x, s)[i].1
            >= #[trigger] insert_desc(x, s)[j].1 by {
            if i == 0 && j > 0 {
                assert(insert_desc(x, s)[j] == rest[j - 1]);
            }
            if i > 0 {
                assert(insert_desc(x, s)[i] == rest[i - 1]);
                assert(insert_desc(x, s)[j] == rest[j - 1]);
            }
        }
    }
}

/// The rank sort orders its result by weakly descending score.
pub proof fn lemma_sort_desc_sorted<A>(s: Seq<(A, i64)>)
    ensures
        sorted_desc(sort_desc(s)),
    decreases s.len(),
{
    if s.len() == 0 {
    } else {
        lemma_sort_desc_sorted(s.drop_first());
        lemma_insert_desc_sorted(s.first(), sort_desc(s.drop_first()));
    }
}

proof fn lemma_filter_singleton<A>(x: A, pred: spec_fn(A) -> bool)
    ensures
        seq![x].filter(pred) == if pred(x) {
            seq![x]
        } else {
            Seq::<A>::empty()
        },
{
    reveal_with_fuel(Seq::filter, 2);
    assert(seq![x].drop_last() =~= Seq::<A>::empty());
}

proof fn lemma_insert_desc_with_score<A>(x: (A, i64), s: Seq<(A, i64)>, v: i64)
    ensures
        with_score(insert_desc(x, s), v) == if x.1 == v {
            seq![x] + with_score(s, v)
        } else {
            with_score(s, v)
        },
    decreases s.len(),
{
    broadcast use Seq::filter_distributes_over_add;

    let pred = score_pred::<A>(v);
    lemma_filter_singleton(x, pred);
    if s.len() > 0 {
        lemma_filter_singleton(s[0], pred);
    }
    if s.len() == 0 {
        assert(with_score(s, v) =~= Seq::<(A, i64)>::empty());
        if x.1 == v {
            assert(with_score(insert_desc(x, s), v) =~= seq![x] + with_score(s, v));
        }
    } else if x.1 >= s[0].1 {
        assert(insert_desc(x, s) == seq![x] + s);
        assert((seq![x] + s).filter(pred) == seq![x].filter(pred) + s.filter(pred));
        if x.1 == v {
        } else {
            assert(with_score(insert_desc(x, s), v) =~= with_score(s, v));
        }
    } else {
        lemma_insert_desc_with_score(x, s.drop_first(), v);
        assert(insert_desc(x, s) == seq![s[0]] + insert_desc(x, s.drop_first()));
        assert((seq![s[0]] + insert_desc(x, s.drop_first())).filter(pred) == seq![s[0]].filter(pred)
            + insert_desc(x, s.drop_first()).filter(pred));
        assert(s =~= seq![s[0]] + s.drop_first());
        assert(s.filter(pred) == seq![s[0]].filter(pred) + s.drop_first().filter(pred));
        // s[0].1 > x.1, so when x.1 == v the head s[0] is filtered out of both sides
        if x.1 == v {
            assert(seq![s[0]].filter(pred) =~= Seq::<(A, i64)>::empty());
            assert(with_score(insert_desc(x, s), v) =~= seq![x] + with_score(s, v));
        } else {
            assert(with_score(insert_desc(x, s), v) =~= with_score(s, v));
        }
    }
}

/// Inserting in front of the first position whose score is not larger is the
/// same as the specification's recursive insertion.
proof fn lemma_insert_desc_at<A>(x: (A, i64), s: Seq<(A, i64)>, j: int)
    requires
        0 <= j <= s.len(),
        forall|k: int| 0 <= k < j ==> x.1 < #[trigger] s[k].1,
        j < s.len() ==> x.1 >= s[j].1,
    ensures
        insert_desc(x, s) == s.insert(j, x),
    decreases j,
{
    if j == 0 {
        if s.len() == 0 {
            assert(insert_desc(x, s) =~= s.insert(0, x));
        } else {
            assert(insert_desc(x, s) == seq![x] + s);
            assert(seq![x] + s =~= s.insert(0, x));
        }
    } else {
        assert(x.1 < s[0].1);
        lemma_insert_desc_at(x, s.drop_first(), j - 1);
        assert(insert_desc(x, s) == seq![s[0]] + insert_desc(x, s.drop_first()));
        assert(seq![s[0]] + s.drop_first().insert(j - 1, x) =~= s.insert(j, x));
    }
}

/// Stable insertion sort by descending score, back to front: when the loop
/// has consumed the suffix starting at the current length of `v`, the result
/// so far is that suffix sorted.
fn sort_pairs_desc<A>(v: Vec<(A, i64)>) -> (r: Vec<(A, i64)>)
    ensures
        r@ == sort_desc(v@),
{
    let ghost orig: Seq<(A, i64)> = v@;
    let mut v = v;
    let mut r: Vec<(A, i64)> = Vec::new();
    while v.len() > 0
        invariant
            v@.len() <= orig.len(),
            v@ == orig.take(v@.len() as int),
            r@ == sort_desc(orig.skip(v@.len() as int)),
        decreases v.len(),
    {
        let ghost len0 = v@.len() as int;
        let x = v.pop().unwrap();
        let ghost xs = x;
        assert(xs == orig[len0 - 1]);
        assert(v@ =~= orig.take(len0 - 1));
        let mut j: usize = 0;
        while j < r.len() && x.1 < r[j].1
            invariant
                j <= r@.len(),
                forall|k: int| 0 <= k < j ==> x.1 < #[trigger] r@[k].1,
            decreases r@.len() - j,
        {
            j += 1;
        }
        let ghost r0 = r@;
        r.insert(j, x);
        proof {
            lemma_insert_desc_at(xs, r0, j as int);
            let tail = orig.skip(len0 - 1);
            assert(tail.first() == xs);
            assert(tail.drop_first() =~= orig.skip(len0));
            assert(sort_desc(tail) == insert_desc(xs, sort_desc(orig.skip(len0))));
            assert(r@ == sort_desc(orig.skip(len0 - 1)));
        }
    }
    proof {
        assert(orig.skip(0) =~= orig);
    }
    r
}

/// Stability of the rank sort: for every score value, the elements that carry
/// it come out in exactly the order they went in.  Since the sort's input
/// lists kept items in canonical order, items of equal score retain their
/// relative canonical order in the view.
pub proof fn lemma_sort_desc_stable<A>(s: Seq<(A, i64)>, v: i64)
    ensures
        with_score(sort_desc(s), v) == with_score(s, v),
    decreases s.len(),
{
    broadcast use Seq::filter_distributes_over_add;

    let pred = score_pred::<A>(v);
    if s.len() == 0 {
    } else {
        lemma_sort_desc_stable(s.drop_first(), v);
        lemma_insert_desc_with_score(s.first(), sort_desc(s.drop_first()), v);
        lemma_filter_singleton(s[0], pred);
        assert(s =~= seq![s[0]] + s.drop_first());
        assert(s.filter(pred) == seq![s[0]].filter(pred) + s.drop_first().filter(pred));
        if s[0].1 == v {
            assert(seq![s[0]].filter(pred) =~= seq![s[0]]);
            assert(with_score(s, v) =~= seq![s[0]] + with_score(s.drop_first(), v));
        } else {
            assert(with_score(s, v) =~= with_score(s.drop_first(), v));
        }
    }
}

/// Whether `pat` occurs in `text` starting at position `k`.
pub open spec fn is_match_at(text: Seq<char>, pat: Seq<char>, k: int) -> bool {
    0 <= k && k + pat.len() <= text.len() && text.subrange(k, k + pat.len()) == pat
}

/// Whether `pat` occurs contiguously anywhere in `text`.
pub open spec fn contains_text(text: Seq<char>, pat: Seq<char>) -> bool {
    exists|k: int| is_match_at(text, pat, k)
}

/// Substring test over characters: true exactly when the pattern occurs
/// contiguously in the text.
pub fn text_contains(text: &str, pat: &str) -> (r: bool)
    ensures
        r == contains_text(text@, pat@),
{
    let n = text.unicode_len();
    let m = pat.unicode_len();
    if m > n {
        return false;
    }
    let mut k: usize = 0;
    while k <= n - m
        invariant
            m <= n,
            n == text@.len(),
            m == pat@.len(),
            k <= n - m + 1,
            forall|k2: int| 0 <= k2 < k ==> !is_match_at(text@, pat@, k2),
        decreases n - m + 1 - k,
    {
        let mut t: usize = 0;
        let mut hit = true;
        while hit && t < m
            invariant
                t <= m,
                m == pat@.len(),
                n == text@.len(),
                m <= n,
                k <= n - m,
                hit ==> forall|u: int| 0 <= u < t ==> text@[k as int + u] == pat@[u],
                !hit ==> exists|u: int| 0 <= u < m && text@[k as int + u] != pat@[u],
            decreases (if hit { 1int } else { 0int }), m - t,
        {
            if text.get_char(k + t) != pat.get_char(t) {
                hit = false;
            } else {
                t += 1;
            }
        }
        if hit {
            proof {
                assert(text@.subrange(k as int, k as int + m as int) =~= pat@);
                assert(is_match_at(text@, pat@, k as int));
            }
            return true;
        }
        proof {
            if is_match_at(text@, pat@, k as int) {
                let u = choose|u: int| 0 <= u < m && text@[k as int + u] != pat@[u];
                assert(text@.subrange(k as int, k as int + m as int)[u] == text@[k as int + u]);
            }
        }
        k += 1;
    }
    proof {
        assert forall|k2: int| !is_match_at(text@, pat@, k2) by {
            if 0 <= k2 < k {
                assert(!is_match_at(text@, pat@, k2));
            }
        }
    }
    false
}

/// A filter that accepts every item: the view is then shaped by ranking
/// alone.
pub struct AcceptAll;

impl<T: SearchableItem> SearchFilter<T> for AcceptAll {
    open spec fn accepts(&self, item: T, query: Seq<char>) -> bool {
        true
    }

    fn accept(&self, item: &T, query: &str) -> (r: bool) {
        true
    }
}

/// A filter that keeps an item exactly when the query occurs contiguously in
/// its search text.
pub struct TextContains;

impl<T: SearchableItem> SearchFilter<T> for TextContains {
    open spec fn accepts(&self, item: T, query: Seq<char>) -> bool {
        contains_text(item.text_spec(), query)
    }

    fn accept(&self, item: &T, query: &str) -> (r: bool) {
        text_contains(item.search_text(), query)
    }
}

/// An empty query yields a view identical in content and order to the
/// canonical collection, whatever the filter and the rank-sorting toggle.
pub proof fn lemma_search_empty_query<T: SearchableItem, P: SearchFilter<T>>(
    items: Seq<T>,
    p: P,
    query: Seq<char>,
    rank_sorted: bool,
)
    requires
        query.len() == 0,
    ensures
        search_spec(items, p, query, rank_sorted) == items,
{
}

/// For a non-empty query, every item of the view is one the filter accepts.
pub proof fn lemma_search_view_accepted<T: SearchableItem, P: SearchFilter<T>>(
    items: Seq<T>,
    p: P,
    query: Seq<char>,
    rank_sorted: bool,
)
    requires
        query.len() > 0,
    ensures
        forall|i: int|
            0 <= i < search_spec(items, p, query, rank_sorted).len() ==> p.accepts(
                #[trigger] search_spec(items, p, query, rank_sorted)[i],
                query,
            ),
{
    broadcast use Seq::lemma_filter_pred;

    let acc = accepted_items(items, p, query);
    let pairs = scored_pairs(items, p, query);
    let good = |pr: (T, i64)| p.accepts(pr.0, query);
    assert(forall|i: int| 0 <= i < pairs.len() ==> good(#[trigger] pairs[i])) by {
        assert(forall|i: int|
            0 <= i < pairs.len() ==> #[trigger] pairs[i] == score_pair_fn::<T>(query)(acc[i]));
    }
    if rank_sorted {
        lemma_sort_desc_all(pairs, good);
    }
}

/// The view's length after a search: the number of canonical items the
/// filter accepts for a non-empty query, and the canonical length for the
/// empty query.
pub proof fn lemma_search_len<T: SearchableItem, P: SearchFilter<T>>(
    items: Seq<T>,
    p: P,
    query: Seq<char>,
    rank_sorted: bool,
)
    ensures
        query.len() > 0 ==> search_spec(items, p, query, rank_sorted).len() == accepted_items(
            items,
            p,
            query,
        ).len(),
        query.len() == 0 ==> search_spec(items, p, query, rank_sorted).len() == items.len(),
{
    if query.len() > 0 && rank_sorted {
        lemma_sort_desc_len(scored_pairs(items, p, query));
    }
}

/// With rank sorting on, a non-empty query yields a view whose items carry
/// weakly decreasing ranking scores.
pub proof fn lemma_search_rank_sorted<T: SearchableItem, P: SearchFilter<T>>(
    items: Seq<T>,
    p: P,
    query: Seq<char>,
)
    requires
        query.len() > 0,
    ensures
        forall|i: int, j: int|
            #![trigger search_spec(items, p, query, true)[i], search_spec(items, p, query, true)[j]]
            0 <= i <= j < search_spec(items, p, query, true).len() ==> score_or_zero(
                search_spec(items, p, query, true)[i].text_spec(),
                query,
            ) >= score_or_zero(search_spec(items, p, query, true)[j].text_spec(), query),
{
    let acc = accepted_items(items, p, query);
    let pairs = scored_pairs(items, p, query);
    let scored_right = |pr: (T, i64)| pr.1 == score_or_zero(pr.0.text_spec(), query);
    assert(forall|i: int| 0 <= i < pairs.len() ==> scored_right(#[trigger] pairs[i])) by {
        assert(forall|i: int|
            0 <= i < pairs.len() ==> #[trigger] pairs[i] == score_pair_fn::<T>(query)(acc[i]));
    }
    lemma_sort_desc_all(pairs, scored_right);
    lemma_sort_desc_sorted(pairs);
    let sorted = sort_desc(pairs);
    let view = search_spec(items, p, query, true);
    assert forall|i: int, j: int| 0 <= i <= j < view.len() implies score_or_zero(
        #[trigger] view[i].text_spec(),
        query,
    ) >= score_or_zero(#[trigger] view[j].text_spec(), query) by {
        assert(view[i] == sorted[i].0 && view[j] == sorted[j].0);
        assert(scored_right(sorted[i]) && scored_right(sorted[j]));
        assert(sorted[i].1 >= sorted[j].1);
    }
}

/// A full copy of a vector of items, made with each item's exact `duplicate`.
pub fn clone_items<T: SearchableItem>(v: &Vec<T>) -> (r: Vec<T>)
    ensures
        r@ == v@,
{
    let mut r: Vec<T> = Vec::new();
    let n = v.len();
    let mut i: usize = 0;
    while i < n
        invariant
            i <= n,
            n == v@.len(),
            r@ == v@.take(i as int),
        decreases n - i,
    {
        r.push(v[i].duplicate());
        proof {
            assert(v@.take(i as int).push(v@[i as int]) =~= v@.take(i as int + 1));
        }
        i += 1;
    }
    proof {
        assert(v@.take(n as int) =~= v@);
    }
    r
}

/// The searchable collection: the canonical ordered items, the caller's
/// filter, the rank-sorting toggle, and the filtered view that the last
/// `search` derived.
pub struct Searchable<T, P> where T: SearchableItem, P: SearchFilter<T> {
    rank_sorted: bool,
    vec: Vec<T>,
    filter: P,
    filtered: Vec<T>,
}

impl<T: SearchableItem, P: SearchFilter<T>> Searchable<T, P> {
    /// The canonical collection; its order is the persisted order.
    pub closed spec fn canonical(&self) -> Seq<T> {
        self.vec@
    }

    /// The current filtered view.
    pub closed spec fn filtered_seq(&self) -> Seq<T> {
        self.filtered@
    }

    /// Whether non-empty queries rank-sort the view.
    pub closed spec fn is_rank_sorted(&self) -> bool {
        self.rank_sorted
    }

    /// The caller-supplied filter.
    pub closed spec fn predicate(&self) -> P {
        self.filter
    }

    /// Store the items and the filter and derive the initial view by running
    /// `search` on the initial query.
    pub fn new(rank_sorted: bool, vec: Vec<T>, search_value: &str, predicate: P) -> (r: Self)
        ensures
            r.canonical() == vec@,
            r.is_rank_sorted() == rank_sorted,
            r.predicate() == predicate,
            r.filtered_seq() == search_spec(vec@, predicate, search_value@, rank_sorted),
    {
        let mut searchable = Searchable { rank_sorted, vec, filter: predicate, filtered: Vec::new() };
        searchable.search(search_value);
        searchable
    }

    /// Recompute the filtered view for `value`, in full: the canonical items
    /// for the empty query, otherwise the kept items, rank-sorted when asked.
    pub fn search(&mut self, value: &str)
        ensures
            final(self).canonical() == old(self).canonical(),
            final(self).is_rank_sorted() == old(self).is_rank_sorted(),
            final(self).predicate() == old(self).predicate(),
            final(self).filtered_seq() == search_spec(
                old(self).canonical(),
                old(self).predicate(),
                value@,
                old(self).is_rank_sorted(),
            ),
    {
        if value.is_empty() {
            let f = clone_items(&self.vec);
            self.filtered = f;
            return;
        }
        let mut pairs: Vec<(T, i64)> = Vec::new();
        let n = self.vec.len();
        let mut i: usize = 0;
        while i < n
            invariant
                i <= n,
                n == self.vec@.len(),
                self.vec == old(self).vec,
                self.filter == old(self).filter,
                self.rank_sorted == old(self).rank_sorted,
                value@.len() > 0,
                pairs@ == scored_pairs(self.vec@.take(i as int), self.filter, value@),
            decreases n - i,
        {
            let item = &self.vec[i];
            let keep = self.filter.accept(item, value);
            if keep {
                let sc = ranking_score(item.search_text(), value);
                pairs.push((item.duplicate(), sc));
            }
            proof {
                let p = self.filter;
                let q = value@;
                let prev = self.vec@.take(i as int);
                let x = self.vec@[i as int];
                assert(self.vec@.take(i as int + 1) =~= prev.push(x));
                prev.lemma_filter_push(x, accept_pred(p, q));
                if accept_pred(p, q)(x) {
                    accepted_items(prev, p, q).lemma_push_map_commute(score_pair_fn(q), x);
                }
            }
            i += 1;
        }
        proof {
            assert(self.vec@.take(n as int) =~= self.vec@);
        }
        let ordered = if self.rank_sorted {
            sort_pairs_desc(pairs)
        } else {
            pairs
        };
        let mut f: Vec<T> = Vec::new();
        let m = ordered.len();
        let mut j: usize = 0;
        while j < m
            invariant
                j <= m,
                m == ordered@.len(),
                f@ == strip_scores(ordered@.take(j as int)),
            decreases m - j,
        {
            let pr = &ordered[j];
            f.push(pr.0.duplicate());
            proof {
                assert(ordered@.take(j as int + 1) =~= ordered@.take(j as int).push(
                    ordered@[j as int],
                ));
                ordered@.take(j as int).lemma_push_map_commute(fst_fn(), ordered@[j as int]);
            }
            j += 1;
        }
        proof {
            assert(ordered@.take(m as int) =~= ordered@);
        }
        self.filtered = f;
    }

    /// The number of items in the filtered view.
    pub fn len(&self) -> (r: usize)
        ensures
            r == self.filtered_seq().len(),
    {
        self.filtered.len()
    }

    /// Whether the filtered view is empty.
    pub fn is_empty(&self) -> (r: bool)
        ensures
            r == (self.filtered_seq().len() == 0),
    {
        self.filtered.is_empty()
    }

    /// The canonical items, for iteration, unaffected by filtering.
    pub fn non_filtered_iter(&self) -> (r: &Vec<T>)
        ensures
            r@ == self.canonical(),
    {
        &self.vec
    }

    /// The filtered view, for iteration, in its current order.
    pub fn iter(&self) -> (r: &Vec<T>)
        ensures
            r@ == self.filtered_seq(),
    {
        &self.filtered
    }

    /// A full clone of the canonical collection, fit to hand to the deletion
    /// workflow as its snapshot.
    pub fn items(&self) -> (r: Vec<T>)
        ensures
            r@ == self.canonical(),
    {
        clone_items(&self.vec)
    }

    /// The `i`-th element of the filtered view; the caller keeps `i` in
    /// bounds.
    pub fn index(&self, i: usize) -> (r: &T)
        requires
            i < self.filtered_seq().len(),
        ensures
            *r == self.filtered_seq()[i as int],
    {
        &self.filtered[i]
    }
}

} // verus!
