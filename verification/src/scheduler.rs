//! Largest-processing-time-first assignment of pages to GPU workers.
use vstd::multiset::Multiset;
use vstd::prelude::*;

verus! {

/// What the scheduler reads of a page: its position in the book and the size
/// of its cropped image, whose pixel count approximates its GPU cost.
#[derive(Debug, Clone, Copy, PartialEq, Eq, Structural)]
pub struct PageLoad {
    pub index: usize,
    pub crop_width: u32,
    pub crop_height: u32,
}

pub open spec fn pixels(p: PageLoad) -> nat {
    p.crop_width as nat * p.crop_height as nat
}

impl PageLoad {
    pub fn crop_pixels(&self) -> (n: u64)
        ensures
            n == pixels(*self),
    {
        assert(self.crop_width as nat * self.crop_height as nat <= 0xffff_ffff * 0xffff_ffff)
            by (nonlinear_arith);
        (self.crop_width as u64) * (self.crop_height as u64)
    }
}

/// First position in `sorted` whose page is smaller than `size`.
pub open spec fn first_smaller(pages: Seq<PageLoad>, sorted: Seq<usize>, size: nat) -> int
    decreases sorted.len(),
{
    if sorted.len() == 0 {
        0
    } else if pixels(pages[sorted[0] as int]) < size {
        0
    } else {
        1 + first_smaller(pages, sorted.drop_first(), size)
    }
}

/// Positions `0..n` ordered by decreasing size, equal sizes in book order
/// (a stable sort by decreasing pixel count).
pub open spec fn size_order(pages: Seq<PageLoad>, n: nat) -> Seq<usize>
    decreases n,
{
    if n == 0 {
        Seq::empty()
    } else {
        let s = size_order(pages, (n - 1) as nat);
        let i = (n - 1) as usize;
        s.insert(first_smaller(pages, s, pixels(pages[i as int])), i)
    }
}

proof fn lemma_first_smaller(pages: Seq<PageLoad>, sorted: Seq<usize>, size: nat)
    ensures
        0 <= first_smaller(pages, sorted, size) <= sorted.len(),
        forall|j: int|
            0 <= j < first_smaller(pages, sorted, size) ==> pixels(pages[#[trigger] sorted[j] as int])
                >= size,
        first_smaller(pages, sorted, size) < sorted.len() ==> pixels(
            pages[sorted[first_smaller(pages, sorted, size)] as int],
        ) < size,
    decreases sorted.len(),
{
    if sorted.len() > 0 && pixels(pages[sorted[0] as int]) >= size {
        let rest = sorted.drop_first();
        lemma_first_smaller(pages, rest, size);
        assert forall|j: int| 0 <= j < first_smaller(pages, sorted, size) implies pixels(
            pages[#[trigger] sorted[j] as int],
        ) >= size by {
            if j > 0 {
                assert(sorted[j] == rest[j - 1]);
            }
        }
        if first_smaller(pages, sorted, size) < sorted.len() {
            assert(sorted[first_smaller(pages, sorted, size)] == rest[first_smaller(pages, rest, size)]);
        }
    }
}

/// `a` comes before `b` in a largest-first order whose ties keep book
/// order: `a` is the larger page, or as large and earlier.
pub open spec fn goes_before(pages: Seq<PageLoad>, a: usize, b: usize) -> bool {
    pixels(pages[a as int]) > pixels(pages[b as int]) || (pixels(pages[a as int]) == pixels(
        pages[b as int],
    ) && a < b)
}

/// The order in which pages are handed out holds each of the first `n`
/// positions exactly once, from the largest page to the smallest, pages of
/// equal size in their order in the book.
pub proof fn lemma_size_order_largest_first(pages: Seq<PageLoad>, n: nat)
    requires
        n <= pages.len(),
        n <= usize::MAX,
    ensures
        size_order(pages, n).len() == n,
        forall|j: int| 0 <= j < n ==> #[trigger] size_order(pages, n)[j] < n,
        forall|i: usize| i < n ==> #[trigger] size_order(pages, n).contains(i),
        forall|a: int, b: int|
            0 <= a < b < n ==> goes_before(pages, #[trigger] size_order(pages, n)[a], #[trigger] size_order(pages, n)[b]),
    decreases n,
{
    if n > 0 {
        let m = (n - 1) as nat;
        let s = size_order(pages, m);
        lemma_size_order_largest_first(pages, m);
        let i = m as usize;
        let size = pixels(pages[i as int]);
        let k = first_smaller(pages, s, size);
        lemma_first_smaller(pages, s, size);
        let t = s.insert(k, i);
        assert(t == size_order(pages, n));
        assert forall|j: int| k <= j < m implies pixels(pages[#[trigger] s[j] as int]) < size by {
            if j > k {
                assert(goes_before(pages, s[k], s[j]));
            }
        }
        assert forall|j: int| 0 <= j < n implies #[trigger] t[j] < n by {
            if j < k {
                assert(t[j] == s[j]);
            } else if j > k {
                assert(t[j] == s[j - 1]);
            }
        }
        assert forall|x: usize| x < n implies #[trigger] t.contains(x) by {
            if x == i {
                assert(t[k] == x);
            } else {
                assert(s.contains(x));
                let j0 = choose|j: int| 0 <= j < m && #[trigger] s[j] == x;
                if j0 < k {
                    assert(t[j0] == x);
                } else {
                    assert(t[j0 + 1] == x);
                }
            }
        }
        assert forall|a: int, b: int| 0 <= a < b < n implies goes_before(
            pages,
            #[trigger] t[a],
            #[trigger] t[b],
        ) by {
            if a == k {
                assert(t[b] == s[b - 1]);
            } else if b == k {
                assert(t[a] == s[a]);
                assert(s[a] < i);
            } else {
                let a0 = if a < k {
                    a
                } else {
                    a - 1
                };
                let b0 = if b < k {
                    b
                } else {
                    b - 1
                };
                assert(t[a] == s[a0]);
                assert(t[b] == s[b0]);
                assert(goes_before(pages, s[a0], s[b0]));
            }
        }
    }
}

/// The first worker with the smallest load among the first `k`.
pub open spec fn least_loaded(loads: Seq<nat>, k: nat) -> int
    decreases k,
{
    if k <= 1 {
        0
    } else {
        let j = least_loaded(loads, (k - 1) as nat);
        if loads[k - 1] < loads[j] {
            k - 1
        } else {
            j
        }
    }
}

/// Loads and assignments after placing the first `k` pages of `order`, each
/// on the least-loaded worker.
pub open spec fn greedy(pages: Seq<PageLoad>, order: Seq<usize>, workers: nat, k: nat) -> (
    Seq<nat>,
    Seq<Seq<usize>>,
)
    decreases k,
{
    if k == 0 {
        (Seq::new(workers, |w: int| 0nat), Seq::new(workers, |w: int| Seq::<usize>::empty()))
    } else {
        let (loads, lists) = greedy(pages, order, workers, (k - 1) as nat);
        let p = order[k - 1];
        let w = least_loaded(loads, workers);
        (
            loads.update(w, loads[w] + pixels(pages[p as int])),
            lists.update(w, lists[w].push(p)),
        )
    }
}

proof fn lemma_least_loaded_is_least(loads: Seq<nat>, k: nat)
    requires
        1 <= k <= loads.len(),
    ensures
        0 <= least_loaded(loads, k) < k,
        forall|j: int| 0 <= j < k ==> loads[least_loaded(loads, k)] <= #[trigger] loads[j],
        forall|j: int| 0 <= j < least_loaded(loads, k) ==> loads[least_loaded(loads, k)] < #[trigger] loads[j],
    decreases k,
{
    if k > 1 {
        lemma_least_loaded_is_least(loads, (k - 1) as nat);
    }
}

proof fn lemma_greedy_sizes(pages: Seq<PageLoad>, order: Seq<usize>, workers: nat, k: nat)
    requires
        workers >= 1,
    ensures
        greedy(pages, order, workers, k).0.len() == workers,
        greedy(pages, order, workers, k).1.len() == workers,
    decreases k,
{
    if k > 0 {
        lemma_greedy_sizes(pages, order, workers, (k - 1) as nat);
        lemma_least_loaded_is_least(greedy(pages, order, workers, (k - 1) as nat).0, workers);
    }
}

/// Each page goes to a least-loaded worker at the moment it is placed, the
/// lowest-numbered one among equals: that worker's load grows by the page's
/// pixel count and the page joins its list, and no other worker changes.
pub proof fn lemma_each_page_goes_to_least_loaded(
    pages: Seq<PageLoad>,
    order: Seq<usize>,
    workers: nat,
    k: nat,
)
    requires
        workers >= 1,
        1 <= k <= order.len(),
    ensures
        ({
            let (loads, lists) = greedy(pages, order, workers, (k - 1) as nat);
            let (after_loads, after_lists) = greedy(pages, order, workers, k);
            let p = order[k - 1];
            exists|w: int|
                0 <= w < workers && (forall|j: int| 0 <= j < workers ==> loads[w] <= #[trigger] loads[j])
                    && (forall|j: int| 0 <= j < w ==> loads[w] < #[trigger] loads[j])
                    && after_loads == loads.update(w, loads[w] + pixels(pages[p as int]))
                    && after_lists == lists.update(w, lists[w].push(p))
        }),
{
    let loads = greedy(pages, order, workers, (k - 1) as nat).0;
    lemma_greedy_sizes(pages, order, workers, (k - 1) as nat);
    lemma_least_loaded_is_least(loads, workers);
    let w = least_loaded(loads, workers);
    assert(0 <= w < workers);
}

/// First position in `sorted` whose page comes later in the book than `at`.
pub open spec fn first_later(pages: Seq<PageLoad>, sorted: Seq<usize>, at: usize) -> int
    decreases sorted.len(),
{
    if sorted.len() == 0 {
        0
    } else if pages[sorted[0] as int].index > at {
        0
    } else {
        1 + first_later(pages, sorted.drop_first(), at)
    }
}

/// `list` in book order (a stable sort by `index`).
pub open spec fn book_order(pages: Seq<PageLoad>, list: Seq<usize>) -> Seq<usize>
    decreases list.len(),
{
    if list.len() == 0 {
        Seq::empty()
    } else {
        let s = book_order(pages, list.drop_last());
        let x = list.last();
        s.insert(first_later(pages, s, pages[x as int].index), x)
    }
}

proof fn lemma_first_later(pages: Seq<PageLoad>, sorted: Seq<usize>, at: usize)
    ensures
        0 <= first_later(pages, sorted, at) <= sorted.len(),
        forall|j: int|
            0 <= j < first_later(pages, sorted, at) ==> pages[#[trigger] sorted[j] as int].index <= at,
        first_later(pages, sorted, at) < sorted.len() ==> pages[sorted[first_later(
            pages,
            sorted,
            at,
        )] as int].index > at,
    decreases sorted.len(),
{
    if sorted.len() > 0 && pages[sorted[0] as int].index <= at {
        let rest = sorted.drop_first();
        lemma_first_later(pages, rest, at);
        assert forall|j: int| 0 <= j < first_later(pages, sorted, at) implies pages[#[trigger] sorted[j] as int].index
            <= at by {
            if j > 0 {
                assert(sorted[j] == rest[j - 1]);
            }
        }
        if first_later(pages, sorted, at) < sorted.len() {
            assert(sorted[first_later(pages, sorted, at)] == rest[first_later(pages, rest, at)]);
        }
    }
}

/// Each worker's list comes out in book order: the same positions, each as
/// many times as before, by increasing page index.
pub proof fn lemma_book_order_sorts_by_index(pages: Seq<PageLoad>, list: Seq<usize>)
    ensures
        book_order(pages, list).to_multiset() == list.to_multiset(),
        forall|a: int, b: int|
            0 <= a < b < list.len() ==> pages[#[trigger] book_order(pages, list)[a] as int].index
                <= pages[#[trigger] book_order(pages, list)[b] as int].index,
    decreases list.len(),
{
    broadcast use vstd::seq_lib::group_to_multiset_ensures;

    if list.len() > 0 {
        let rest = list.drop_last();
        let x = list.last();
        let s = book_order(pages, rest);
        lemma_book_order_sorts_by_index(pages, rest);
        let at = pages[x as int].index;
        let k = first_later(pages, s, at);
        lemma_first_later(pages, s, at);
        let t = s.insert(k, x);
        assert(t == book_order(pages, list));
        assert(rest.push(x) =~= list);
        assert(s.to_multiset().len() == rest.to_multiset().len());
        assert forall|j: int| k <= j < s.len() implies pages[#[trigger] s[j] as int].index > at by {
            if j > k {
                assert(pages[s[k] as int].index <= pages[s[j] as int].index);
            }
        }
        assert forall|a: int, b: int| 0 <= a < b < list.len() implies pages[#[trigger] t[a] as int].index
            <= pages[#[trigger] t[b] as int].index by {
            if a == k {
                assert(t[b] == s[b - 1]);
            } else if b == k {
                assert(t[a] == s[a]);
            } else {
                let a0 = if a < k {
                    a
                } else {
                    a - 1
                };
                let b0 = if b < k {
                    b
                } else {
                    b - 1
                };
                assert(t[a] == s[a0]);
                assert(t[b] == s[b0]);
                assert(pages[s[a0] as int].index <= pages[s[b0] as int].index);
            }
        }
    }
}

/// Number of workers used: at least one, at most one per page.
pub open spec fn worker_count(workers: nat, n: nat) -> nat {
    let w = if workers >= 1 {
        workers
    } else {
        1
    };
    let m = if n >= 1 {
        n
    } else {
        1
    };
    if w <= m {
        w
    } else {
        m
    }
}

/// The LPT schedule: pages in decreasing size each go to the least-loaded
/// worker (the lowest-numbered on ties); each worker's pages in book order.
pub open spec fn lpt_schedule(pages: Seq<PageLoad>, workers: nat) -> Seq<Seq<usize>> {
    let wc = worker_count(workers, pages.len());
    let lists = greedy(pages, size_order(pages, pages.len()), wc, pages.len()).1;
    Seq::new(wc, |w: int| book_order(pages, lists[w]))
}

/// All the positions held by the lists together, each as often as it occurs.
pub open spec fn union_of(lists: Seq<Seq<usize>>) -> Multiset<usize>
    decreases lists.len(),
{
    if lists.len() == 0 {
        Multiset::empty()
    } else {
        union_of(lists.drop_last()).add(lists.last().to_multiset())
    }
}

proof fn lemma_union_of_push(lists: Seq<Seq<usize>>, w: int, p: usize)
    requires
        0 <= w < lists.len(),
    ensures
        union_of(lists.update(w, lists[w].push(p))) == union_of(lists).insert(p),
    decreases lists.len(),
{
    broadcast use vstd::seq_lib::group_to_multiset_ensures;

    let u = lists.update(w, lists[w].push(p));
    if w == lists.len() - 1 {
        assert(u.drop_last() =~= lists.drop_last());
    } else {
        assert(u.drop_last() =~= lists.drop_last().update(w, lists[w].push(p)));
        lemma_union_of_push(lists.drop_last(), w, p);
    }
    assert(union_of(u) =~= union_of(lists).insert(p));
}

proof fn lemma_union_of_same_contents(a: Seq<Seq<usize>>, b: Seq<Seq<usize>>)
    requires
        a.len() == b.len(),
        forall|i: int| 0 <= i < a.len() ==> (#[trigger] a[i]).to_multiset() == b[i].to_multiset(),
    ensures
        union_of(a) == union_of(b),
    decreases a.len(),
{
    if a.len() > 0 {
        lemma_union_of_same_contents(a.drop_last(), b.drop_last());
        assert(a.last().to_multiset() == b.last().to_multiset());
    }
}

proof fn lemma_union_of_greedy(pages: Seq<PageLoad>, order: Seq<usize>, workers: nat, k: nat)
    requires
        workers >= 1,
        k <= order.len(),
    ensures
        union_of(greedy(pages, order, workers, k).1) == order.take(k as int).to_multiset(),
    decreases k,
{
    broadcast use vstd::seq_lib::group_to_multiset_ensures;

    if k == 0 {
        lemma_union_of_empty_lists(workers);
        assert(order.take(0) =~= Seq::<usize>::empty());
    } else {
        let m = (k - 1) as nat;
        lemma_union_of_greedy(pages, order, workers, m);
        let (loads, lists) = greedy(pages, order, workers, m);
        lemma_greedy_sizes(pages, order, workers, m);
        lemma_least_loaded_is_least(loads, workers);
        let w = least_loaded(loads, workers);
        lemma_union_of_push(lists, w, order[k - 1]);
        assert(order.take(k as int) =~= order.take(m as int).push(order[k - 1]));
    }
}

proof fn lemma_union_of_empty_lists(n: nat)
    ensures
        union_of(Seq::new(n, |w: int| Seq::<usize>::empty())) == Multiset::<usize>::empty(),
    decreases n,
{
    broadcast use vstd::seq_lib::group_to_multiset_ensures;

    if n > 0 {
        let m = (n - 1) as nat;
        lemma_union_of_empty_lists(m);
        assert(Seq::new(n, |w: int| Seq::<usize>::empty()).drop_last() =~= Seq::new(
            m,
            |w: int| Seq::<usize>::empty(),
        ));
        assert(Seq::<usize>::empty().to_multiset() =~= Multiset::<usize>::empty());
        assert(union_of(Seq::new(n, |w: int| Seq::<usize>::empty())) =~= Multiset::<usize>::empty());
    }
}

/// The schedule shares out every page: taken over all workers' lists
/// together, each position of `pages` occurs exactly once, and nothing else
/// occurs.
pub proof fn lemma_every_page_assigned_once(pages: Seq<PageLoad>, workers: nat)
    requires
        pages.len() <= usize::MAX,
    ensures
        forall|i: usize| i < pages.len() ==> #[trigger] union_of(lpt_schedule(pages, workers)).count(i) == 1,
        union_of(lpt_schedule(pages, workers)).len() == pages.len(),
{
    broadcast use vstd::seq_lib::group_to_multiset_ensures;

    let n = pages.len();
    let wc = worker_count(workers, n);
    let order = size_order(pages, n);
    lemma_size_order_largest_first(pages, n);
    lemma_union_of_greedy(pages, order, wc, n);
    assert(order.take(n as int) =~= order);
    let lists = greedy(pages, order, wc, n).1;
    lemma_greedy_sizes(pages, order, wc, n);
    let sched = lpt_schedule(pages, workers);
    assert forall|w: int| 0 <= w < sched.len() implies (#[trigger] sched[w]).to_multiset()
        == lists[w].to_multiset() by {
        lemma_book_order_sorts_by_index(pages, lists[w]);
    }
    lemma_union_of_same_contents(sched, lists);
    assert(order.no_duplicates()) by {
        assert forall|a: int, b: int| 0 <= a < n && 0 <= b < n && a != b implies order[a] != order[b] by {
            if a < b {
                assert(goes_before(pages, order[a], order[b]));
            } else {
                assert(goes_before(pages, order[b], order[a]));
            }
        }
    }
    order.lemma_multiset_has_no_duplicates();
    assert forall|i: usize| i < n implies #[trigger] union_of(sched).count(i) == 1 by {
        assert(order.contains(i));
    }
}

pub open spec fn total_pixels(pages: Seq<PageLoad>) -> nat
    decreases pages.len(),
{
    if pages.len() == 0 {
        0
    } else {
        total_pixels(pages.drop_last()) + pixels(pages.last())
    }
}

fn first_smaller_exec(pages: &[PageLoad], sorted: &Vec<usize>, size: u64) -> (k: usize)
    requires
        forall|j: int| 0 <= j < sorted.len() ==> (#[trigger] sorted@[j]) < pages.len(),
    ensures
        k == first_smaller(pages@, sorted@, size as nat),
        k <= sorted.len(),
{
    let mut k: usize = 0;
    assert(sorted@.skip(0) =~= sorted@);
    while k < sorted.len() && pages[sorted[k]].crop_pixels() >= size
        invariant
            k <= sorted.len(),
            forall|j: int| 0 <= j < sorted.len() ==> (#[trigger] sorted@[j]) < pages.len(),
            first_smaller(pages@, sorted@, size as nat) == k + first_smaller(
                pages@,
                sorted@.skip(k as int),
                size as nat,
            ),
        decreases sorted.len() - k,
    {
        assert(sorted@.skip(k as int).drop_first() =~= sorted@.skip(k + 1));
        k = k + 1;
    }
    k
}

fn first_later_exec(pages: &[PageLoad], sorted: &Vec<usize>, at: usize) -> (k: usize)
    requires
        forall|j: int| 0 <= j < sorted.len() ==> (#[trigger] sorted@[j]) < pages.len(),
    ensures
        k == first_later(pages@, sorted@, at),
        k <= sorted.len(),
{
    let mut k: usize = 0;
    assert(sorted@.skip(0) =~= sorted@);
    while k < sorted.len() && pages[sorted[k]].index <= at
        invariant
            k <= sorted.len(),
            forall|j: int| 0 <= j < sorted.len() ==> (#[trigger] sorted@[j]) < pages.len(),
            first_later(pages@, sorted@, at) == k + first_later(
                pages@,
                sorted@.skip(k as int),
                at,
            ),
        decreases sorted.len() - k,
    {
        assert(sorted@.skip(k as int).drop_first() =~= sorted@.skip(k + 1));
        k = k + 1;
    }
    k
}

pub open spec fn list_views(v: Seq<Vec<usize>>) -> Seq<Seq<usize>> {
    v.map_values(|x: Vec<usize>| x@)
}

pub open spec fn load_values(v: Seq<u128>) -> Seq<nat> {
    v.map_values(|x: u128| x as nat)
}

proof fn lemma_pixels_bound(p: PageLoad)
    ensures
        pixels(p) <= 0xffff_ffff_ffff_ffff,
{
    assert(p.crop_width as nat * p.crop_height as nat <= 0xffff_ffff * 0xffff_ffff)
        by (nonlinear_arith);
}

fn least_loaded_exec(loads: &Vec<u128>, wc: usize) -> (w: usize)
    requires
        1 <= wc <= loads.len(),
    ensures
        w == least_loaded(load_values(loads@), wc as nat),
        w < wc,
{
    let ghost lv = load_values(loads@);
    let mut best: usize = 0;
    let mut j: usize = 1;
    while j < wc
        invariant
            1 <= j <= wc <= loads.len(),
            lv == load_values(loads@),
            best == least_loaded(lv, j as nat),
            best < j,
        decreases wc - j,
    {
        if loads[j] < loads[best] {
            best = j;
        }
        j = j + 1;
    }
    best
}

/// Assigns pages to at most `workers` GPU workers, largest first, each to the
/// currently least-loaded worker; returns, per worker, positions in `pages`
/// in book order.
pub fn assign_lpt(pages: &[PageLoad], workers: usize) -> (r: Vec<Vec<usize>>)
    ensures
        list_views(r@) == lpt_schedule(pages@, workers as nat),
        forall|x: int, j: int|
            0 <= x < r@.len() && 0 <= j < r@[x]@.len() ==> (#[trigger] r@[x]@[j]) < pages.len(),
{
    let n = pages.len();
    // Stable sort by decreasing size.
    let mut order: Vec<usize> = Vec::new();
    let mut i: usize = 0;
    while i < n
        invariant
            i <= n == pages.len(),
            order@ == size_order(pages@, i as nat),
            order@.len() == i,
            forall|j: int| 0 <= j < order@.len() ==> (#[trigger] order@[j]) < i,
        decreases n - i,
    {
        let k = first_smaller_exec(pages, &order, pages[i].crop_pixels());
        let ghost before = order@;
        order.insert(k, i);
        assert forall|j: int| 0 <= j < order@.len() implies (#[trigger] order@[j]) < i + 1 by {
            if j < k {
                assert(order@[j] == before[j]);
            } else if j > k {
                assert(order@[j] == before[j - 1]);
            }
        }
        i = i + 1;
    }
    let wc: usize = {
        let w = if workers >= 1 {
            workers
        } else {
            1
        };
        let m = if n >= 1 {
            n
        } else {
            1
        };
        if w <= m {
            w
        } else {
            m
        }
    };
    let mut loads: Vec<u128> = Vec::new();
    let mut lists: Vec<Vec<usize>> = Vec::new();
    let mut w: usize = 0;
    while w < wc
        invariant
            w <= wc,
            loads@.len() == w,
            lists@.len() == w,
            forall|x: int| 0 <= x < w ==> (#[trigger] loads@[x]) == 0,
            forall|x: int| 0 <= x < w ==> (#[trigger] lists@[x])@.len() == 0,
        decreases wc - w,
    {
        loads.push(0);
        lists.push(Vec::new());
        w = w + 1;
    }
    assert(load_values(loads@) =~= greedy(pages@, order@, wc as nat, 0).0);
    assert forall|x: int| 0 <= x < wc implies #[trigger] list_views(lists@)[x] =~= Seq::<
        usize,
    >::empty() by {
        assert(lists@[x]@.len() == 0);
    }
    assert(list_views(lists@) =~= greedy(pages@, order@, wc as nat, 0).1);
    let mut t: usize = 0;
    while t < n
        invariant
            t <= n == pages.len() == order@.len(),
            1 <= wc,
            loads@.len() == wc,
            lists@.len() == wc,
            forall|j: int| 0 <= j < order@.len() ==> (#[trigger] order@[j]) < n,
            load_values(loads@) == greedy(pages@, order@, wc as nat, t as nat).0,
            list_views(lists@) == greedy(pages@, order@, wc as nat, t as nat).1,
            forall|x: int| 0 <= x < wc ==> (#[trigger] loads@[x]) as nat <= t as nat
                * 0xffff_ffff_ffff_ffff,
            forall|x: int, j: int|
                0 <= x < wc && 0 <= j < list_views(lists@)[x].len() ==> (#[trigger] list_views(
                    lists@,
                )[x][j]) < n,
        decreases n - t,
    {
        let p = order[t];
        let best = least_loaded_exec(&loads, wc);
        let px = pages[p].crop_pixels();
        proof {
            lemma_pixels_bound(pages@[p as int]);
            let l = loads@[best as int] as nat;
            assert(l + px <= (t + 1) as nat * 0xffff_ffff_ffff_ffff) by (nonlinear_arith)
                requires
                    l <= t as nat * 0xffff_ffff_ffff_ffff,
                    px <= 0xffff_ffff_ffff_ffff,
            ;
            assert((t + 1) as nat * 0xffff_ffff_ffff_ffff < 0x1_0000_0000_0000_0000_0000_0000_0000_0000)
                by (nonlinear_arith)
                requires
                    t < 0x1_0000_0000_0000_0000,
            ;
        }
        let nl = loads[best] + px as u128;
        let ghost old_loads = loads@;
        loads.set(best, nl);
        let ghost old_lists = list_views(lists@);
        let mut l = lists[best].clone();
        l.push(p);
        lists.set(best, l);
        proof {
            assert(load_values(loads@) =~= load_values(old_loads).update(
                best as int,
                load_values(old_loads)[best as int] + pixels(pages@[p as int]),
            ));
            assert(list_views(lists@) =~= old_lists.update(
                best as int,
                old_lists[best as int].push(p),
            ));
            assert forall|x: int, j: int|
                0 <= x < wc && 0 <= j < list_views(lists@)[x].len() implies (#[trigger] list_views(
                    lists@,
                )[x][j]) < n by {
                if x == best && j == list_views(lists@)[x].len() - 1 {
                } else {
                    assert(list_views(lists@)[x][j] == old_lists[x][j]);
                }
            }
            assert forall|x: int| 0 <= x < wc implies (#[trigger] loads@[x]) as nat <= (t + 1) as nat
                * 0xffff_ffff_ffff_ffff by {
                if x != best {
                    assert(t as nat * 0xffff_ffff_ffff_ffff <= (t + 1) as nat * 0xffff_ffff_ffff_ffff)
                        by (nonlinear_arith);
                }
            }
        }
        t = t + 1;
    }
    let ghost glists = list_views(lists@);
    let mut result: Vec<Vec<usize>> = Vec::new();
    let mut w: usize = 0;
    while w < wc
        invariant
            w <= wc == lists@.len(),
            glists == list_views(lists@),
            forall|x: int, j: int|
                0 <= x < wc && 0 <= j < glists[x].len() ==> (#[trigger] glists[x][j]) < n,
            n == pages.len(),
            list_views(result@) == Seq::new(w as nat, |x: int| book_order(pages@, glists[x])),
            forall|x: int, j: int|
                0 <= x < result@.len() && 0 <= j < result@[x]@.len() ==> (#[trigger] result@[x]@[j])
                    < n,
        decreases wc - w,
    {
        let list = &lists[w];
        assert(list@ == glists[w as int]);
        let mut sorted: Vec<usize> = Vec::new();
        let mut k: usize = 0;
        while k < list.len()
            invariant
                k <= list.len(),
                list@ == glists[w as int],
                forall|j: int| 0 <= j < list@.len() ==> (#[trigger] list@[j]) < pages.len(),
                sorted@ == book_order(pages@, list@.take(k as int)),
                sorted@.len() == k,
                forall|j: int| 0 <= j < sorted@.len() ==> (#[trigger] sorted@[j]) < pages.len(),
            decreases list.len() - k,
        {
            let x = list[k];
            let at = first_later_exec(pages, &sorted, pages[x].index);
            let ghost before = sorted@;
            sorted.insert(at, x);
            proof {
                assert(list@.take(k + 1).drop_last() =~= list@.take(k as int));
                assert(list@.take(k + 1).last() == x);
                assert forall|j: int| 0 <= j < sorted@.len() implies (#[trigger] sorted@[j])
                    < pages.len() by {
                    if j < at {
                        assert(sorted@[j] == before[j]);
                    } else if j > at {
                        assert(sorted@[j] == before[j - 1]);
                    }
                }
            }
            k = k + 1;
        }
        assert(list@.take(k as int) =~= list@);
        let ghost before = list_views(result@);
        let ghost before_raw = result@;
        result.push(sorted);
        assert forall|x: int, j: int|
            0 <= x < result@.len() && 0 <= j < result@[x]@.len() implies (#[trigger] result@[x]@[j])
                < n by {
            if x < before_raw.len() {
                assert(result@[x] == before_raw[x]);
            }
        }
        assert(list_views(result@) =~= before.push(book_order(pages@, glists[w as int])));
        assert(list_views(result@) =~= Seq::new((w + 1) as nat, |x: int| book_order(pages@, glists[x])));
        w = w + 1;
    }
    result
}

} // verus!
