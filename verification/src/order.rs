//! The stable order of texts: by their UTF-8 bytes, and by where they stood when they are equal.

use vstd::prelude::*;
use vstd::string::StringSliceAdditionalSpecFns;
use vstd::utf8::encode_utf8;

verus! {

/// Whether `a` comes before `b` in the lexicographic order of bytes.
pub open spec fn bytes_less(a: Seq<u8>, b: Seq<u8>) -> bool
    decreases a.len(),
{
    if b.len() == 0 {
        false
    } else if a.len() == 0 {
        true
    } else if a[0] != b[0] {
        a[0] < b[0]
    } else {
        bytes_less(a.drop_first(), b.drop_first())
    }
}

/// What things are sorted by: a text, and another one that decides between equal first texts.
pub struct SortKey {
    pub major: Vec<u8>,
    pub minor: Vec<u8>,
}

pub struct SortKeyView {
    pub major: Seq<u8>,
    pub minor: Seq<u8>,
}

impl View for SortKey {
    type V = SortKeyView;

    open spec fn view(&self) -> SortKeyView {
        SortKeyView { major: self.major@, minor: self.minor@ }
    }
}

/// The key made of two texts.
pub open spec fn sort_key(major: Seq<char>, minor: Seq<char>) -> SortKeyView {
    SortKeyView { major: encode_utf8(major), minor: encode_utf8(minor) }
}

/// Whether `a` comes before `b`.
pub open spec fn key_less(a: SortKeyView, b: SortKeyView) -> bool {
    bytes_less(a.major, b.major) || (a.major == b.major && bytes_less(a.minor, b.minor))
}

/// Whether item `i` comes before item `j`: by its key, or, with equal keys, by its place.
pub open spec fn precedes(keys: Seq<SortKeyView>, i: int, j: int) -> bool {
    key_less(keys[i], keys[j]) || (keys[i] == keys[j] && i < j)
}

/// Whether `order` lists the positions of all items, each once, as the items come one after the
/// other.
pub open spec fn is_stable_order(keys: Seq<SortKeyView>, order: Seq<int>) -> bool {
    &&& order.len() == keys.len()
    &&& forall|k: int| 0 <= k < order.len() ==> 0 <= #[trigger] order[k] < keys.len()
    &&& forall|k: int, l: int| 0 <= k < l < order.len() ==> precedes(keys, order[k], order[l])
}

/// The positions of the items, as the items come one after the other.
pub open spec fn stable_order_of(keys: Seq<SortKeyView>) -> Seq<int> {
    choose|order: Seq<int>| is_stable_order(keys, order)
}

/// The items of `items` that stand at the positions of `order`, in that order.
pub open spec fn arranged<T>(items: Seq<T>, order: Seq<int>) -> Seq<T> {
    order.map_values(|i: int| items[i])
}

proof fn lemma_bytes_irreflexive(a: Seq<u8>)
    ensures
        !bytes_less(a, a),
    decreases a.len(),
{
    if a.len() > 0 {
        lemma_bytes_irreflexive(a.drop_first());
    }
}

proof fn lemma_bytes_transitive(a: Seq<u8>, b: Seq<u8>, c: Seq<u8>)
    requires
        bytes_less(a, b),
        bytes_less(b, c),
    ensures
        bytes_less(a, c),
    decreases a.len(),
{
    if a.len() > 0 && b.len() > 0 && c.len() > 0 && a[0] == b[0] && b[0] == c[0] {
        lemma_bytes_transitive(a.drop_first(), b.drop_first(), c.drop_first());
    }
}

proof fn lemma_precedes_transitive(keys: Seq<SortKeyView>, i: int, j: int, k: int)
    requires
        precedes(keys, i, j),
        precedes(keys, j, k),
    ensures
        precedes(keys, i, k),
{
    let a = keys[i];
    let b = keys[j];
    let c = keys[k];
    if bytes_less(a.major, b.major) && bytes_less(b.major, c.major) {
        lemma_bytes_transitive(a.major, b.major, c.major);
    }
    if bytes_less(a.minor, b.minor) && bytes_less(b.minor, c.minor) {
        lemma_bytes_transitive(a.minor, b.minor, c.minor);
    }
}

proof fn lemma_precedes_irreflexive(keys: Seq<SortKeyView>, i: int)
    ensures
        !precedes(keys, i, i),
{
    lemma_bytes_irreflexive(keys[i].major);
    lemma_bytes_irreflexive(keys[i].minor);
}

/// How two byte strings or keys stand to each other.
#[derive(PartialEq, Eq, Structural, Clone, Copy)]
enum Standing {
    Before,
    Same,
    Behind,
}

fn standing_of_bytes(a: &Vec<u8>, b: &Vec<u8>) -> (standing: Standing)
    ensures
        match standing {
            Standing::Before => bytes_less(a@, b@),
            Standing::Same => a@ == b@,
            Standing::Behind => bytes_less(b@, a@),
        },
{
    let mut i: usize = 0;
    assert(a@.skip(0) == a@);
    assert(b@.skip(0) == b@);
    while i < a.len() && i < b.len()
        invariant
            i <= a@.len(),
            i <= b@.len(),
            a@.take(i as int) == b@.take(i as int),
            bytes_less(a@.skip(i as int), b@.skip(i as int)) == bytes_less(a@, b@),
            bytes_less(b@.skip(i as int), a@.skip(i as int)) == bytes_less(b@, a@),
        decreases a@.len() - i,
    {
        if a[i] < b[i] {
            return Standing::Before;
        }
        if b[i] < a[i] {
            return Standing::Behind;
        }
        assert(a@.skip(i as int).drop_first() == a@.skip(i + 1));
        assert(b@.skip(i as int).drop_first() == b@.skip(i + 1));
        assert(a@.take(i + 1) == a@.take(i as int).push(a@[i as int]));
        assert(b@.take(i + 1) == b@.take(i as int).push(b@[i as int]));
        i = i + 1;
    }
    if i < b.len() {
        Standing::Before
    } else if i < a.len() {
        Standing::Behind
    } else {
        assert(a@.take(i as int) == a@);
        assert(b@.take(i as int) == b@);
        Standing::Same
    }
}

fn standing_of_keys(a: &SortKey, b: &SortKey) -> (standing: Standing)
    ensures
        match standing {
            Standing::Before => key_less(a@, b@),
            Standing::Same => a@ == b@,
            Standing::Behind => key_less(b@, a@),
        },
{
    let major = standing_of_bytes(&a.major, &b.major);
    match major {
        Standing::Same => standing_of_bytes(&a.minor, &b.minor),
        _ => major,
    }
}

/// Keys as values of the model.
pub open spec fn key_views(keys: Seq<SortKey>) -> Seq<SortKeyView> {
    keys.map_values(|k: SortKey| k@)
}

/// Positions as mathematical integers.
pub open spec fn positions(order: Seq<usize>) -> Seq<int> {
    order.map_values(|i: usize| i as int)
}

/// Whether `part` holds positions from `from` to `to`, as many as there are, in order.
spec fn sorts(keys: Seq<SortKeyView>, part: Seq<usize>, from: int, to: int) -> bool {
    &&& part.len() == to - from
    &&& forall|k: int| 0 <= k < part.len() ==> from <= #[trigger] part[k] < to
    &&& forall|k: int, l: int|
        0 <= k < l < part.len() ==> precedes(keys, part[k] as int, part[l] as int)
}

/// Merges two sorted runs of positions, the second of which lies behind the first.
fn merge(keys: &Vec<SortKey>, low: &Vec<usize>, high: &Vec<usize>, Ghost(from): Ghost<int>, Ghost(
    mid,
): Ghost<int>, Ghost(to): Ghost<int>) -> (all: Vec<usize>)
    requires
        0 <= from <= mid <= to <= keys@.len(),
        sorts(key_views(keys@), low@, from, mid),
        sorts(key_views(keys@), high@, mid, to),
    ensures
        sorts(key_views(keys@), all@, from, to),
{
    let mut all: Vec<usize> = Vec::new();
    let mut i: usize = 0;
    let mut j: usize = 0;
    let ghost views = key_views(keys@);
    while i < low.len() || j < high.len()
        invariant
            views == key_views(keys@),
            0 <= from <= mid <= to <= keys@.len(),
            sorts(views, low@, from, mid),
            sorts(views, high@, mid, to),
            i <= low@.len(),
            j <= high@.len(),
            all@.len() == i + j,
            forall|k: int| 0 <= k < all@.len() ==> from <= #[trigger] all@[k] < to,
            forall|k: int, l: int|
                0 <= k < l < all@.len() ==> precedes(views, all@[k] as int, all@[l] as int),
            forall|k: int, l: int|
                0 <= k < all@.len() && i <= l < low@.len() ==> precedes(
                    views,
                    all@[k] as int,
                    low@[l] as int,
                ),
            forall|k: int, l: int|
                0 <= k < all@.len() && j <= l < high@.len() ==> precedes(
                    views,
                    all@[k] as int,
                    high@[l] as int,
                ),
        decreases low@.len() - i + high@.len() - j,
    {
        let take_low = if i == low.len() {
            false
        } else if j == high.len() {
            true
        } else {
            assert(from <= low@[i as int] < mid);
            assert(mid <= high@[j as int] < to);
            match standing_of_keys(&keys[low[i]], &keys[high[j]]) {
                Standing::Behind => false,
                _ => true,
            }
        };
        if take_low {
            let ghost x = low@[i as int] as int;
            assert forall|l: int| j <= l < high@.len() implies precedes(
                views,
                x,
                #[trigger] high@[l] as int,
            ) by {
                assert(precedes(views, x, high@[j as int] as int));
                if j < l {
                    lemma_precedes_transitive(views, x, high@[j as int] as int, high@[l] as int);
                }
            }
            all.push(low[i]);
            i = i + 1;
        } else {
            let ghost x = high@[j as int] as int;
            assert forall|l: int| i <= l < low@.len() implies precedes(
                views,
                x,
                #[trigger] low@[l] as int,
            ) by {
                assert(precedes(views, x, low@[i as int] as int));
                if i < l {
                    lemma_precedes_transitive(views, x, low@[i as int] as int, low@[l] as int);
                }
            }
            all.push(high[j]);
            j = j + 1;
        }
    }
    all
}

fn sort_range(keys: &Vec<SortKey>, from: usize, to: usize) -> (part: Vec<usize>)
    requires
        from <= to <= keys@.len(),
    ensures
        sorts(key_views(keys@), part@, from as int, to as int),
    decreases to - from,
{
    let mut part: Vec<usize> = Vec::new();
    if from == to {
        return part;
    }
    if to - from == 1 {
        part.push(from);
        return part;
    }
    let mid: usize = from + (to - from) / 2;
    let low = sort_range(keys, from, mid);
    let high = sort_range(keys, mid, to);
    merge(
        keys,
        &low,
        &high,
        Ghost(from as int),
        Ghost(mid as int),
        Ghost(to as int),
    )
}

/// No position occurs twice in a stable order.
pub proof fn lemma_order_is_distinct(keys: Seq<SortKeyView>, order: Seq<int>, k: int, l: int)
    requires
        is_stable_order(keys, order),
        0 <= k < l < order.len(),
    ensures
        order[k] != order[l],
{
    lemma_precedes_irreflexive(keys, order[k]);
}

/// Items with one key keep their order.
pub proof fn lemma_equal_keys_keep_their_order(
    keys: Seq<SortKeyView>,
    order: Seq<int>,
    k: int,
    l: int,
)
    requires
        is_stable_order(keys, order),
        0 <= k < l < order.len(),
        keys[order[k]] == keys[order[l]],
    ensures
        order[k] < order[l],
{
    let key = keys[order[k]];
    assert(precedes(keys, order[k], order[l]));
    lemma_bytes_irreflexive(key.major);
    lemma_bytes_irreflexive(key.minor);
}

/// Every position occurs in a stable order.
pub proof fn lemma_order_is_complete(keys: Seq<SortKeyView>, order: Seq<int>, i: int)
    requires
        is_stable_order(keys, order),
        0 <= i < keys.len(),
    ensures
        order.contains(i),
{
    assert forall|k: int, l: int| 0 <= k < l < order.len() implies order[k] != order[l] by {
        lemma_precedes_irreflexive(keys, order[k]);
    }
    assert(order.no_duplicates());
    order.unique_seq_to_set();
    let range = vstd::set_lib::set_int_range(0, keys.len() as int);
    vstd::set_lib::lemma_int_range(0, keys.len() as int);
    assert(order.to_set().subset_of(range));
    vstd::set_lib::lemma_subset_equality(order.to_set(), range);
    assert(order.to_set().contains(i));
}

proof fn lemma_orders_agree(keys: Seq<SortKeyView>, a: Seq<int>, b: Seq<int>, k: int)
    requires
        is_stable_order(keys, a),
        is_stable_order(keys, b),
        0 <= k < keys.len(),
    ensures
        a[k] == b[k],
    decreases k,
{
    assert forall|l: int| 0 <= l < k implies a[l] == b[l] by {
        lemma_orders_agree(keys, a, b, l);
    }
    if a[k] != b[k] {
        lemma_order_is_complete(keys, b, a[k]);
        lemma_order_is_complete(keys, a, b[k]);
        let i = choose|i: int| 0 <= i < b.len() && b[i] == a[k];
        let j = choose|j: int| 0 <= j < a.len() && a[j] == b[k];
        lemma_precedes_irreflexive(keys, a[k]);
        lemma_precedes_irreflexive(keys, b[k]);
        assert(i > k);
        assert(j > k);
        lemma_precedes_transitive(keys, a[k], b[k], a[k]);
    }
}

proof fn lemma_bytes_total(a: Seq<u8>, b: Seq<u8>)
    ensures
        bytes_less(a, b) || a == b || bytes_less(b, a),
    decreases a.len(),
{
    if a.len() > 0 && b.len() > 0 && a[0] == b[0] {
        lemma_bytes_total(a.drop_first(), b.drop_first());
        if a.drop_first() == b.drop_first() {
            assert(a == seq![a[0]] + a.drop_first());
            assert(b == seq![b[0]] + b.drop_first());
        }
    } else if a.len() == 0 && b.len() == 0 {
        assert(a == b);
    }
}

proof fn lemma_precedes_total(keys: Seq<SortKeyView>, i: int, j: int)
    ensures
        precedes(keys, i, j) || i == j || precedes(keys, j, i),
{
    lemma_bytes_total(keys[i].major, keys[j].major);
    lemma_bytes_total(keys[i].minor, keys[j].minor);
}

/// Where position `i` belongs among the positions of `order`.
spec fn place_for(keys: Seq<SortKeyView>, order: Seq<int>, i: int) -> nat
    decreases order.len(),
{
    if order.len() == 0 || precedes(keys, order.last(), i) {
        order.len()
    } else {
        place_for(keys, order.drop_last(), i)
    }
}

proof fn lemma_place_for(keys: Seq<SortKeyView>, order: Seq<int>, i: int)
    requires
        forall|k: int, l: int| 0 <= k < l < order.len() ==> precedes(keys, order[k], order[l]),
        forall|k: int| 0 <= k < order.len() ==> #[trigger] order[k] != i,
    ensures
        ({
            let p = place_for(keys, order, i);
            &&& p <= order.len()
            &&& forall|k: int| 0 <= k < p ==> precedes(keys, #[trigger] order[k], i)
            &&& forall|k: int| p <= k < order.len() ==> precedes(keys, i, #[trigger] order[k])
        }),
    decreases order.len(),
{
    if order.len() > 0 {
        let last = order.last();
        if precedes(keys, last, i) {
            assert forall|k: int| 0 <= k < order.len() implies precedes(
                keys,
                #[trigger] order[k],
                i,
            ) by {
                if k < order.len() - 1 {
                    lemma_precedes_transitive(keys, order[k], last, i);
                }
            }
        } else {
            lemma_precedes_total(keys, last, i);
            lemma_place_for(keys, order.drop_last(), i);
            assert forall|k: int|
                place_for(keys, order, i) <= k < order.len() implies precedes(
                keys,
                i,
                #[trigger] order[k],
            ) by {
                if k < order.len() - 1 {
                    assert(order[k] == order.drop_last()[k]);
                }
            }
            assert forall|k: int| 0 <= k < place_for(keys, order, i) implies precedes(
                keys,
                #[trigger] order[k],
                i,
            ) by {
                assert(order[k] == order.drop_last()[k]);
            }
        }
    }
}

/// Whatever the keys are, there is a stable order.
pub proof fn lemma_stable_order_exists(keys: Seq<SortKeyView>)
    ensures
        is_stable_order(keys, stable_order_of(keys)),
    decreases keys.len(),
{
    if keys.len() == 0 {
        assert(is_stable_order(keys, Seq::<int>::empty()));
    } else {
        let shorter = keys.drop_last();
        lemma_stable_order_exists(shorter);
        let order = stable_order_of(shorter);
        let i = keys.len() - 1;
        assert forall|k: int, l: int| 0 <= k < l < order.len() implies precedes(
            keys,
            order[k],
            order[l],
        ) by {
            assert(precedes(shorter, order[k], order[l]));
            assert(0 <= order[k] < shorter.len());
            assert(0 <= order[l] < shorter.len());
        }
        assert forall|k: int| 0 <= k < order.len() implies #[trigger] order[k] != i by {}
        lemma_place_for(keys, order, i);
        let p = place_for(keys, order, i) as int;
        let longer = order.insert(p, i);
        assert forall|k: int| 0 <= k < longer.len() implies 0 <= #[trigger] longer[k]
            < keys.len() by {
            if k < p {
                assert(longer[k] == order[k]);
            } else if k > p {
                assert(longer[k] == order[k - 1]);
            }
        }
        assert forall|k: int, l: int| 0 <= k < l < longer.len() implies precedes(
            keys,
            longer[k],
            longer[l],
        ) by {
            if k < p {
                assert(longer[k] == order[k]);
            } else if k > p {
                assert(longer[k] == order[k - 1]);
            }
            if l < p {
                assert(longer[l] == order[l]);
            } else if l > p {
                assert(longer[l] == order[l - 1]);
            }
        }
        assert(is_stable_order(keys, longer));
    }
}

/// There is only one stable order.
pub proof fn law_stable_order_is_unique(keys: Seq<SortKeyView>, a: Seq<int>, b: Seq<int>)
    requires
        is_stable_order(keys, a),
        is_stable_order(keys, b),
    ensures
        a == b,
{
    assert forall|k: int| 0 <= k < a.len() implies a[k] == b[k] by {
        lemma_orders_agree(keys, a, b, k);
    }
    assert(a =~= b);
}

/// The positions of the items with these keys, as the items come one after the other.
pub fn stable_order(keys: &Vec<SortKey>) -> (order: Vec<usize>)
    ensures
        is_stable_order(key_views(keys@), positions(order@)),
        positions(order@) == stable_order_of(key_views(keys@)),
{
    let order = sort_range(keys, 0, keys.len());
    proof {
        let views = key_views(keys@);
        let found = positions(order@);
        assert(is_stable_order(views, found));
        law_stable_order_is_unique(views, found, stable_order_of(views));
    }
    order
}

/// The key made of two texts.
pub(crate) fn key_of(major: &str, minor: &str) -> (key: SortKey)
    ensures
        key@ == sort_key(major@, minor@),
{
    SortKey { major: major.as_bytes_vec(), minor: minor.as_bytes_vec() }
}

/// Items in the order of `order`, each taken out of its place.
pub(crate) fn rearrange<T>(items: Vec<T>, order: &Vec<usize>) -> (sorted: Vec<T>)
    requires
        order@.len() == items@.len(),
        forall|k: int| 0 <= k < order@.len() ==> 0 <= #[trigger] order@[k] < items@.len(),
        forall|k: int, l: int| 0 <= k < l < order@.len() ==> order@[k] != order@[l],
    ensures
        sorted@ == arranged(items@, positions(order@)),
{
    let ghost all = items@;
    let mut places: Vec<Option<T>> = Vec::new();
    let mut items = items;
    let ghost n = all.len() as int;
    while items.len() > 0
        invariant
            n == all.len(),
            items@.len() + places@.len() == n,
            items@ == all.take(items@.len() as int),
            forall|k: int|
                0 <= k < places@.len() ==> #[trigger] places@[k] == Some(all[n - 1 - k]),
        decreases items@.len(),
    {
        match items.pop() {
            Some(item) => {
                places.push(Some(item));
            },
            None => {},
        }
    }
    let mut sorted: Vec<T> = Vec::new();
    let count: usize = places.len();
    let mut i: usize = 0;
    while i < order.len()
        invariant
            n == all.len() == count == places@.len() == order@.len(),
            i <= order@.len(),
            forall|k: int| 0 <= k < order@.len() ==> 0 <= #[trigger] order@[k] < n,
            forall|k: int, l: int| 0 <= k < l < order@.len() ==> order@[k] != order@[l],
            forall|k: int|
                i <= k < order@.len() ==> places@[n - 1 - #[trigger] order@[k]] == Some(
                    all[order@[k] as int],
                ),
            sorted@.len() == i,
            forall|k: int| 0 <= k < i ==> sorted@[k] == all[#[trigger] order@[k] as int],
        decreases order@.len() - i,
    {
        let at: usize = count - 1 - order[i];
        let mut taken: Option<T> = None;
        std::mem::swap(&mut taken, &mut places[at]);
        match taken {
            Some(item) => {
                sorted.push(item);
            },
            None => {
                assert(false);
            },
        }
        i = i + 1;
    }
    assert(sorted@ == arranged(all, positions(order@)));
    sorted
}

/// The order of bytes is that of a dictionary: behind a common start either one text is at its end,
/// or the bytes there decide.
pub proof fn law_first_difference_decides(a: Seq<u8>, b: Seq<u8>)
    ensures
        bytes_less(a, b) <==> exists|n: int|
            {
                &&& 0 <= n <= a.len() && n < b.len()
                &&& #[trigger] a.take(n) == b.take(n)
                &&& n == a.len() || a[n] < b[n]
            },
    decreases a.len(),
{
    if b.len() > 0 && a.len() > 0 && a[0] == b[0] {
        let x = a.drop_first();
        let y = b.drop_first();
        law_first_difference_decides(x, y);
        if bytes_less(x, y) {
            let n = choose|n: int|
                {
                    &&& 0 <= n <= x.len() && n < y.len()
                    &&& #[trigger] x.take(n) == y.take(n)
                    &&& n == x.len() || x[n] < y[n]
                };
            let one = seq![a[0]];
            assert(a.take(n + 1) =~= one + x.take(n));
            assert(b.take(n + 1) =~= one + y.take(n));
        }
        if exists|n: int|
            {
                &&& 0 <= n <= a.len() && n < b.len()
                &&& #[trigger] a.take(n) == b.take(n)
                &&& n == a.len() || a[n] < b[n]
            } {
            let n = choose|n: int|
                {
                    &&& 0 <= n <= a.len() && n < b.len()
                    &&& #[trigger] a.take(n) == b.take(n)
                    &&& n == a.len() || a[n] < b[n]
                };
            assert(n > 0);
            assert(x.take(n - 1) =~= a.take(n).drop_first());
            assert(y.take(n - 1) =~= b.take(n).drop_first());
        }
    } else if b.len() > 0 {
        assert(a.take(0) =~= b.take(0));
        if exists|n: int|
            {
                &&& 0 <= n <= a.len() && n < b.len()
                &&& #[trigger] a.take(n) == b.take(n)
                &&& n == a.len() || a[n] < b[n]
            } {
            let n = choose|n: int|
                {
                    &&& 0 <= n <= a.len() && n < b.len()
                    &&& #[trigger] a.take(n) == b.take(n)
                    &&& n == a.len() || a[n] < b[n]
                };
            if n > 0 {
                assert(a.take(n)[0] == b.take(n)[0]);
            }
        }
    }
}

/// Things are sorted by the UTF-8 bytes of the first text, and by those of the second one where the
/// first texts are equal.
pub proof fn law_texts_are_sorted_by_their_bytes(
    major_a: Seq<char>,
    minor_a: Seq<char>,
    major_b: Seq<char>,
    minor_b: Seq<char>,
)
    ensures
        key_less(sort_key(major_a, minor_a), sort_key(major_b, minor_b)) <==> bytes_less(
            encode_utf8(major_a),
            encode_utf8(major_b),
        ) || (encode_utf8(major_a) == encode_utf8(major_b) && bytes_less(
            encode_utf8(minor_a),
            encode_utf8(minor_b),
        )),
{
}

/// Sorting rearranges: every position occurs once, nothing comes before something smaller, and
/// equals keep their order.
pub proof fn law_sorting_rearranges(keys: Seq<SortKeyView>)
    ensures
        ({
            let order = stable_order_of(keys);
            &&& order.len() == keys.len()
            &&& forall|k: int| 0 <= k < order.len() ==> 0 <= #[trigger] order[k] < keys.len()
            &&& forall|i: int| 0 <= i < keys.len() ==> #[trigger] order.contains(i)
            &&& forall|k: int, l: int|
                0 <= k < l < order.len() ==> {
                    &&& #[trigger] order[k] != #[trigger] order[l]
                    &&& !key_less(keys[order[l]], keys[order[k]])
                    &&& keys[order[k]] == keys[order[l]] ==> order[k] < order[l]
                }
        }),
{
    let order = stable_order_of(keys);
    lemma_stable_order_exists(keys);
    assert forall|i: int| 0 <= i < keys.len() implies #[trigger] order.contains(i) by {
        lemma_order_is_complete(keys, order, i);
    }
    assert forall|k: int, l: int| 0 <= k < l < order.len() implies {
        &&& #[trigger] order[k] != #[trigger] order[l]
        &&& !key_less(keys[order[l]], keys[order[k]])
        &&& keys[order[k]] == keys[order[l]] ==> order[k] < order[l]
    } by {
        lemma_order_is_distinct(keys, order, k, l);
        assert(precedes(keys, order[k], order[l]));
        if key_less(keys[order[l]], keys[order[k]]) {
            assert(precedes(keys, order[l], order[k]));
            lemma_precedes_transitive(keys, order[k], order[l], order[k]);
            lemma_precedes_irreflexive(keys, order[k]);
        }
        if keys[order[k]] == keys[order[l]] {
            lemma_equal_keys_keep_their_order(keys, order, k, l);
        }
    }
}

}
