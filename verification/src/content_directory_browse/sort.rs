//! The order in which the children of an object are shown.
use crate::content_directory_browse::child::{Child, ChildModel};
use crate::order::is_before;
use vstd::prelude::*;
use vstd::utf8::*;

verus! {

/// What a child is ordered by: the bytes of its title.
pub open spec fn sort_key(child: ChildModel) -> Seq<u8> {
    encode_utf8(child.title())
}

/// The child at position `i` of `input` is to be shown before the one at position `j`: its title comes
/// first, or the titles are the same and it comes first in `input`.
pub open spec fn shown_before(input: Seq<ChildModel>, i: int, j: int) -> bool {
    crate::order::before(sort_key(input[i]), sort_key(input[j])) || (sort_key(input[i]) == sort_key(
        input[j],
    ) && i < j)
}

/// `order` lists positions of `input` from `low` on, each once, in the order in which they are shown.
pub open spec fn in_order(input: Seq<ChildModel>, low: int, order: Seq<int>) -> bool {
    &&& order.len() == input.len() - low
    &&& forall|i: int| 0 <= i < order.len() ==> low <= #[trigger] order[i] < input.len()
    &&& forall|i: int, j: int|
        0 <= i < j < order.len() ==> shown_before(input, #[trigger] order[i], #[trigger] order[j])
}

/// `output` holds the children of `input` by `order`.
pub open spec fn picked(
    input: Seq<ChildModel>,
    order: Seq<int>,
    output: Seq<ChildModel>,
) -> bool {
    &&& output.len() == order.len()
    &&& forall|i: int| 0 <= i < order.len() ==> output[i] == input[#[trigger] order[i]]
}

/// `output` is `input` sorted by title, children with the same title in the order of `input`.
pub open spec fn sorted_by_title(input: Seq<ChildModel>, output: Seq<ChildModel>) -> bool {
    exists|order: Seq<int>| in_order(input, 0, order) && #[trigger] picked(input, order, output)
}

/// Putting position `n` before the ones that are not shown before it keeps an order in order.
proof fn lemma_insert(input: Seq<ChildModel>, n: int, order: Seq<int>, at: int)
    requires
        0 <= n < input.len(),
        in_order(input, n + 1, order),
        0 <= at <= order.len(),
        forall|i: int|
            0 <= i < at ==> crate::order::before(
                sort_key(input[#[trigger] order[i]]),
                sort_key(input[n]),
            ),
        forall|i: int|
            at <= i < order.len() ==> !crate::order::before(
                sort_key(input[#[trigger] order[i]]),
                sort_key(input[n]),
            ),
    ensures
        in_order(input, n, order.insert(at, n)),
{
    let new_order = order.insert(at, n);
    assert forall|i: int, j: int| 0 <= i < j < new_order.len() implies shown_before(
        input,
        #[trigger] new_order[i],
        #[trigger] new_order[j],
    ) by {
        if i == at {
            assert(new_order[j] == order[j - 1]);
            crate::order::lemma_before_total(sort_key(input[n]), sort_key(input[order[j - 1]]));
        } else if j == at {
            assert(new_order[i] == order[i]);
        } else {
            let i0 = if i < at { i } else { i - 1 };
            let j0 = if j < at { j } else { j - 1 };
            assert(shown_before(input, order[i0], order[j0]));
        }
    }
}

/// A child shown before one whose title comes before `key` has a title before `key` too.
proof fn lemma_key_before(input: Seq<ChildModel>, i: int, j: int, key: Seq<u8>)
    requires
        shown_before(input, i, j),
        crate::order::before(sort_key(input[j]), key),
    ensures
        crate::order::before(sort_key(input[i]), key),
{
    if crate::order::before(sort_key(input[i]), sort_key(input[j])) {
        crate::order::lemma_before_transitive(sort_key(input[i]), sort_key(input[j]), key);
    }
}

/// The position in `sorted` before which a child with the title `title` goes: after all whose titles
/// come before it.
fn place(
    sorted: &Vec<Child>,
    title: &str,
    Ghost(input): Ghost<Seq<ChildModel>>,
    Ghost(low): Ghost<int>,
    Ghost(order): Ghost<Seq<int>>,
) -> (at: usize)
    requires
        in_order(input, low, order),
        picked(input, order, crate::content_directory_browse::child::models(sorted@)),
    ensures
        at <= sorted@.len(),
        forall|i: int|
            0 <= i < at ==> crate::order::before(
                sort_key(input[#[trigger] order[i]]),
                encode_utf8(title@),
            ),
        forall|i: int|
            at <= i < order.len() ==> !crate::order::before(
                sort_key(input[#[trigger] order[i]]),
                encode_utf8(title@),
            ),
{
    let ghost key = encode_utf8(title@);
    let mut low_end: usize = 0;
    let mut high_end: usize = sorted.len();
    while low_end < high_end
        invariant
            in_order(input, low, order),
            picked(input, order, crate::content_directory_browse::child::models(sorted@)),
            key == encode_utf8(title@),
            low_end <= high_end <= sorted@.len() == order.len(),
            forall|i: int|
                0 <= i < low_end ==> crate::order::before(
                    sort_key(input[#[trigger] order[i]]),
                    key,
                ),
            forall|i: int|
                high_end <= i < order.len() ==> !crate::order::before(
                    sort_key(input[#[trigger] order[i]]),
                    key,
                ),
        decreases high_end - low_end,
    {
        let mid: usize = low_end + (high_end - low_end) / 2;
        let other: &str = sorted[mid].title();
        assert(crate::content_directory_browse::child::models(sorted@)[mid as int]
            == input[order[mid as int]]);
        if is_before(other.as_bytes(), title.as_bytes()) {
            proof {
                assert forall|i: int| 0 <= i < mid + 1 implies crate::order::before(
                    sort_key(input[#[trigger] order[i]]),
                    key,
                ) by {
                    if i < mid {
                        assert(shown_before(input, order[i], order[mid as int]));
                        lemma_key_before(input, order[i], order[mid as int], key);
                    }
                }
            }
            low_end = mid + 1;
        } else {
            proof {
                assert forall|i: int| mid <= i < order.len() implies !crate::order::before(
                    sort_key(input[#[trigger] order[i]]),
                    key,
                ) by {
                    if mid < i && crate::order::before(sort_key(input[order[i]]), key) {
                        assert(shown_before(input, order[mid as int], order[i]));
                        lemma_key_before(input, order[mid as int], order[i], key);
                    }
                }
            }
            high_end = mid;
        }
    }
    low_end
}

/// Sorts children by title. Children with the same title keep their order.
pub fn sort_by_title(children: Vec<Child>) -> (sorted: Vec<Child>)
    ensures
        sorted_by_title(
            crate::content_directory_browse::child::models(children@),
            crate::content_directory_browse::child::models(sorted@),
        ),
{
    let ghost input = crate::content_directory_browse::child::models(children@);
    let mut rest: Vec<Child> = children;
    let mut sorted: Vec<Child> = Vec::new();
    let ghost mut order: Seq<int> = Seq::empty();
    let mut n: usize = rest.len();
    while n > 0
        invariant
            n == rest@.len() <= input.len(),
            crate::content_directory_browse::child::models(rest@) == input.take(n as int),
            in_order(input, n as int, order),
            picked(input, order, crate::content_directory_browse::child::models(sorted@)),
        decreases n,
    {
        let ghost all = rest@;
        match rest.pop() {
            Some(child) => {
                n = n - 1;
                let at: usize = place(
                    &sorted,
                    child.title(),
                    Ghost(input),
                    Ghost(n + 1),
                    Ghost(order),
                );
                proof {
                    assert(crate::content_directory_browse::child::models(all)[n as int]
                        == input.take(n + 1)[n as int]);
                    assert(crate::content_directory_browse::child::models(rest@) =~= input.take(
                        n as int,
                    )) by {
                        assert forall|i: int| 0 <= i < n implies #[trigger] rest@[i]@
                            == input[i] by {
                            assert(crate::content_directory_browse::child::models(all)[i]
                                == input.take(n + 1)[i]);
                        }
                    }
                    lemma_insert(input, n as int, order, at as int);
                    let models_before = crate::content_directory_browse::child::models(sorted@);
                    let new_order = order.insert(at as int, n as int);
                    let models_after = models_before.insert(at as int, child@);
                    assert(crate::content_directory_browse::child::models(
                        sorted@.insert(at as int, child),
                    ) =~= models_after);
                    assert forall|i: int| 0 <= i < new_order.len() implies models_after[i]
                        == input[#[trigger] new_order[i]] by {
                        if i < at {
                            assert(new_order[i] == order[i]);
                        } else if i > at {
                            assert(new_order[i] == order[i - 1]);
                        }
                    }
                    order = new_order;
                }
                sorted.insert(at, child);
            },
            None => {},
        }
    }
    sorted
}

/// Two sequences that hold the same elements, each in the order of an asymmetric relation, are equal.
proof fn lemma_ordered_unique<T>(a: Seq<T>, b: Seq<T>, first: spec_fn(T, T) -> bool)
    requires
        forall|i: int, j: int| 0 <= i < j < a.len() ==> first(#[trigger] a[i], #[trigger] a[j]),
        forall|i: int, j: int| 0 <= i < j < b.len() ==> first(#[trigger] b[i], #[trigger] b[j]),
        forall|x: T, y: T| !(#[trigger] first(x, y) && first(y, x)),
        forall|x: T| a.contains(x) <==> b.contains(x),
    ensures
        a == b,
    decreases a.len(),
{
    if a.len() == 0 {
        if b.len() > 0 {
            assert(b.contains(b[0]));
        }
        assert(a =~= b);
    } else {
        assert(a.contains(a[0]));
        assert(b.contains(a[0]));
        assert(b.contains(b[0]));
        assert(a.contains(b[0]));
        let i = choose|i: int| 0 <= i < a.len() && a[i] == b[0];
        let j = choose|j: int| 0 <= j < b.len() && b[j] == a[0];
        if i > 0 && j > 0 {
            assert(first(a[0], a[i]));
            assert(first(b[0], b[j]));
        }
        assert(a[0] == b[0]);
        let x = a.skip(1);
        let y = b.skip(1);
        assert forall|e: T| x.contains(e) <==> y.contains(e) by {
            if x.contains(e) {
                let k = choose|k: int| 0 <= k < x.len() && x[k] == e;
                assert(a[k + 1] == e);
                assert(first(a[0], a[k + 1]));
                assert(a.contains(e));
                let m = choose|m: int| 0 <= m < b.len() && b[m] == e;
                assert(y[m - 1] == e);
            }
            if y.contains(e) {
                let k = choose|k: int| 0 <= k < y.len() && y[k] == e;
                assert(b[k + 1] == e);
                assert(first(b[0], b[k + 1]));
                assert(b.contains(e));
                let m = choose|m: int| 0 <= m < a.len() && a[m] == e;
                assert(x[m - 1] == e);
            }
        }
        assert forall|i: int, j: int| 0 <= i < j < x.len() implies first(
            #[trigger] x[i],
            #[trigger] x[j],
        ) by {
            assert(first(a[i + 1], a[j + 1]));
        }
        assert forall|i: int, j: int| 0 <= i < j < y.len() implies first(
            #[trigger] y[i],
            #[trigger] y[j],
        ) by {
            assert(first(b[i + 1], b[j + 1]));
        }
        lemma_ordered_unique(x, y, first);
        assert(a =~= seq![a[0]] + x);
        assert(b =~= seq![b[0]] + y);
    }
}

/// Of two positions at most one is shown before the other.
proof fn lemma_shown_before_asymmetric(input: Seq<ChildModel>, i: int, j: int)
    ensures
        !(shown_before(input, i, j) && shown_before(input, j, i)),
{
    let a = sort_key(input[i]);
    let b = sort_key(input[j]);
    crate::order::lemma_before_irreflexive(a);
    if crate::order::before(a, b) && crate::order::before(b, a) {
        crate::order::lemma_before_transitive(a, b, a);
    }
}

/// An order lists every position.
proof fn lemma_order_complete(input: Seq<ChildModel>, order: Seq<int>)
    requires
        in_order(input, 0, order),
    ensures
        forall|i: int| order.contains(i) <==> 0 <= i < input.len(),
{
    assert(order.no_duplicates()) by {
        assert forall|i: int, j: int| 0 <= i < order.len() && 0 <= j < order.len() && i
            != j implies order[i] != order[j] by {
            if i < j {
                assert(shown_before(input, order[i], order[j]));
            } else {
                assert(shown_before(input, order[j], order[i]));
            }
            crate::order::lemma_before_irreflexive(sort_key(input[order[i]]));
        }
    }
    order.unique_seq_to_set();
    vstd::set_lib::lemma_int_range(0, input.len() as int);
    let positions = vstd::set_lib::set_int_range(0, input.len() as int);
    assert(order.to_set().subset_of(positions));
    vstd::set_lib::lemma_len_subset(order.to_set(), positions);
    vstd::set_lib::lemma_subset_equality(order.to_set(), positions);
    assert forall|i: int| order.contains(i) <==> 0 <= i < input.len() by {
        assert(order.to_set().contains(i) == positions.contains(i));
    }
}

/// Children have one sorting: what is shown is determined by what was found.
pub proof fn sorting_is_unique(input: Seq<ChildModel>, a: Seq<ChildModel>, b: Seq<ChildModel>)
    requires
        sorted_by_title(input, a),
        sorted_by_title(input, b),
    ensures
        a == b,
{
    let p = choose|order: Seq<int>| in_order(input, 0, order) && #[trigger] picked(input, order, a);
    let q = choose|order: Seq<int>| in_order(input, 0, order) && #[trigger] picked(input, order, b);
    let first = |i: int, j: int| shown_before(input, i, j);
    assert forall|i: int, j: int| !(#[trigger] first(i, j) && first(j, i)) by {
        lemma_shown_before_asymmetric(input, i, j);
    }
    lemma_order_complete(input, p);
    lemma_order_complete(input, q);
    lemma_ordered_unique(p, q, first);
    assert forall|i: int| 0 <= i < a.len() implies a[i] == b[i] by {
        assert(a[i] == input[p[i]]);
        assert(b[i] == input[q[i]]);
    }
    assert(a =~= b);
}

/// Sorting neither loses a child nor adds one.
pub proof fn sorting_keeps_children(input: Seq<ChildModel>, output: Seq<ChildModel>)
    requires
        sorted_by_title(input, output),
    ensures
        output.to_multiset() == input.to_multiset(),
        output.len() == input.len(),
        forall|child: ChildModel| output.contains(child) <==> input.contains(child),
{
    let order = choose|order: Seq<int>|
        in_order(input, 0, order) && #[trigger] picked(input, order, output);
    lemma_order_complete(input, order);
    assert forall|child: ChildModel| output.contains(child) <==> input.contains(child) by {
        if output.contains(child) {
            let i = choose|i: int| 0 <= i < output.len() && output[i] == child;
            assert(input[order[i]] == child);
        }
        if input.contains(child) {
            let i = choose|i: int| 0 <= i < input.len() && input[i] == child;
            assert(order.contains(i));
            let k = choose|k: int| 0 <= k < order.len() && order[k] == i;
            assert(output[k] == child);
        }
    }
    lemma_picked_multiset(input, order, output);
}

/// Picking by an order that lists every position keeps how often each child occurs.
proof fn lemma_picked_multiset(input: Seq<ChildModel>, order: Seq<int>, output: Seq<ChildModel>)
    requires
        picked(input, order, output),
        order.len() == input.len(),
        forall|i: int| order.contains(i) <==> 0 <= i < input.len(),
    ensures
        output.to_multiset() == input.to_multiset(),
    decreases input.len(),
{
    broadcast use vstd::seq_lib::group_to_multiset_ensures;

    if input.len() == 0 {
        assert(output =~= input);
    } else {
        let last = input.len() - 1;
        assert(order.contains(last));
        let k = choose|k: int| 0 <= k < order.len() && order[k] == last;
        let rest = input.drop_last();
        let rest_order = order.remove(k);
        let rest_output = output.remove(k);
        assert(input =~= rest.push(input[last]));
        assert(output =~= rest_output.insert(k, input[last]));
        assert forall|i: int| rest_order.contains(i) <==> 0 <= i < rest.len() by {
            lemma_remove_position(order, input.len() as int, k);
        }
        assert(picked(rest, rest_order, rest_output)) by {
            lemma_remove_position(order, input.len() as int, k);
            assert forall|i: int| 0 <= i < rest_order.len() implies rest_output[i]
                == rest[#[trigger] rest_order[i]] by {
                assert(rest_order.contains(rest_order[i]));
                if i < k {
                    assert(rest_order[i] == order[i]);
                } else {
                    assert(rest_order[i] == order[i + 1]);
                }
            }
        }
        lemma_picked_multiset(rest, rest_order, rest_output);
        assert(output.remove(k) =~= rest_output);
    }
}

/// Without the greatest position, an order lists every other one.
proof fn lemma_remove_position(order: Seq<int>, n: int, k: int)
    requires
        order.len() == n,
        forall|i: int| order.contains(i) <==> 0 <= i < n,
        0 <= k < order.len(),
        order[k] == n - 1,
    ensures
        forall|i: int| order.remove(k).contains(i) <==> 0 <= i < n - 1,
{
    vstd::set_lib::lemma_int_range(0, n);
    let positions = vstd::set_lib::set_int_range(0, n);
    assert(order.to_set() =~= positions);
    order.lemma_no_dup_set_cardinality();
    let rest = order.remove(k);
    assert forall|i: int| rest.contains(i) <==> 0 <= i < n - 1 by {
        if rest.contains(i) {
            let m = choose|m: int| 0 <= m < rest.len() && rest[m] == i;
            let m0 = if m < k { m } else { m + 1 };
            assert(order[m0] == i);
            assert(order.contains(i));
            assert(m0 != k);
        }
        if 0 <= i < n - 1 {
            assert(order.contains(i));
            let m = choose|m: int| 0 <= m < order.len() && order[m] == i;
            let m0 = if m < k { m } else { m - 1 };
            assert(rest[m0] == i);
        }
    }
}

/// No two children have the same title.
pub open spec fn distinct_titles(children: Seq<ChildModel>) -> bool {
    forall|i: int, j: int|
        0 <= i < j < children.len() ==> (#[trigger] children[i]).title() != (
        #[trigger] children[j]).title()
}

/// A sorting of children whose titles differ is in the order of the titles alone.
proof fn lemma_titles_ascend(input: Seq<ChildModel>, output: Seq<ChildModel>)
    requires
        distinct_titles(input),
        sorted_by_title(input, output),
    ensures
        forall|i: int, j: int|
            0 <= i < j < output.len() ==> crate::order::before(
                sort_key(#[trigger] output[i]),
                sort_key(#[trigger] output[j]),
            ),
{
    let order = choose|order: Seq<int>|
        in_order(input, 0, order) && #[trigger] picked(input, order, output);
    assert forall|i: int, j: int| 0 <= i < j < output.len() implies crate::order::before(
        sort_key(#[trigger] output[i]),
        sort_key(#[trigger] output[j]),
    ) by {
        let a = order[i];
        let b = order[j];
        assert(shown_before(input, a, b));
        if sort_key(input[a]) == sort_key(input[b]) {
            encode_utf8_decode_utf8(input[a].title());
            encode_utf8_decode_utf8(input[b].title());
            assert(input[a].title() == input[b].title());
        }
    }
}

/// Children whose titles differ are shown in one order, whatever order they were found in.
pub proof fn distinct_titles_sort_alike(
    input: Seq<ChildModel>,
    other_input: Seq<ChildModel>,
    output: Seq<ChildModel>,
    other_output: Seq<ChildModel>,
)
    requires
        distinct_titles(input),
        distinct_titles(other_input),
        forall|child: ChildModel| input.contains(child) <==> other_input.contains(child),
        sorted_by_title(input, output),
        sorted_by_title(other_input, other_output),
    ensures
        output == other_output,
{
    lemma_titles_ascend(input, output);
    lemma_titles_ascend(other_input, other_output);
    sorting_keeps_children(input, output);
    sorting_keeps_children(other_input, other_output);
    let first = |x: ChildModel, y: ChildModel| crate::order::before(sort_key(x), sort_key(y));
    assert forall|x: ChildModel, y: ChildModel| !(#[trigger] first(x, y) && first(y, x)) by {
        if first(x, y) && first(y, x) {
            crate::order::lemma_before_transitive(sort_key(x), sort_key(y), sort_key(x));
            crate::order::lemma_before_irreflexive(sort_key(x));
        }
    }
    lemma_ordered_unique(output, other_output, first);
}

/// Of two children in a sorting, the title of the later does not come before that of the earlier.
pub proof fn lemma_sorted(input: Seq<ChildModel>, output: Seq<ChildModel>, i: int, j: int)
    requires
        sorted_by_title(input, output),
        0 <= i < j < output.len(),
    ensures
        !crate::order::before(sort_key(output[j]), sort_key(output[i])),
{
    let order = choose|order: Seq<int>|
        in_order(input, 0, order) && #[trigger] picked(input, order, output);
    assert(shown_before(input, order[i], order[j]));
    lemma_shown_before_asymmetric(input, order[i], order[j]);
}

/// A sorting with one child more, which is put behind all whose titles do not come after its own, is one of
/// what was found with that child at the end.
pub proof fn lemma_one_more(
    input: Seq<ChildModel>,
    child: ChildModel,
    output: Seq<ChildModel>,
    place: int,
)
    requires
        sorted_by_title(input, output),
        0 <= place <= output.len(),
        forall|i: int|
            0 <= i < place ==> !crate::order::before(
                sort_key(child),
                sort_key(#[trigger] output[i]),
            ),
        forall|i: int|
            place <= i < output.len() ==> crate::order::before(
                sort_key(child),
                sort_key(#[trigger] output[i]),
            ),
    ensures
        sorted_by_title(input.push(child), output.insert(place, child)),
{
    let order = choose|order: Seq<int>|
        in_order(input, 0, order) && #[trigger] picked(input, order, output);
    let n = input.len() as int;
    let all = input.push(child);
    let new_order = order.insert(place, n);
    let new_output = output.insert(place, child);
    assert forall|i: int| 0 <= i < new_order.len() implies 0 <= #[trigger] new_order[i] < all.len()
        && new_output[i] == all[new_order[i]] by {
        if i < place {
            assert(new_order[i] == order[i]);
        } else if i > place {
            assert(new_order[i] == order[i - 1]);
        }
    }
    assert forall|i: int, j: int| 0 <= i < j < new_order.len() implies shown_before(
        all,
        #[trigger] new_order[i],
        #[trigger] new_order[j],
    ) by {
        if i == place {
            assert(new_order[j] == order[j - 1]);
            assert(output[j - 1] == input[order[j - 1]]);
        } else if j == place {
            assert(new_order[i] == order[i]);
            assert(output[i] == input[order[i]]);
            crate::order::lemma_before_total(sort_key(output[i]), sort_key(child));
        } else {
            let i0 = if i < place { i } else { i - 1 };
            let j0 = if j < place { j } else { j - 1 };
            assert(shown_before(input, order[i0], order[j0]));
        }
    }
    assert(in_order(all, 0, new_order));
    assert(picked(all, new_order, new_output));
}

} // verus!
