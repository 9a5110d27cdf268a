//! Text helpers shared by the rest of the crate.
//!
//! Strings are modelled by their views, sequences of `char`. Everything here is
//! stated over those sequences.

use vstd::prelude::*;
use vstd::string::StringExecFns;

verus! {

/// The characters of `s`, in order.
pub fn chars_of(s: &str) -> (v: Vec<char>)
    ensures
        v@ == s@,
{
    let mut v: Vec<char> = Vec::new();
    for c in it: s.chars()
        invariant
            it.seq() == s@,
            v@ == s@.take(it.index() as int),
    {
        v.push(c);
        assert(s@.take(it.index() + 1) =~= s@.take(it.index() as int).push(c));
    }
    assert(s@.take(s@.len() as int) =~= s@);
    v
}

/// Whether two character vectors hold the same text.
pub fn same_chars(a: &Vec<char>, b: &Vec<char>) -> (r: bool)
    ensures
        r == (a@ == b@),
{
    if a.len() != b.len() {
        return false;
    }
    let mut i: usize = 0;
    while i < a.len()
        invariant
            a.len() == b.len(),
            i <= a.len(),
            a@.take(i as int) == b@.take(i as int),
        decreases a.len() - i,
    {
        if a[i] != b[i] {
            return false;
        }
        assert(a@.take(i + 1) =~= a@.take(i as int).push(a@[i as int]));
        assert(b@.take(i + 1) =~= b@.take(i as int).push(b@[i as int]));
        i += 1;
    }
    assert(a@.take(a.len() as int) =~= a@);
    assert(b@.take(b.len() as int) =~= b@);
    true
}

/// Whether two strings hold the same text.
pub fn same_text(a: &str, b: &str) -> (r: bool)
    ensures
        r == (a@ == b@),
{
    let x = chars_of(a);
    let y = chars_of(b);
    same_chars(&x, &y)
}

/// Whether `s` begins with `prefix`.
pub fn starts_with(s: &str, prefix: &str) -> (r: bool)
    ensures
        r == prefix@.is_prefix_of(s@),
{
    let x = chars_of(s);
    let p = chars_of(prefix);
    if p.len() > x.len() {
        return false;
    }
    let mut i: usize = 0;
    while i < p.len()
        invariant
            p.len() <= x.len(),
            i <= p.len(),
            x@ == s@,
            p@ == prefix@,
            p@.take(i as int) == x@.take(i as int),
        decreases p.len() - i,
    {
        if p[i] != x[i] {
            assert(x@.subrange(0, p.len() as int)[i as int] == x@[i as int]);
            assert(!(p@ =~= x@.subrange(0, p.len() as int)));
            return false;
        }
        assert(p@.take(i + 1) =~= p@.take(i as int).push(p@[i as int]));
        assert(x@.take(i + 1) =~= x@.take(i as int).push(x@[i as int]));
        i += 1;
    }
    assert(p@.take(p.len() as int) =~= p@);
    assert(x@.take(p.len() as int) =~= x@.subrange(0, p.len() as int));
    true
}

/// Pushing onto a vector pushes the element's view onto the vector's view.
pub proof fn lemma_deep_view_push<T: DeepView>(before: Vec<T>, after: Vec<T>, x: T)
    requires
        after@ == before@.push(x),
    ensures
        after.deep_view() == before.deep_view().push(x.deep_view()),
{
    assert forall|j: int| 0 <= j < after@.len() implies after.deep_view()[j]
        == before.deep_view().push(x.deep_view())[j] by {
        if j < before@.len() {
            assert(after@[j] == before@[j]);
        }
    }
    assert(after.deep_view() =~= before.deep_view().push(x.deep_view()));
}

/// Strict alphabetical order: `a` comes before `b` when, at the first place
/// where they differ, `a` holds the smaller character, or when `a` is a proper
/// prefix of `b`. Characters compare by code point.
pub open spec fn precedes(a: Seq<char>, b: Seq<char>) -> bool
    decreases a.len(),
{
    if b.len() == 0 {
        false
    } else if a.len() == 0 {
        true
    } else if a[0] != b[0] {
        (a[0] as int) < (b[0] as int)
    } else {
        precedes(a.drop_first(), b.drop_first())
    }
}

/// No text precedes itself.
pub proof fn lemma_precedes_irreflexive(a: Seq<char>)
    ensures
        !precedes(a, a),
    decreases a.len(),
{
    if a.len() > 0 {
        lemma_precedes_irreflexive(a.drop_first());
    }
}

/// Of two different texts, exactly one precedes the other.
pub proof fn lemma_precedes_total(a: Seq<char>, b: Seq<char>)
    ensures
        a != b ==> (precedes(a, b) <==> !precedes(b, a)),
        a == b ==> !precedes(a, b) && !precedes(b, a),
    decreases a.len(),
{
    if a == b {
        lemma_precedes_irreflexive(a);
    } else if a.len() == 0 || b.len() == 0 {
        if a.len() == 0 && b.len() == 0 {
            assert(a =~= b);
        }
    } else if a[0] == b[0] {
        if a.drop_first() == b.drop_first() {
            assert(a =~= seq![a[0]] + a.drop_first());
            assert(b =~= seq![b[0]] + b.drop_first());
        }
        lemma_precedes_total(a.drop_first(), b.drop_first());
    } else {
        assert(a[0] as int != b[0] as int);
    }
}

/// The order is transitive.
pub proof fn lemma_precedes_transitive(a: Seq<char>, b: Seq<char>, c: Seq<char>)
    requires
        precedes(a, b),
        precedes(b, c),
    ensures
        precedes(a, c),
    decreases a.len(),
{
    if a.len() > 0 && b.len() > 0 && c.len() > 0 {
        if a[0] == b[0] && b[0] == c[0] {
            lemma_precedes_transitive(a.drop_first(), b.drop_first(), c.drop_first());
        }
    }
}

/// Whether `a` comes strictly before `b` in alphabetical order.
pub fn comes_before(a: &str, b: &str) -> (r: bool)
    ensures
        r == precedes(a@, b@),
{
    let x = chars_of(a);
    let y = chars_of(b);
    let mut i: usize = 0;
    assert(x@.skip(0) =~= x@);
    assert(y@.skip(0) =~= y@);
    while i < x.len() && i < y.len()
        invariant
            i <= x.len(),
            i <= y.len(),
            x@ == a@,
            y@ == b@,
            precedes(a@, b@) == precedes(x@.skip(i as int), y@.skip(i as int)),
        decreases x.len() - i,
    {
        let ghost xs = x@.skip(i as int);
        let ghost ys = y@.skip(i as int);
        assert(xs.len() > 0 && ys.len() > 0);
        assert(xs[0] == x@[i as int] && ys[0] == y@[i as int]);
        if x[i] != y[i] {
            assert(precedes(xs, ys) == ((xs[0] as int) < (ys[0] as int)));
            return x[i] < y[i];
        }
        assert(xs.drop_first() =~= x@.skip(i + 1));
        assert(ys.drop_first() =~= y@.skip(i + 1));
        assert(precedes(xs, ys) == precedes(xs.drop_first(), ys.drop_first()));
        i += 1;
    }
    i < y.len()
}

/// The parts written one after another with `sep` between each two.
pub open spec fn joined(parts: Seq<Seq<char>>, sep: Seq<char>) -> Seq<char>
    decreases parts.len(),
{
    if parts.len() == 0 {
        Seq::empty()
    } else if parts.len() == 1 {
        parts[0]
    } else {
        joined(parts.drop_last(), sep) + sep + parts.last()
    }
}

/// Every character of a joined text comes from one of the parts or from the
/// separator.
pub proof fn lemma_joined_chars(
    parts: Seq<Seq<char>>,
    sep: Seq<char>,
    allowed: spec_fn(char) -> bool,
)
    requires
        forall|i: int, j: int|
            0 <= i < parts.len() && 0 <= j < parts[i].len() ==> allowed(#[trigger] parts[i][j]),
        forall|j: int| 0 <= j < sep.len() ==> allowed(#[trigger] sep[j]),
    ensures
        forall|k: int|
            0 <= k < joined(parts, sep).len() ==> allowed(#[trigger] joined(parts, sep)[k]),
    decreases parts.len(),
{
    if parts.len() >= 2 {
        let front = parts.drop_last();
        assert forall|i: int, j: int| 0 <= i < front.len() && 0 <= j < front[i].len() implies allowed(
            #[trigger] front[i][j],
        ) by {
            assert(front[i] == parts[i]);
        }
        lemma_joined_chars(front, sep, allowed);
        let head = joined(front, sep);
        let whole = joined(parts, sep);
        assert forall|k: int| 0 <= k < whole.len() implies allowed(#[trigger] whole[k]) by {
            if k < head.len() {
                assert(whole[k] == head[k]);
            } else if k < head.len() + sep.len() {
                assert(whole[k] == sep[k - head.len()]);
            } else {
                assert(whole[k] == parts.last()[k - head.len() - sep.len()]);
                assert(parts.last() == parts[parts.len() - 1]);
            }
        }
    } else if parts.len() == 1 {
        assert forall|k: int| 0 <= k < parts[0].len() implies allowed(#[trigger] parts[0][k]) by {}
    }
}

/// `unit` written `n` times.
pub open spec fn repeated(unit: Seq<char>, n: nat) -> Seq<char>
    decreases n,
{
    if n == 0 {
        Seq::empty()
    } else {
        repeated(unit, (n - 1) as nat) + unit
    }
}

/// Joins string slices with a separator.
pub fn join_strs(parts: &Vec<&str>, sep: &str) -> (r: String)
    ensures
        r@ == joined(parts.deep_view(), sep@),
{
    let mut r = String::new();
    let mut i: usize = 0;
    let ghost views = parts.deep_view();
    while i < parts.len()
        invariant
            i <= parts.len(),
            views == parts.deep_view(),
            r@ == joined(views.take(i as int), sep@),
        decreases parts.len() - i,
    {
        if i > 0 {
            r.append(sep);
        }
        r.append(parts[i]);
        proof {
            let next = views.take(i + 1);
            assert(next.drop_last() =~= views.take(i as int));
            assert(next.last() == parts@[i as int]@);
            if i == 0 {
                assert(r@ =~= next[0]);
            }
        }
        i += 1;
    }
    assert(views.take(parts.len() as int) =~= views);
    r
}

/// Joins owned strings with a separator.
pub fn join_strings(parts: &Vec<String>, sep: &str) -> (r: String)
    ensures
        r@ == joined(parts.deep_view(), sep@),
{
    let mut r = String::new();
    let mut i: usize = 0;
    let ghost views = parts.deep_view();
    while i < parts.len()
        invariant
            i <= parts.len(),
            views == parts.deep_view(),
            r@ == joined(views.take(i as int), sep@),
        decreases parts.len() - i,
    {
        if i > 0 {
            r.append(sep);
        }
        r.append(parts[i].as_str());
        proof {
            let next = views.take(i + 1);
            assert(next.drop_last() =~= views.take(i as int));
            assert(next.last() == parts@[i as int]@);
            if i == 0 {
                assert(r@ =~= next[0]);
            }
        }
        i += 1;
    }
    assert(views.take(parts.len() as int) =~= views);
    r
}

/// Writes `unit` `n` times.
pub fn repeat(unit: &str, n: usize) -> (r: String)
    ensures
        r@ == repeated(unit@, n as nat),
{
    let mut r = String::new();
    let mut i: usize = 0;
    while i < n
        invariant
            i <= n,
            r@ == repeated(unit@, i as nat),
        decreases n - i,
    {
        r.append(unit);
        i += 1;
    }
    r
}

/// Owned copies of the given slices.
pub fn to_strings(parts: &Vec<&str>) -> (r: Vec<String>)
    ensures
        r.deep_view() == parts.deep_view(),
{
    let mut r: Vec<String> = Vec::new();
    let mut i: usize = 0;
    while i < parts.len()
        invariant
            i <= parts.len(),
            r@.len() == i,
            r.deep_view() == parts.deep_view().take(i as int),
        decreases parts.len() - i,
    {
        let ghost before = r@;
        let item = String::from_str(parts[i]);
        r.push(item);
        assert(r@.len() == i + 1);
        assert(r.deep_view().len() == i + 1);
        assert(r@[i as int]@ == parts@[i as int]@);
        assert forall|j: int| 0 <= j <= i implies r.deep_view()[j] == parts.deep_view()[j] by {
            if j < i {
                assert(r@[j] == before[j]);
                assert(parts.deep_view().take(i as int)[j] == parts.deep_view()[j]);
            }
        }
        assert(r.deep_view() =~= parts.deep_view().take(i + 1));
        i += 1;
    }
    assert(parts.deep_view().take(parts.len() as int) =~= parts.deep_view());
    r
}

/// Inserting into a vector inserts the element's view into the vector's view.
pub proof fn lemma_deep_view_insert<T: DeepView>(before: Vec<T>, after: Vec<T>, i: int, x: T)
    requires
        0 <= i <= before@.len(),
        after@ == before@.insert(i, x),
    ensures
        after.deep_view() == before.deep_view().insert(i, x.deep_view()),
{
    assert forall|j: int| 0 <= j < after@.len() implies after.deep_view()[j]
        == before.deep_view().insert(i, x.deep_view())[j] by {
        if j < i {
            assert(after@[j] == before@[j]);
        } else if j > i {
            assert(after@[j] == before@[j - 1]);
        }
    }
    assert(after.deep_view() =~= before.deep_view().insert(i, x.deep_view()));
}

/// A list in alphabetical order: no name comes before one that stands earlier
/// in the list.
pub open spec fn ascending(names: Seq<Seq<char>>) -> bool {
    forall|i: int, j: int|
        0 <= i < j < names.len() ==> !precedes(#[trigger] names[j], #[trigger] names[i])
}

/// Where `x` goes in a list in alphabetical order: behind the last name that
/// `x` does not come before.
pub open spec fn insertion_point(names: Seq<Seq<char>>, x: Seq<char>) -> int
    decreases names.len(),
{
    if names.len() == 0 {
        0
    } else if precedes(x, names.last()) {
        insertion_point(names.drop_last(), x)
    } else {
        names.len() as int
    }
}

/// The names in alphabetical order. Names that are equal stay in the order in
/// which they came.
pub open spec fn sorted(names: Seq<Seq<char>>) -> Seq<Seq<char>>
    decreases names.len(),
{
    if names.len() == 0 {
        names
    } else {
        let front = sorted(names.drop_last());
        front.insert(insertion_point(front, names.last()), names.last())
    }
}

/// The insertion point lies inside the list, `x` comes before every name
/// behind it, and `x` does not come before the name just in front of it.
pub proof fn lemma_insertion_point(names: Seq<Seq<char>>, x: Seq<char>)
    ensures
        0 <= insertion_point(names, x) <= names.len(),
        forall|j: int|
            insertion_point(names, x) <= j < names.len() ==> precedes(x, #[trigger] names[j]),
        insertion_point(names, x) > 0 ==> !precedes(x, names[insertion_point(names, x) - 1]),
    decreases names.len(),
{
    if names.len() > 0 && precedes(x, names.last()) {
        lemma_insertion_point(names.drop_last(), x);
        let p = insertion_point(names, x);
        assert forall|j: int| p <= j < names.len() implies precedes(x, #[trigger] names[j]) by {
            if j < names.len() - 1 {
                assert(names.drop_last()[j] == names[j]);
            }
        }
        if p > 0 {
            assert(names.drop_last()[p - 1] == names[p - 1]);
        }
    }
}

/// Putting a name at its insertion point keeps a list in alphabetical order.
pub proof fn lemma_insert_keeps_ascending(names: Seq<Seq<char>>, x: Seq<char>)
    requires
        ascending(names),
    ensures
        ascending(names.insert(insertion_point(names, x), x)),
{
    let p = insertion_point(names, x);
    let out = names.insert(p, x);
    lemma_insertion_point(names, x);
    assert forall|i: int, j: int| 0 <= i < j < out.len() implies !precedes(
        #[trigger] out[j],
        #[trigger] out[i],
    ) by {
        if i == p {
            assert(out[j] == names[j - 1]);
            lemma_precedes_total(x, names[j - 1]);
        } else if j == p {
            assert(out[i] == names[i]);
            if precedes(x, names[i]) {
                if i < p - 1 {
                    assert(!precedes(names[p - 1], names[i]));
                    lemma_precedes_total(names[i], names[p - 1]);
                    if names[i] != names[p - 1] {
                        lemma_precedes_transitive(x, names[i], names[p - 1]);
                    }
                }
            }
        } else {
            let a = if i < p { i } else { i - 1 };
            let b = if j < p { j } else { j - 1 };
            assert(out[i] == names[a] && out[j] == names[b]);
        }
    }
}

/// The sorted list is in alphabetical order.
pub proof fn lemma_sorted_ascending(names: Seq<Seq<char>>)
    ensures
        ascending(sorted(names)),
    decreases names.len(),
{
    if names.len() > 0 {
        lemma_sorted_ascending(names.drop_last());
        lemma_insert_keeps_ascending(sorted(names.drop_last()), names.last());
    }
}

/// The sorted list holds the same names as the list, each as often.
pub proof fn lemma_sorted_permutes(names: Seq<Seq<char>>)
    ensures
        sorted(names).to_multiset() == names.to_multiset(),
    decreases names.len(),
{
    broadcast use vstd::seq_lib::group_to_multiset_ensures;

    if names.len() > 0 {
        let front = sorted(names.drop_last());
        lemma_sorted_permutes(names.drop_last());
        lemma_insertion_point(front, names.last());
        assert(names.drop_last().push(names.last()) =~= names);
    }
}

/// Two lists in alphabetical order that hold the same names, each as often,
/// are the same list.
pub proof fn lemma_ascending_unique(a: Seq<Seq<char>>, b: Seq<Seq<char>>)
    requires
        ascending(a),
        ascending(b),
        a.to_multiset() == b.to_multiset(),
    ensures
        a == b,
    decreases a.len(),
{
    broadcast use vstd::seq_lib::group_to_multiset_ensures;
    broadcast use vstd::multiset::group_multiset_properties;

    assert(a.len() == b.len()) by {
        assert(a.to_multiset().len() == a.len());
        assert(b.to_multiset().len() == b.len());
    }
    if a.len() == 0 {
        assert(a =~= b);
    } else {
        let x = a.last();
        let y = b.last();
        assert(a.contains(x)) by {
            assert(a[a.len() - 1] == x);
        }
        assert(b.contains(y)) by {
            assert(b[b.len() - 1] == y);
        }
        assert(b.to_multiset().count(x) > 0);
        assert(a.to_multiset().count(y) > 0);
        let j = choose|j: int| 0 <= j < b.len() && b[j] == x;
        let i = choose|i: int| 0 <= i < a.len() && a[i] == y;
        assert(!precedes(y, x)) by {
            if j < b.len() - 1 {
                assert(!precedes(b[b.len() - 1], b[j]));
            } else {
                lemma_precedes_irreflexive(x);
            }
        }
        assert(!precedes(x, y)) by {
            if i < a.len() - 1 {
                assert(!precedes(a[a.len() - 1], a[i]));
            } else {
                lemma_precedes_irreflexive(y);
            }
        }
        lemma_precedes_total(x, y);
        let front = a.drop_last();
        let other = b.drop_last();
        assert(front.push(x) =~= a);
        assert(other.push(x) =~= b);
        assert(front.to_multiset() =~= other.to_multiset()) by {
            assert forall|v: Seq<char>| front.to_multiset().count(v) == other.to_multiset().count(
                v,
            ) by {
                assert(front.to_multiset().insert(x).count(v) == other.to_multiset().insert(x).count(
                    v,
                ));
            }
        }
        assert(ascending(front)) by {
            assert forall|p: int, q: int| 0 <= p < q < front.len() implies !precedes(
                #[trigger] front[q],
                #[trigger] front[p],
            ) by {
                assert(front[q] == a[q] && front[p] == a[p]);
            }
        }
        assert(ascending(other)) by {
            assert forall|p: int, q: int| 0 <= p < q < other.len() implies !precedes(
                #[trigger] other[q],
                #[trigger] other[p],
            ) by {
                assert(other[q] == b[q] && other[p] == b[p]);
            }
        }
        lemma_ascending_unique(front, other);
    }
}

/// The order of a list does not matter to its sorted form: lists that hold
/// the same names, each as often, sort to the same list.
pub proof fn lemma_sorted_ignores_order(a: Seq<Seq<char>>, b: Seq<Seq<char>>)
    requires
        a.to_multiset() == b.to_multiset(),
    ensures
        sorted(a) == sorted(b),
{
    lemma_sorted_ascending(a);
    lemma_sorted_ascending(b);
    lemma_sorted_permutes(a);
    lemma_sorted_permutes(b);
    lemma_ascending_unique(sorted(a), sorted(b));
}

/// Lists that hold the same names, each as often, hold the same set of
/// names, and one is free of repetitions if the other is.
pub proof fn lemma_same_names(a: Seq<Seq<char>>, b: Seq<Seq<char>>)
    requires
        a.to_multiset() == b.to_multiset(),
    ensures
        a.to_set() == b.to_set(),
        b.no_duplicates() ==> a.no_duplicates(),
{
    broadcast use vstd::seq_lib::group_to_multiset_ensures;

    assert forall|x: Seq<char>| a.contains(x) <==> b.contains(x) by {
        assert(a.contains(x) <==> a.to_multiset().count(x) > 0);
        assert(b.contains(x) <==> b.to_multiset().count(x) > 0);
    }
    assert(a.to_set() =~= b.to_set());
    if b.no_duplicates() {
        b.lemma_multiset_has_no_duplicates();
        a.lemma_multiset_has_no_duplicates_conv();
    }
}

/// A copy of the names in alphabetical order.
pub fn sort_names(names: &Vec<String>) -> (r: Vec<String>)
    ensures
        r.deep_view() == sorted(names.deep_view()),
{
    let mut r: Vec<String> = Vec::new();
    let ghost all = names.deep_view();
    let mut k: usize = 0;
    assert(all.take(0) =~= Seq::<Seq<char>>::empty());
    assert(r.deep_view() =~= sorted(all.take(0)));
    while k < names.len()
        invariant
            k <= names.len(),
            all == names.deep_view(),
            r@.len() == k,
            r.deep_view() == sorted(all.take(k as int)),
        decreases names.len() - k,
    {
        let name = names[k].clone();
        let ghost front = r.deep_view();
        let mut p: usize = r.len();
        assert(front.take(p as int) =~= front);
        while p > 0 && comes_before(name.as_str(), r[p - 1].as_str())
            invariant
                p <= r@.len(),
                front == r.deep_view(),
                insertion_point(front, name@) == insertion_point(front.take(p as int), name@),
            decreases p,
        {
            proof {
                let head = front.take(p as int);
                assert(head.last() == r@[p - 1]@);
                assert(head.drop_last() =~= front.take(p - 1));
            }
            p -= 1;
        }
        proof {
            let head = front.take(p as int);
            if p > 0 {
                assert(head.last() == r@[p - 1]@);
            }
            assert(insertion_point(head, name@) == p);
            let next = all.take(k + 1);
            assert(next.drop_last() =~= all.take(k as int));
            assert(next.last() == name@);
        }
        let ghost before = r;
        r.insert(p, name);
        proof {
            lemma_deep_view_insert(before, r, p as int, name);
        }
        k += 1;
    }
    assert(all.take(names.len() as int) =~= all);
    r
}

} // verus!
