//! Path order and sorted, repeat-free lists of file paths.
use vstd::prelude::*;
use crate::text::chars_of;
use crate::widget::strings_view;

verus! {

broadcast use vstd::string::group_string_axioms;

/// Whether path `a` sorts before path `b`: character by character, with `/`
/// before every other character and the others in code point order, a
/// proper prefix first. For paths without empty or `.` parts, such
/// as canonical paths, this is the order of their components.
pub open spec fn path_before(a: Seq<char>, b: Seq<char>) -> bool
    decreases a.len(),
{
    if a.len() == 0 {
        b.len() > 0
    } else if b.len() == 0 {
        false
    } else if a[0] != b[0] {
        a[0] == '/' || (b[0] != '/' && a[0] < b[0])
    } else {
        path_before(a.drop_first(), b.drop_first())
    }
}

/// No path sorts before itself.
pub proof fn lemma_path_before_irreflexive(a: Seq<char>)
    ensures
        !path_before(a, a),
    decreases a.len(),
{
    if a.len() > 0 {
        lemma_path_before_irreflexive(a.drop_first());
    }
}

/// Of two different paths, exactly one sorts before the other.
pub proof fn lemma_path_before_total(a: Seq<char>, b: Seq<char>)
    ensures
        a != b ==> (path_before(a, b) || path_before(b, a)),
        !(path_before(a, b) && path_before(b, a)),
    decreases a.len(),
{
    if a.len() == 0 && b.len() == 0 {
        assert(a =~= b);
    } else if a.len() > 0 && b.len() > 0 {
        if a[0] == b[0] {
            lemma_path_before_total(a.drop_first(), b.drop_first());
            if a.drop_first() == b.drop_first() {
                assert(a =~= seq![a[0]] + a.drop_first());
                assert(b =~= seq![b[0]] + b.drop_first());
            }
        }
    }
}

/// Path order is transitive.
pub proof fn lemma_path_before_transitive(a: Seq<char>, b: Seq<char>, c: Seq<char>)
    requires
        path_before(a, b),
        path_before(b, c),
    ensures
        path_before(a, c),
    decreases a.len(),
{
    if a.len() > 0 && b.len() > 0 && c.len() > 0 && a[0] == b[0] && b[0] == c[0] {
        lemma_path_before_transitive(a.drop_first(), b.drop_first(), c.drop_first());
    }
}

/// Each path sorts strictly before the next one: sorted, with no repeats.
pub open spec fn strictly_sorted(s: Seq<Seq<char>>) -> bool {
    forall|i: int, j: int| 0 <= i < j < s.len() ==> path_before(#[trigger] s[i], #[trigger] s[j])
}

/// Whether path `a` sorts before path `b`.
pub fn path_before_exec(a: &String, b: &String) -> (r: bool)
    ensures
        r == path_before(a@, b@),
{
    let x = chars_of(a.as_str());
    let y = chars_of(b.as_str());
    let mut i: usize = 0;
    assert(x@.skip(0) =~= x@);
    assert(y@.skip(0) =~= y@);
    while i < x.len() && i < y.len()
        invariant
            i <= x@.len(),
            i <= y@.len(),
            path_before(a@, b@) == path_before(x@.skip(i as int), y@.skip(i as int)),
        decreases x@.len() - i,
    {
        assert(x@.skip(i as int).len() == x@.len() - i);
        assert(y@.skip(i as int).len() == y@.len() - i);
        assert(x@.skip(i as int)[0] == x@[i as int]);
        assert(y@.skip(i as int)[0] == y@[i as int]);
        if x[i] != y[i] {
            if x[i] == '/' {
                return true;
            } else if y[i] == '/' {
                return false;
            } else {
                return x[i] < y[i];
            }
        }
        assert(x@.skip(i as int).drop_first() =~= x@.skip(i + 1));
        assert(y@.skip(i as int).drop_first() =~= y@.skip(i + 1));
        i += 1;
    }
    assert(x@.skip(i as int).len() == x@.len() - i);
    assert(y@.skip(i as int).len() == y@.len() - i);
    i == x.len() && i < y.len()
}

/// Adds `p` to a sorted, repeat-free list of paths, where it is not there yet.
fn insert_path(sorted: &mut Vec<String>, p: String)
    requires
        strictly_sorted(strings_view(old(sorted)@)),
    ensures
        strictly_sorted(strings_view(final(sorted)@)),
        strings_view(final(sorted)@).to_set() == strings_view(old(sorted)@).to_set().insert(p@),
{
    let ghost s = strings_view(sorted@);
    let mut k: usize = 0;
    while k < sorted.len() && path_before_exec(&sorted[k], &p)
        invariant
            k <= sorted@.len(),
            s == strings_view(sorted@),
            strictly_sorted(s),
            forall|i: int| 0 <= i < k ==> path_before(#[trigger] s[i], p@),
        decreases sorted@.len() - k,
    {
        k += 1;
    }
    if k < sorted.len() && !path_before_exec(&p, &sorted[k]) {
        proof {
            lemma_path_before_total(s[k as int], p@);
            assert(s[k as int] == p@);
            assert(s.to_set().insert(p@) =~= s.to_set());
        }
        return;
    }
    proof {
        if k < s.len() {
            lemma_path_before_total(s[k as int], p@);
        }
    }
    sorted.insert(k, p);
    proof {
        let t = strings_view(sorted@);
        assert(t =~= s.insert(k as int, p@));
        assert forall|i: int, j: int| 0 <= i < j < t.len() implies path_before(
            #[trigger] t[i],
            #[trigger] t[j],
        ) by {
            if i < k && j == k {
            } else if i < k && j > k {
                assert(t[j] == s[j - 1]);
                assert(path_before(s[i], s[j - 1]));
            } else if i == k {
                assert(t[j] == s[j - 1]);
                if j - 1 > k {
                    assert(path_before(s[k as int], s[j - 1]));
                    lemma_path_before_transitive(p@, s[k as int], s[j - 1]);
                }
            } else if i > k {
                assert(t[i] == s[i - 1] && t[j] == s[j - 1]);
            }
        }
        assert forall|x: Seq<char>| #[trigger] t.to_set().contains(x) == s.to_set().insert(
            p@,
        ).contains(x) by {
            if t.to_set().contains(x) {
                let i = choose|i: int| 0 <= i < t.len() && t[i] == x;
                if i < k {
                    assert(s[i] == x);
                } else if i > k {
                    assert(s[i - 1] == x);
                }
            }
            if s.to_set().contains(x) {
                let i = choose|i: int| 0 <= i < s.len() && s[i] == x;
                if i < k {
                    assert(t[i] == x);
                } else {
                    assert(t[i + 1] == x);
                }
            }
            if x == p@ {
                assert(t[k as int] == x);
            }
        }
        assert(t.to_set() =~= s.to_set().insert(p@));
    }
}

/// The paths of `list` sorted in path order, each once.
pub fn sorted_paths(list: Vec<String>) -> (r: Vec<String>)
    ensures
        strictly_sorted(strings_view(r@)),
        strings_view(r@).to_set() == strings_view(list@).to_set(),
{
    let mut sorted: Vec<String> = Vec::new();
    let mut k: usize = 0;
    assert(strings_view(sorted@).to_set() =~= strings_view(list@).take(0).to_set());
    while k < list.len()
        invariant
            k <= list@.len(),
            strictly_sorted(strings_view(sorted@)),
            strings_view(sorted@).to_set() == strings_view(list@).take(k as int).to_set(),
        decreases list@.len() - k,
    {
        insert_path(&mut sorted, list[k].clone());
        proof {
            let l = strings_view(list@);
            assert(l.take(k + 1) =~= l.take(k as int).push(l[k as int]));
            l.take(k as int).lemma_push_to_set_commute(l[k as int]);
        }
        k += 1;
    }
    assert(strings_view(list@).take(strings_view(list@).len() as int) =~= strings_view(list@));
    sorted
}

proof fn lemma_sorted_tail(s: Seq<Seq<char>>)
    requires
        strictly_sorted(s),
        s.len() > 0,
    ensures
        strictly_sorted(s.drop_first()),
        !s.drop_first().to_set().contains(s[0]),
        s.to_set() == s.drop_first().to_set().insert(s[0]),
{
    let t = s.drop_first();
    assert forall|i: int, j: int| 0 <= i < j < t.len() implies path_before(
        #[trigger] t[i],
        #[trigger] t[j],
    ) by {
        assert(t[i] == s[i + 1] && t[j] == s[j + 1]);
    }
    if t.to_set().contains(s[0]) {
        let k = choose|k: int| 0 <= k < t.len() && t[k] == s[0];
        assert(path_before(s[0], s[k + 1]));
        lemma_path_before_irreflexive(s[0]);
    }
    assert(s =~= seq![s[0]] + t);
    assert forall|x: Seq<char>| #[trigger] s.to_set().contains(x) == t.to_set().insert(s[0]).contains(
        x,
    ) by {
        if s.to_set().contains(x) {
            let k = choose|k: int| 0 <= k < s.len() && s[k] == x;
            if k > 0 {
                assert(t[k - 1] == x);
            }
        }
        if t.to_set().contains(x) {
            let k = choose|k: int| 0 <= k < t.len() && t[k] == x;
            assert(s[k + 1] == x);
        }
        if x == s[0] {
            assert(s.contains(x));
        }
    }
    assert(s.to_set() =~= t.to_set().insert(s[0]));
}

/// A sorted, repeat-free list of paths is fixed by the paths it holds: two
/// such lists with the same paths are the same list.
pub proof fn law_sorted_paths_are_determined(a: Seq<Seq<char>>, b: Seq<Seq<char>>)
    requires
        strictly_sorted(a),
        strictly_sorted(b),
        a.to_set() == b.to_set(),
    ensures
        a == b,
    decreases a.len(),
{
    if a.len() == 0 {
        if b.len() > 0 {
            assert(b.to_set().contains(b[0]));
        }
        assert(a =~= b);
    } else if b.len() == 0 {
        assert(a.to_set().contains(a[0]));
    } else {
        assert(a.to_set().contains(a[0]));
        assert(b.to_set().contains(b[0]));
        let k = choose|k: int| 0 <= k < b.len() && b[k] == a[0];
        let m = choose|m: int| 0 <= m < a.len() && a[m] == b[0];
        if k > 0 {
            assert(path_before(b[0], b[k]));
            if m > 0 {
                assert(path_before(a[0], a[m]));
                lemma_path_before_total(a[0], b[0]);
            } else {
                lemma_path_before_irreflexive(a[0]);
            }
        }
        assert(a[0] == b[0]);
        lemma_sorted_tail(a);
        lemma_sorted_tail(b);
        let ta = a.drop_first();
        let tb = b.drop_first();
        assert forall|x: Seq<char>| #[trigger] ta.to_set().contains(x) == tb.to_set().contains(x) by {
            if ta.to_set().contains(x) {
                assert(x != a[0]);
                assert(ta.to_set().insert(a[0]).contains(x));
                assert(b.to_set().contains(x));
                assert(tb.to_set().insert(b[0]).contains(x));
            }
            if tb.to_set().contains(x) {
                assert(x != b[0]);
                assert(tb.to_set().insert(b[0]).contains(x));
                assert(a.to_set().contains(x));
                assert(ta.to_set().insert(a[0]).contains(x));
            }
        }
        assert(ta.to_set() =~= tb.to_set());
        law_sorted_paths_are_determined(ta, tb);
        assert(a =~= seq![a[0]] + ta);
        assert(b =~= seq![b[0]] + tb);
    }
}

} // verus!
