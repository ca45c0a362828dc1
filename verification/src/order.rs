//! The order of names: character by character, a proper prefix first.

use vstd::prelude::*;

verus! {

/// Whether `a` comes before `b`, given that they agree before position `from`.
pub open spec fn precedes_from(a: Seq<char>, b: Seq<char>, from: int) -> bool
    decreases a.len() - from,
{
    if from < 0 || from >= b.len() {
        false
    } else if from >= a.len() {
        true
    } else if a[from] != b[from] {
        a[from] < b[from]
    } else {
        precedes_from(a, b, from + 1)
    }
}

/// Whether `a` comes before `b`: at the first position where they differ `a`
/// has the lesser character, or `a` ends there and `b` goes on.
pub open spec fn precedes(a: Seq<char>, b: Seq<char>) -> bool {
    precedes_from(a, b, 0)
}

/// Whether each name of `names` comes before all that follow it.
pub open spec fn ascending(names: Seq<Seq<char>>) -> bool {
    forall|i: int, j: int| 0 <= i < j < names.len() ==> precedes(names[i], names[j])
}

/// From no position on does a name come before itself.
proof fn lemma_precedes_from_irreflexive(a: Seq<char>, from: int)
    ensures
        !precedes_from(a, a, from),
    decreases a.len() - from,
{
    if 0 <= from < a.len() {
        lemma_precedes_from_irreflexive(a, from + 1);
    }
}

/// From one position on, at most one of two names comes before the other.
proof fn lemma_precedes_from_asymmetric(a: Seq<char>, b: Seq<char>, from: int)
    requires
        precedes_from(a, b, from),
    ensures
        !precedes_from(b, a, from),
    decreases a.len() - from,
{
    if 0 <= from < a.len() && from < b.len() && a[from] == b[from] {
        lemma_precedes_from_asymmetric(a, b, from + 1);
    }
}

/// From one position on, coming before carries over from name to name.
proof fn lemma_precedes_from_transitive(a: Seq<char>, b: Seq<char>, c: Seq<char>, from: int)
    requires
        precedes_from(a, b, from),
        precedes_from(b, c, from),
    ensures
        precedes_from(a, c, from),
    decreases a.len() - from,
{
    if 0 <= from < a.len() && from < b.len() && from < c.len() && a[from] == b[from] && b[from]
        == c[from] {
        lemma_precedes_from_transitive(a, b, c, from + 1);
    }
}

/// Of two different names that agree before a position, one comes before
/// the other from that position on.
proof fn lemma_precedes_from_total(a: Seq<char>, b: Seq<char>, from: int)
    requires
        0 <= from <= a.len(),
        from <= b.len(),
        a.take(from) == b.take(from),
        a != b,
    ensures
        precedes_from(a, b, from) || precedes_from(b, a, from),
    decreases a.len() - from,
{
    if from < a.len() && from < b.len() && a[from] == b[from] {
        assert(a.take(from + 1) =~= a.take(from).push(a[from]));
        assert(b.take(from + 1) =~= b.take(from).push(b[from]));
        lemma_precedes_from_total(a, b, from + 1);
    } else if from == a.len() && from == b.len() {
        assert(a.take(from) == a);
        assert(b.take(from) == b);
    }
}

/// No name comes before itself.
pub proof fn lemma_precedes_irreflexive(a: Seq<char>)
    ensures
        !precedes(a, a),
{
    lemma_precedes_from_irreflexive(a, 0);
}

/// Of two names at most one comes before the other.
pub proof fn lemma_precedes_asymmetric(a: Seq<char>, b: Seq<char>)
    requires
        precedes(a, b),
    ensures
        !precedes(b, a),
{
    lemma_precedes_from_asymmetric(a, b, 0);
}

/// What comes before a name comes before all that the name comes before.
pub proof fn lemma_precedes_transitive(a: Seq<char>, b: Seq<char>, c: Seq<char>)
    requires
        precedes(a, b),
        precedes(b, c),
    ensures
        precedes(a, c),
{
    lemma_precedes_from_transitive(a, b, c, 0);
}

/// Of two different names one comes before the other.
pub proof fn lemma_precedes_total(a: Seq<char>, b: Seq<char>)
    requires
        a != b,
    ensures
        precedes(a, b) || precedes(b, a),
{
    assert(a.take(0) =~= b.take(0));
    lemma_precedes_from_total(a, b, 0);
}

/// Two ascending lists that hold the same names are one list.
pub proof fn lemma_ascending_unique(x: Seq<Seq<char>>, y: Seq<Seq<char>>)
    requires
        ascending(x),
        ascending(y),
        forall|name: Seq<char>| x.contains(name) <==> y.contains(name),
    ensures
        x == y,
    decreases x.len(),
{
    if x.len() == 0 {
        if y.len() > 0 {
            assert(y.contains(y[0]));
        }
        assert(x =~= y);
    } else {
        let top = x.last();
        assert(x.contains(top));
        assert(y.contains(top));
        let at = choose|k: int| 0 <= k < y.len() && y[k] == top;
        if at < y.len() - 1 {
            let above = y.last();
            assert(y.contains(above));
            let k = choose|k: int| 0 <= k < x.len() && x[k] == above;
            assert(precedes(top, above));
            if k < x.len() - 1 {
                lemma_precedes_asymmetric(top, above);
            } else {
                lemma_precedes_irreflexive(top);
            }
        }
        let xs = x.drop_last();
        let ys = y.drop_last();
        assert forall|name: Seq<char>| xs.contains(name) <==> ys.contains(name) by {
            if xs.contains(name) {
                let k = choose|k: int| 0 <= k < xs.len() && xs[k] == name;
                assert(x[k] == name);
                assert(x.contains(name));
                let m = choose|m: int| 0 <= m < y.len() && y[m] == name;
                if m == y.len() - 1 {
                    assert(precedes(x[k], x.last()));
                    lemma_precedes_irreflexive(name);
                }
                assert(ys[m] == name);
            }
            if ys.contains(name) {
                let k = choose|k: int| 0 <= k < ys.len() && ys[k] == name;
                assert(y[k] == name);
                assert(y.contains(name));
                let m = choose|m: int| 0 <= m < x.len() && x[m] == name;
                if m == x.len() - 1 {
                    assert(precedes(y[k], y.last()));
                    lemma_precedes_irreflexive(name);
                }
                assert(xs[m] == name);
            }
        }
        lemma_ascending_unique(xs, ys);
        assert(x =~= xs.push(top));
        assert(y =~= ys.push(top));
    }
}

/// Whether `a` comes before `b` in the order of names.
pub fn comes_before(a: &Vec<char>, b: &Vec<char>) -> (before: bool)
    ensures
        before == precedes(a@, b@),
{
    let mut i: usize = 0;
    loop
        invariant
            i <= a.len(),
            i <= b.len(),
            precedes(a@, b@) == precedes_from(a@, b@, i as int),
        decreases a.len() - i,
    {
        if i >= b.len() {
            return false;
        }
        if i >= a.len() {
            return true;
        }
        if a[i] != b[i] {
            return a[i] < b[i];
        }
        i = i + 1;
    }
}

} // verus!
