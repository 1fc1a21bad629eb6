//! A map from paths to values that hands its entries out in the order of the paths.

use vstd::prelude::*;

use crate::strings::chars_of;
use crate::text::Text;

verus! {

// ---------------------------------------------------------------------------
// The order of texts
// ---------------------------------------------------------------------------

/// Whether `a` comes before `b` in the order of texts: by the first character in which they
/// differ, and a text before its own continuations.
pub open spec fn before(a: Text, b: Text) -> bool
    decreases a.len(),
{
    if b.len() == 0 {
        false
    } else if a.len() == 0 {
        true
    } else {
        a[0] < b[0] || (a[0] == b[0] && before(a.drop_first(), b.drop_first()))
    }
}

/// Whether each text comes before all that follow it.
pub open spec fn ascending(s: Seq<Text>) -> bool {
    forall|i: int, j: int| 0 <= i < j < s.len() ==> before(#[trigger] s[i], #[trigger] s[j])
}

/// No text comes before itself.
pub proof fn before_is_irreflexive(a: Text)
    ensures
        !before(a, a),
    decreases a.len(),
{
    if a.len() > 0 {
        before_is_irreflexive(a.drop_first());
    }
}

/// What comes before a text comes before all that the text comes before.
pub proof fn before_is_transitive(a: Text, b: Text, c: Text)
    requires
        before(a, b),
        before(b, c),
    ensures
        before(a, c),
    decreases a.len(),
{
    if a.len() > 0 && a[0] == b[0] && b[0] == c[0] {
        before_is_transitive(a.drop_first(), b.drop_first(), c.drop_first());
    }
}

/// Of two different texts one comes before the other.
pub proof fn before_is_total(a: Text, b: Text)
    ensures
        a == b || before(a, b) || before(b, a),
    decreases a.len(),
{
    if a.len() == 0 {
        if b.len() == 0 {
            assert(a =~= b);
        }
    } else if b.len() > 0 && a[0] == b[0] {
        before_is_total(a.drop_first(), b.drop_first());
        if a.drop_first() == b.drop_first() {
            assert(a =~= seq![a[0]] + a.drop_first());
            assert(b =~= seq![b[0]] + b.drop_first());
        }
    }
}

/// The first character in which two texts differ decides which comes first, and a text comes
/// before its continuations.
pub proof fn first_difference_decides(common: Text, a: char, u: Text, b: char, v: Text)
    ensures
        before(common, common + seq![a] + u),
        !before(common + seq![a] + u, common),
        a != b ==> before(common + seq![a] + u, common + seq![b] + v) == ((a as u32) < (b as u32)),
    decreases common.len(),
{
    let x = common + seq![a] + u;
    let y = common + seq![b] + v;
    if common.len() > 0 {
        let rest = common.drop_first();
        assert(x.drop_first() =~= rest + seq![a] + u);
        assert(y.drop_first() =~= rest + seq![b] + v);
        first_difference_decides(rest, a, u, b, v);
    } else {
        assert(x[0] == a && y[0] == b);
    }
}

/// Two ascending sequences of the same texts are the same sequence.
pub proof fn ascending_is_unique(a: Seq<Text>, b: Seq<Text>)
    requires
        ascending(a),
        ascending(b),
        forall|p: Text| a.contains(p) <==> b.contains(p),
    ensures
        a == b,
    decreases a.len(),
{
    if a.len() == 0 {
        if b.len() > 0 {
            assert(b.contains(b[0]));
        }
        assert(a =~= b);
    } else {
        assert(a.contains(a.last()));
        let j = choose|j: int| 0 <= j < b.len() && b[j] == a.last();
        assert(b.contains(b.last()));
        let i = choose|i: int| 0 <= i < a.len() && a[i] == b.last();
        if a.last() != b.last() {
            assert(before(b[j], b[b.len() - 1]));
            assert(before(a[i], a[a.len() - 1]));
            before_is_transitive(a.last(), b.last(), a.last());
            before_is_irreflexive(a.last());
        }
        let ra = a.drop_last();
        let rb = b.drop_last();
        assert forall|p: Text| ra.contains(p) <==> rb.contains(p) by {
            before_is_irreflexive(p);
            if ra.contains(p) {
                let k = choose|k: int| 0 <= k < ra.len() && ra[k] == p;
                assert(a[k] == p);
                assert(before(a[k], a[a.len() - 1]));
                assert(b.contains(p));
                let m = choose|m: int| 0 <= m < b.len() && b[m] == p;
                assert(rb[m] == p);
            }
            if rb.contains(p) {
                let k = choose|k: int| 0 <= k < rb.len() && rb[k] == p;
                assert(b[k] == p);
                assert(before(b[k], b[b.len() - 1]));
                assert(a.contains(p));
                let m = choose|m: int| 0 <= m < a.len() && a[m] == p;
                assert(ra[m] == p);
            }
        }
        assert(ascending(ra)) by {
            assert forall|x: int, y: int| 0 <= x < y < ra.len() implies before(
                #[trigger] ra[x],
                #[trigger] ra[y],
            ) by {
                assert(before(a[x], a[y]));
            }
        }
        assert(ascending(rb)) by {
            assert forall|x: int, y: int| 0 <= x < y < rb.len() implies before(
                #[trigger] rb[x],
                #[trigger] rb[y],
            ) by {
                assert(before(b[x], b[y]));
            }
        }
        ascending_is_unique(ra, rb);
        assert(a =~= ra.push(a.last()));
        assert(b =~= rb.push(b.last()));
    }
}

/// Whether `paths` and `values` are the entries of `map` in the order of the paths.
pub open spec fn lists<V>(paths: Seq<Text>, values: Seq<V>, map: Map<Text, V>) -> bool {
    &&& paths.len() == values.len()
    &&& ascending(paths)
    &&& forall|i: int|
        0 <= i < paths.len() ==> map.contains_key(#[trigger] paths[i]) && map[paths[i]]
            == values[i]
    &&& forall|p: Text| #[trigger] map.contains_key(p) ==> paths.contains(p)
}

/// A map has no more than one listing.
pub proof fn listing_is_unique<V>(
    paths: Seq<Text>,
    values: Seq<V>,
    other_paths: Seq<Text>,
    other_values: Seq<V>,
    map: Map<Text, V>,
)
    requires
        lists(paths, values, map),
        lists(other_paths, other_values, map),
    ensures
        paths == other_paths,
        values == other_values,
{
    assert forall|p: Text| paths.contains(p) <==> other_paths.contains(p) by {
        if paths.contains(p) {
            let i = choose|i: int| 0 <= i < paths.len() && paths[i] == p;
            assert(map.contains_key(paths[i]));
        }
        if other_paths.contains(p) {
            let i = choose|i: int| 0 <= i < other_paths.len() && other_paths[i] == p;
            assert(map.contains_key(other_paths[i]));
        }
    }
    ascending_is_unique(paths, other_paths);
    assert forall|i: int| 0 <= i < values.len() implies values[i] == other_values[i] by {
        assert(map[paths[i]] == values[i]);
        assert(map[other_paths[i]] == other_values[i]);
    }
    assert(values =~= other_values);
}

/// An ascending sequence takes up one more text at its place.
proof fn take_up(s: Seq<Text>, p: Text) -> (r: Seq<Text>)
    requires
        ascending(s),
        !s.contains(p),
    ensures
        ascending(r),
        forall|q: Text| #[trigger] r.contains(q) <==> s.contains(q) || q == p,
    decreases s.len(),
{
    if s.len() == 0 || before(s.last(), p) {
        let r = s.push(p);
        assert forall|i: int, j: int| 0 <= i < j < r.len() implies before(
            #[trigger] r[i],
            #[trigger] r[j],
        ) by {
            if j == s.len() && i < s.len() - 1 {
                assert(before(s[i], s[s.len() - 1]));
                before_is_transitive(s[i], s.last(), p);
            }
        }
        assert forall|q: Text| #[trigger] r.contains(q) <==> s.contains(q) || q == p by {
            assert(r[s.len() as int] == p);
            if s.contains(q) {
                let k = choose|k: int| 0 <= k < s.len() && s[k] == q;
                assert(r[k] == q);
            }
        }
        r
    } else {
        let front = s.drop_last();
        let last = s.last();
        assert(s.contains(last));
        before_is_total(last, p);
        assert(!front.contains(p)) by {
            if front.contains(p) {
                let k = choose|k: int| 0 <= k < front.len() && front[k] == p;
                assert(s[k] == p);
            }
        }
        assert(ascending(front)) by {
            assert forall|i: int, j: int| 0 <= i < j < front.len() implies before(
                #[trigger] front[i],
                #[trigger] front[j],
            ) by {
                assert(before(s[i], s[j]));
            }
        }
        let t = take_up(front, p);
        let r = t.push(last);
        assert forall|i: int, j: int| 0 <= i < j < r.len() implies before(
            #[trigger] r[i],
            #[trigger] r[j],
        ) by {
            if j == t.len() {
                assert(t.contains(t[i]));
                if t[i] != p {
                    let k = choose|k: int| 0 <= k < front.len() && front[k] == t[i];
                    assert(before(s[k], s[s.len() - 1]));
                }
            } else {
                assert(before(t[i], t[j]));
            }
        }
        assert forall|q: Text| #[trigger] r.contains(q) <==> s.contains(q) || q == p by {
            assert(r[t.len() as int] == last);
            if r.contains(q) && q != last {
                let k = choose|k: int| 0 <= k < r.len() && r[k] == q;
                assert(t[k] == q);
                assert(t.contains(q));
                if q != p {
                    let m = choose|m: int| 0 <= m < front.len() && front[m] == q;
                    assert(s[m] == q);
                }
            }
            if s.contains(q) && q != last {
                let k = choose|k: int| 0 <= k < s.len() && s[k] == q;
                assert(front[k] == q);
                assert(t.contains(q));
            }
            if t.contains(q) {
                let k = choose|k: int| 0 <= k < t.len() && t[k] == q;
                assert(r[k] == q);
            }
        }
        r
    }
}

/// The texts of a finite set, in ascending order.
pub proof fn ascending_exists(texts: Set<Text>) -> (r: Seq<Text>)
    requires
        texts.finite(),
    ensures
        ascending(r),
        forall|q: Text| #[trigger] r.contains(q) <==> texts.contains(q),
    decreases texts.len(),
{
    if texts.len() == 0 {
        let r = Seq::<Text>::empty();
        assert(texts =~= Set::empty());
        r
    } else {
        let p = texts.choose();
        let rest = ascending_exists(texts.remove(p));
        let r = take_up(rest, p);
        assert forall|q: Text| #[trigger] r.contains(q) <==> texts.contains(q) by {
            assert(rest.contains(q) <==> texts.remove(p).contains(q));
        }
        r
    }
}

/// A map of finitely many paths has a listing.
pub proof fn listing_exists<V>(map: Map<Text, V>) -> (r: (Seq<Text>, Seq<V>))
    requires
        map.dom().finite(),
    ensures
        lists(r.0, r.1, map),
{
    let paths = ascending_exists(map.dom());
    let values = paths.map_values(|p: Text| map[p]);
    assert forall|i: int| 0 <= i < paths.len() implies map.contains_key(#[trigger] paths[i])
        && map[paths[i]] == values[i] by {
        assert(paths.contains(paths[i]));
    }
    (paths, values)
}

/// Whether `a` comes before `b`.
pub fn comes_before(a: &str, b: &str) -> (r: bool)
    ensures
        r == before(a@, b@),
{
    let x = chars_of(a);
    let y = chars_of(b);
    let mut i: usize = 0;
    assert(a@.skip(0) =~= a@);
    assert(b@.skip(0) =~= b@);
    loop
        invariant
            x@ == a@,
            y@ == b@,
            i <= x@.len(),
            i <= y@.len(),
            before(a@, b@) == before(a@.skip(i as int), b@.skip(i as int)),
        decreases x@.len() - i,
    {
        if i == y.len() {
            return false;
        }
        if i == x.len() {
            return true;
        }
        if x[i] != y[i] {
            return x[i] < y[i];
        }
        assert(a@.skip(i as int).drop_first() =~= a@.skip(i as int + 1));
        assert(b@.skip(i as int).drop_first() =~= b@.skip(i as int + 1));
        i += 1;
    }
}

// ---------------------------------------------------------------------------
// The map
// ---------------------------------------------------------------------------

/// A map from paths to values. The paths stand in ascending order, each once, and
/// `values[i]` belongs to `paths[i]`.
pub struct PathMap<V> {
    paths: Vec<String>,
    values: Vec<V>,
}

impl<V: DeepView> PathMap<V> {
    /// The paths are ascending, and each has a value.
    pub closed spec fn wf(self) -> bool {
        &&& self.paths@.len() == self.values@.len()
        &&& ascending(self.paths.deep_view())
    }

    /// The value of each path.
    pub closed spec fn view(self) -> Map<Text, V::V> {
        let paths = self.paths.deep_view();
        let values = self.values.deep_view();
        Map::new(|p: Text| paths.contains(p), |p: Text| values[paths.index_of(p)])
    }

    /// The two vectors list the map.
    proof fn lists_itself(self)
        requires
            self.wf(),
        ensures
            lists(self.paths.deep_view(), self.values.deep_view(), self.view()),
    {
        let paths = self.paths.deep_view();
        let values = self.values.deep_view();
        assert forall|i: int| 0 <= i < paths.len() implies self.view().contains_key(
            #[trigger] paths[i],
        ) && self.view()[paths[i]] == values[i] by {
            assert(paths.contains(paths[i]));
            let k = paths.index_of(paths[i]);
            assert(0 <= k < paths.len() && paths[k] == paths[i]);
            before_is_irreflexive(paths[i]);
            if k < i {
                assert(before(paths[k], paths[i]));
            } else if i < k {
                assert(before(paths[i], paths[k]));
            }
        }
    }

    /// The empty map.
    pub fn new() -> (r: Self)
        ensures
            r.wf(),
            r.view() == Map::<Text, V::V>::empty(),
    {
        let r = PathMap { paths: Vec::new(), values: Vec::new() };
        assert(r.view() =~= Map::<Text, V::V>::empty());
        r
    }

    /// How many paths come before `path`, and whether `path` itself is there.
    fn slot(&self, path: &str) -> (r: (usize, bool))
        requires
            self.wf(),
        ensures
            r.0 <= self.paths@.len(),
            forall|k: int| 0 <= k < r.0 ==> before(#[trigger] self.paths@[k]@, path@),
            r.1 ==> r.0 < self.paths@.len() && self.paths@[r.0 as int]@ == path@,
            !r.1 ==> forall|k: int|
                r.0 <= k < self.paths@.len() ==> before(path@, #[trigger] self.paths@[k]@),
    {
        let ghost paths = self.paths.deep_view();
        let mut low: usize = 0;
        let mut high: usize = self.paths.len();
        while low < high
            invariant
                self.wf(),
                paths == self.paths.deep_view(),
                low <= high <= self.paths@.len(),
                forall|k: int| 0 <= k < low ==> before(#[trigger] self.paths@[k]@, path@),
                forall|k: int|
                    high <= k < self.paths@.len() ==> !before(#[trigger] self.paths@[k]@, path@),
            decreases high - low,
        {
            let middle: usize = low + (high - low) / 2;
            if comes_before(self.paths[middle].as_str(), path) {
                assert forall|k: int| 0 <= k < middle + 1 implies before(
                    #[trigger] self.paths@[k]@,
                    path@,
                ) by {
                    if k < middle {
                        assert(before(paths[k], paths[middle as int]));
                        before_is_transitive(paths[k], paths[middle as int], path@);
                    }
                }
                low = middle + 1;
            } else {
                assert forall|k: int| middle <= k < self.paths@.len() implies !before(
                    #[trigger] self.paths@[k]@,
                    path@,
                ) by {
                    if middle < k && before(self.paths@[k]@, path@) {
                        assert(before(paths[middle as int], paths[k]));
                        before_is_transitive(paths[middle as int], paths[k], path@);
                    }
                }
                high = middle;
            }
        }
        if low < self.paths.len() && !comes_before(path, self.paths[low].as_str()) {
            proof {
                before_is_total(path@, self.paths@[low as int]@);
            }
            (low, true)
        } else {
            assert forall|k: int| low <= k < self.paths@.len() implies before(
                path@,
                #[trigger] self.paths@[k]@,
            ) by {
                if low < k {
                    assert(before(paths[low as int], paths[k]));
                    before_is_transitive(path@, paths[low as int], paths[k]);
                }
            }
            (low, false)
        }
    }

    /// The value of `path`.
    pub fn get(&self, path: &str) -> (r: Option<&V>)
        requires
            self.wf(),
        ensures
            match r {
                Some(v) => self.view().contains_key(path@) && self.view()[path@]
                    == v.deep_view(),
                None => !self.view().contains_key(path@),
            },
    {
        let found = self.slot(path);
        proof {
            self.lists_itself();
        }
        if found.1 {
            assert(self.paths.deep_view()[found.0 as int] == path@);
            Some(&self.values[found.0])
        } else {
            proof {
                let paths = self.paths.deep_view();
                if paths.contains(path@) {
                    let k = choose|k: int| 0 <= k < paths.len() && paths[k] == path@;
                    assert(self.paths@[k]@ == path@);
                    before_is_irreflexive(path@);
                }
            }
            None
        }
    }

    /// Gives `path` the value `value`, in place of the one it has, if any.
    pub fn insert(&mut self, path: String, value: V)
        requires
            old(self).wf(),
        ensures
            final(self).wf(),
            final(self).view() == old(self).view().insert(path@, value.deep_view()),
    {
        let found = self.slot(path.as_str());
        let ghost paths = self.paths.deep_view();
        let ghost values = self.values.deep_view();
        let ghost at = found.0 as int;
        proof {
            self.lists_itself();
        }
        if found.1 {
            self.values[found.0] = value;
            proof {
                assert(self.paths.deep_view() == paths);
                assert(self.values.deep_view() =~= values.update(at, value.deep_view()));
            }
        } else {
            self.paths.insert(found.0, path);
            self.values.insert(found.0, value);
            proof {
                let new_paths = self.paths.deep_view();
                assert(new_paths =~= paths.insert(at, path@));
                assert(self.values.deep_view() =~= values.insert(at, value.deep_view()));
                assert forall|i: int, j: int| 0 <= i < j < new_paths.len() implies before(
                    #[trigger] new_paths[i],
                    #[trigger] new_paths[j],
                ) by {
                    let x = if i < at {
                        i
                    } else {
                        i - 1
                    };
                    let y = if j < at {
                        j
                    } else {
                        j - 1
                    };
                    if i != at {
                        assert(new_paths[i] == paths[x]);
                        assert(paths[x] == old(self).paths@[x]@);
                    }
                    if j != at {
                        assert(new_paths[j] == paths[y]);
                        assert(paths[y] == old(self).paths@[y]@);
                    }
                    if i != at && j != at {
                        assert(before(paths[x], paths[y]));
                    }
                }
            }
        }
        proof {
            self.lists_itself();
            let wanted = old(self).view().insert(path@, value.deep_view());
            let new_paths = self.paths.deep_view();
            assert(new_paths[at] == path@);
            assert forall|p: Text| self.view().contains_key(p) <==> wanted.contains_key(p) by {
                if self.view().contains_key(p) {
                    assert(new_paths.contains(p));
                    let k = choose|k: int| 0 <= k < new_paths.len() && new_paths[k] == p;
                    if k != at {
                        let x = if found.1 || k < at {
                            k
                        } else {
                            k - 1
                        };
                        assert(paths[x] == p);
                    }
                }
                if wanted.contains_key(p) && p != path@ {
                    assert(paths.contains(p));
                    let k = choose|k: int| 0 <= k < paths.len() && paths[k] == p;
                    let x = if found.1 || k < at {
                        k
                    } else {
                        k + 1
                    };
                    assert(new_paths[x] == p);
                }
            }
            assert forall|p: Text| self.view().contains_key(p) implies self.view()[p]
                == wanted[p] by {
                assert(new_paths.contains(p));
                let k = choose|k: int| 0 <= k < new_paths.len() && new_paths[k] == p;
                if k != at {
                    let x = if found.1 || k < at {
                        k
                    } else {
                        k - 1
                    };
                    assert(paths[x] == p);
                    assert(old(self).view()[paths[x]] == values[x]);
                    if found.1 {
                        before_is_irreflexive(p);
                        if k < at {
                            assert(before(new_paths[k], new_paths[at]));
                        } else {
                            assert(before(new_paths[at], new_paths[k]));
                        }
                    } else if p == path@ {
                        before_is_irreflexive(p);
                        assert(paths[x] == old(self).paths@[x]@);
                    }
                }
            }
            assert(self.view() =~= wanted);
        }
    }

    /// The paths and their values, in the order of the paths.
    pub fn into_entries(self) -> (r: (Vec<String>, Vec<V>))
        requires
            self.wf(),
        ensures
            lists(r.0.deep_view(), r.1.deep_view(), self.view()),
    {
        proof {
            self.lists_itself();
        }
        (self.paths, self.values)
    }
}

} // verus!
