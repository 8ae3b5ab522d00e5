//! Names in order.
use crate::text::to_chars;
use vstd::prelude::*;

verus! {

/// Whether a text comes before another: at the first place where they differ it has the lower
/// character, or it ends there.
pub open spec fn text_before(a: Seq<char>, b: Seq<char>) -> bool
    decreases a.len(),
{
    if b.len() == 0 {
        false
    } else if a.len() == 0 {
        true
    } else if a[0] != b[0] {
        a[0] < b[0]
    } else {
        text_before(a.drop_first(), b.drop_first())
    }
}

pub proof fn lemma_before_irreflexive(a: Seq<char>)
    ensures
        !text_before(a, a),
    decreases a.len(),
{
    if a.len() > 0 {
        lemma_before_irreflexive(a.drop_first());
    }
}

pub proof fn lemma_before_transitive(a: Seq<char>, b: Seq<char>, c: Seq<char>)
    requires
        text_before(a, b),
        text_before(b, c),
    ensures
        text_before(a, c),
    decreases a.len(),
{
    if a.len() > 0 && a[0] == b[0] && b[0] == c[0] {
        lemma_before_transitive(a.drop_first(), b.drop_first(), c.drop_first());
    }
}

pub proof fn lemma_before_total(a: Seq<char>, b: Seq<char>)
    ensures
        text_before(a, b) || text_before(b, a) || a == b,
    decreases a.len(),
{
    if a.len() == 0 {
        if b.len() == 0 {
            assert(a =~= b);
        }
    } else if b.len() > 0 && a[0] == b[0] {
        lemma_before_total(a.drop_first(), b.drop_first());
        if a.drop_first() == b.drop_first() {
            assert(a =~= seq![a[0]] + a.drop_first());
            assert(b =~= seq![b[0]] + b.drop_first());
        }
    }
}

/// Where a text comes with respect to another.
#[derive(Debug, Clone, Copy, PartialEq, Eq, Structural)]
pub enum Standing {
    Before,
    Same,
    Behind,
}

/// Where a text comes with respect to another.
pub fn standing(a: &str, b: &str) -> (r: Standing)
    ensures
        r == Standing::Before <==> text_before(a@, b@),
        r == Standing::Same <==> a@ == b@,
        r == Standing::Behind <==> text_before(b@, a@),
{
    let x = to_chars(a);
    let y = to_chars(b);
    proof {
        lemma_before_total(a@, b@);
        lemma_before_irreflexive(a@);
        if text_before(a@, b@) && text_before(b@, a@) {
            lemma_before_transitive(a@, b@, a@);
        }
    }
    let mut i: usize = 0;
    assert(a@.skip(0) =~= a@);
    assert(b@.skip(0) =~= b@);
    while i < x.len() && i < y.len()
        invariant
            x@ == a@,
            y@ == b@,
            i <= x.len(),
            i <= y.len(),
            a@.take(i as int) == b@.take(i as int),
            text_before(a@, b@) == text_before(a@.skip(i as int), b@.skip(i as int)),
            text_before(b@, a@) == text_before(b@.skip(i as int), a@.skip(i as int)),
            text_before(a@, b@) || text_before(b@, a@) || a@ == b@,
            !text_before(a@, a@),
            !(text_before(a@, b@) && text_before(b@, a@)),
        decreases x.len() - i,
    {
        let ghost s = a@.skip(i as int);
        let ghost t = b@.skip(i as int);
        assert(s[0] == x@[i as int] && t[0] == y@[i as int]);
        if x[i] < y[i] {
            return Standing::Before;
        }
        if y[i] < x[i] {
            return Standing::Behind;
        }
        proof {
            assert(s.drop_first() =~= a@.skip(i + 1));
            assert(t.drop_first() =~= b@.skip(i + 1));
            assert(a@.take(i + 1) =~= a@.take(i as int).push(a@[i as int]));
            assert(b@.take(i + 1) =~= b@.take(i as int).push(b@[i as int]));
        }
        i += 1;
    }
    proof {
        assert(a@ =~= a@.take(i as int) + a@.skip(i as int));
        assert(b@ =~= b@.take(i as int) + b@.skip(i as int));
    }
    if x.len() < y.len() {
        Standing::Before
    } else if y.len() < x.len() {
        Standing::Behind
    } else {
        assert(a@ =~= b@);
        Standing::Same
    }
}

pub open spec fn name_views(s: Seq<String>) -> Seq<Seq<char>> {
    Seq::new(s.len(), |i: int| s[i]@)
}

/// Whether every text comes before all that follow it.
pub open spec fn is_ascending(s: Seq<Seq<char>>) -> bool {
    forall|i: int, j: int|
        0 <= i < j < s.len() ==> text_before(#[trigger] s[i], #[trigger] s[j])
}

/// A set of names, kept in order.
#[derive(Debug)]
pub struct Names {
    pub list: Vec<String>,
}

impl View for Names {
    type V = Set<Seq<char>>;

    open spec fn view(&self) -> Set<Seq<char>> {
        name_views(self.list@).to_set()
    }
}

impl Names {
    pub open spec fn is_valid(&self) -> bool {
        is_ascending(name_views(self.list@))
    }

    pub fn new() -> (r: Names)
        ensures
            r.is_valid(),
            r@ == Set::<Seq<char>>::empty(),
    {
        let r = Names { list: Vec::new() };
        assert(r@ =~= Set::<Seq<char>>::empty());
        r
    }

    /// The place of a name, or the place where it would stand.
    fn place(&self, name: &str) -> (r: Result<usize, usize>)
        requires
            self.is_valid(),
        ensures
            match r {
                Ok(i) => i < self.list.len() && self.list@[i as int]@ == name@ && self@.contains(
                    name@,
                ),
                Err(i) => {
                    &&& i <= self.list.len()
                    &&& !self@.contains(name@)
                    &&& forall|k: int| 0 <= k < i ==> text_before(#[trigger] self.list@[k]@, name@)
                    &&& forall|k: int|
                        i <= k < self.list.len() ==> text_before(
                            name@,
                            #[trigger] self.list@[k]@,
                        )
                },
            },
    {
        let ghost views = name_views(self.list@);
        let mut i: usize = 0;
        while i < self.list.len()
            invariant
                i <= self.list.len(),
                self.is_valid(),
                views == name_views(self.list@),
                forall|k: int| 0 <= k < i ==> text_before(#[trigger] self.list@[k]@, name@),
            decreases self.list.len() - i,
        {
            match standing(self.list[i].as_str(), name) {
                Standing::Before => {},
                Standing::Same => {
                    assert(views[i as int] == name@);
                    assert(views.contains(name@));
                    return Ok(i);
                },
                Standing::Behind => {
                    proof {
                        assert forall|k: int| i <= k < self.list.len() implies text_before(
                            name@,
                            #[trigger] self.list@[k]@,
                        ) by {
                            if k > i {
                                assert(text_before(views[i as int], views[k]));
                                lemma_before_transitive(name@, views[i as int], views[k]);
                            }
                        }
                        lemma_absent(self.list@, name@, i as int);
                    }
                    return Err(i);
                },
            }
            i += 1;
        }
        proof {
            lemma_absent(self.list@, name@, i as int);
        }
        Err(i)
    }

    pub fn contains(&self, name: &str) -> (r: bool)
        requires
            self.is_valid(),
        ensures
            r == self@.contains(name@),
    {
        match self.place(name) {
            Ok(_) => true,
            Err(_) => false,
        }
    }

    /// Adds a name, if it is not there yet.
    pub fn insert(&mut self, name: &str)
        requires
            old(self).is_valid(),
        ensures
            final(self).is_valid(),
            final(self)@ == old(self)@.insert(name@),
    {
        match self.place(name) {
            Ok(_) => {
                assert(self@.insert(name@) =~= self@);
            },
            Err(i) => {
                let ghost before = name_views(self.list@);
                self.list.insert(i, name.to_owned());
                proof {
                    let after = name_views(self.list@);
                    assert(after =~= before.insert(i as int, name@));
                    assert forall|a: int, b: int| 0 <= a < b < after.len() implies text_before(
                        #[trigger] after[a],
                        #[trigger] after[b],
                    ) by {
                        let x = if a < i {
                            a
                        } else {
                            a - 1
                        };
                        let y = if b < i {
                            b
                        } else {
                            b - 1
                        };
                        if a != i && b != i {
                            assert(text_before(before[x], before[y]));
                        } else if a == i {
                            assert(after[b] == old(self).list@[y]@);
                        } else {
                            assert(after[a] == old(self).list@[x]@);
                        }
                    }
                    assert forall|n: Seq<char>| after.to_set().contains(n)
                        <==> before.to_set().insert(name@).contains(n) by {
                        if after.contains(n) {
                            let k = choose|k: int| 0 <= k < after.len() && after[k] == n;
                            if k < i {
                                assert(before[k] == n);
                            } else if k > i {
                                assert(before[k - 1] == n);
                            }
                        }
                        if before.contains(n) {
                            let k = choose|k: int| 0 <= k < before.len() && before[k] == n;
                            if k < i {
                                assert(after[k] == n);
                            } else {
                                assert(after[k + 1] == n);
                            }
                        }
                        if n == name@ {
                            assert(after[i as int] == n);
                        }
                    }
                    assert(after.to_set() =~= before.to_set().insert(name@));
                }
            },
        }
    }

    /// Takes a name out, if it is there.
    pub fn remove(&mut self, name: &str)
        requires
            old(self).is_valid(),
        ensures
            final(self).is_valid(),
            final(self)@ == old(self)@.remove(name@),
    {
        match self.place(name) {
            Ok(i) => {
                let ghost before = name_views(self.list@);
                self.list.remove(i);
                proof {
                    let after = name_views(self.list@);
                    assert(after =~= before.remove(i as int));
                    assert forall|a: int, b: int| 0 <= a < b < after.len() implies text_before(
                        #[trigger] after[a],
                        #[trigger] after[b],
                    ) by {
                        let x = if a < i {
                            a
                        } else {
                            a + 1
                        };
                        let y = if b < i {
                            b
                        } else {
                            b + 1
                        };
                        assert(text_before(before[x], before[y]));
                    }
                    assert forall|n: Seq<char>| after.to_set().contains(n)
                        <==> before.to_set().remove(name@).contains(n) by {
                        if after.contains(n) {
                            let k = choose|k: int| 0 <= k < after.len() && after[k] == n;
                            let x = if k < i {
                                k
                            } else {
                                k + 1
                            };
                            assert(before[x] == n);
                            if n == name@ {
                                if x < i {
                                    assert(text_before(before[x], before[i as int]));
                                } else {
                                    assert(text_before(before[i as int], before[x]));
                                }
                                lemma_before_irreflexive(n);
                            }
                        }
                        if before.contains(n) && n != name@ {
                            let k = choose|k: int| 0 <= k < before.len() && before[k] == n;
                            if k < i {
                                assert(after[k] == n);
                            } else {
                                assert(after[k - 1] == n);
                            }
                        }
                    }
                    assert(after.to_set() =~= before.to_set().remove(name@));
                }
            },
            Err(_) => {
                assert(self@.remove(name@) =~= self@);
            },
        }
    }

    /// The names, in order.
    pub fn names(&self) -> (r: Vec<String>)
        requires
            self.is_valid(),
        ensures
            is_ascending(name_views(r@)),
            name_views(r@).to_set() == self@,
    {
        let mut r: Vec<String> = Vec::new();
        let mut i: usize = 0;
        while i < self.list.len()
            invariant
                i <= self.list.len(),
                r.len() == i,
                forall|k: int| 0 <= k < i ==> (#[trigger] r@[k])@ == self.list@[k]@,
            decreases self.list.len() - i,
        {
            r.push(self.list[i].clone());
            i += 1;
        }
        assert(name_views(r@) =~= name_views(self.list@));
        r
    }
}

proof fn lemma_absent(list: Seq<String>, name: Seq<char>, i: int)
    requires
        0 <= i <= list.len(),
        forall|k: int| 0 <= k < i ==> text_before(#[trigger] list[k]@, name),
        forall|k: int| i <= k < list.len() ==> text_before(name, #[trigger] list[k]@),
    ensures
        !name_views(list).to_set().contains(name),
{
    lemma_before_irreflexive(name);
    if name_views(list).contains(name) {
        let k = choose|k: int| 0 <= k < list.len() && name_views(list)[k] == name;
        assert(list[k]@ == name);
    }
}

/// There is only one order of a set of names: two lists in order that hold the same names are the
/// same.
pub proof fn law_order_is_unique(a: Seq<Seq<char>>, b: Seq<Seq<char>>)
    requires
        is_ascending(a),
        is_ascending(b),
        a.to_set() == b.to_set(),
    ensures
        a == b,
    decreases a.len(),
{
    if a.len() == 0 {
        if b.len() > 0 {
            assert(b.contains(b[0]));
            assert(b.to_set().contains(b[0]));
            assert(a.contains(b[0]));
        }
        assert(a =~= b);
    } else {
        assert(a.contains(a.last()));
        assert(b.to_set().contains(a.last()));
        assert(b.contains(a.last()));
        let i = choose|i: int| 0 <= i < b.len() && b[i] == a.last();
        assert(b.contains(b.last()));
        assert(a.to_set().contains(b.last()));
        assert(a.contains(b.last()));
        let j = choose|j: int| 0 <= j < a.len() && a[j] == b.last();
        if a.last() != b.last() {
            assert(text_before(b[i], b[b.len() - 1]));
            assert(text_before(a[j], a[a.len() - 1]));
            lemma_before_transitive(a.last(), b.last(), a.last());
            lemma_before_irreflexive(a.last());
        }
        let c = a.drop_last();
        let d = b.drop_last();
        assert forall|n: Seq<char>| c.to_set().contains(n) <==> d.to_set().contains(n) by {
            if c.contains(n) {
                let k = choose|k: int| 0 <= k < c.len() && c[k] == n;
                assert(a[k] == n);
                assert(text_before(a[k], a[a.len() - 1]));
                lemma_before_irreflexive(n);
                assert(a.contains(n));
                assert(a.to_set().contains(n));
                assert(b.contains(n));
                let l = choose|l: int| 0 <= l < b.len() && b[l] == n;
                assert(l < b.len() - 1);
                assert(d[l] == n);
            }
            if d.contains(n) {
                let k = choose|k: int| 0 <= k < d.len() && d[k] == n;
                assert(b[k] == n);
                assert(text_before(b[k], b[b.len() - 1]));
                lemma_before_irreflexive(n);
                assert(b.contains(n));
                assert(b.to_set().contains(n));
                assert(a.contains(n));
                let l = choose|l: int| 0 <= l < a.len() && a[l] == n;
                assert(l < a.len() - 1);
                assert(c[l] == n);
            }
        }
        assert(c.to_set() =~= d.to_set());
        law_order_is_unique(c, d);
        assert(a =~= c.push(a.last()));
        assert(b =~= d.push(b.last()));
    }
}

}
