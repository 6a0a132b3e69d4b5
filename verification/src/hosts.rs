//! Host names, their order, and a map that is keyed by them.

use vstd::prelude::*;
use vstd::utf8::encode_utf8;

verus! {

/// `a` and `b` agree before position `i`, and at `i` either `a` has ended or
/// its byte is the smaller one.
pub open spec fn smaller_at(a: Seq<u8>, b: Seq<u8>, i: int) -> bool {
    &&& 0 <= i <= a.len()
    &&& i < b.len()
    &&& forall|j: int| 0 <= j < i ==> a[j] == b[j]
    &&& i == a.len() || a[i] < b[i]
}

/// The lexicographic order of byte strings.
pub open spec fn bytes_before(a: Seq<u8>, b: Seq<u8>) -> bool {
    exists|i: int| #[trigger] smaller_at(a, b, i)
}

/// The order of host names: that of their bytes in UTF-8.
pub open spec fn name_before(a: Seq<char>, b: Seq<char>) -> bool {
    bytes_before(encode_utf8(a), encode_utf8(b))
}

/// Every name of `names` comes before the next ones.
pub open spec fn ascending(names: Seq<Seq<char>>) -> bool {
    forall|i: int, j: int|
        0 <= i < j < names.len() ==> name_before(#[trigger] names[i], #[trigger] names[j])
}

/// No name comes before itself.
pub proof fn name_order_is_irreflexive(a: Seq<char>)
    ensures
        !name_before(a, a),
{
}

/// A name before a second one, which is before a third one, is before the third one.
pub proof fn name_order_is_transitive(a: Seq<char>, b: Seq<char>, c: Seq<char>)
    requires
        name_before(a, b),
        name_before(b, c),
    ensures
        name_before(a, c),
{
    let x = encode_utf8(a);
    let y = encode_utf8(b);
    let z = encode_utf8(c);
    let i = choose|i: int| smaller_at(x, y, i);
    let j = choose|j: int| smaller_at(y, z, j);
    if i <= j {
        assert(smaller_at(x, z, i));
    } else {
        assert(smaller_at(x, z, j));
    }
}

/// Of two different names one comes before the other one.
pub proof fn name_order_is_total(a: Seq<char>, b: Seq<char>)
    ensures
        a == b || name_before(a, b) || name_before(b, a),
{
    lemma_bytes_total(encode_utf8(a), encode_utf8(b), 0);
    if encode_utf8(a) == encode_utf8(b) {
        lemma_utf8_injective(a, b);
    }
}

/// Which of two names comes first is told by the first byte in which they differ.
pub proof fn the_first_different_byte_decides(a: Seq<char>, b: Seq<char>, i: int)
    requires
        0 <= i < encode_utf8(a).len(),
        i < encode_utf8(b).len(),
        forall|j: int| 0 <= j < i ==> encode_utf8(a)[j] == encode_utf8(b)[j],
        encode_utf8(a)[i] < encode_utf8(b)[i],
    ensures
        name_before(a, b),
        !name_before(b, a),
{
    assert(smaller_at(encode_utf8(a), encode_utf8(b), i));
    if name_before(b, a) {
        name_order_is_transitive(a, b, a);
        name_order_is_irreflexive(a);
    }
}

/// A name comes before every longer one that begins with it.
pub proof fn a_beginning_comes_before_the_whole(a: Seq<char>, rest: Seq<char>)
    requires
        rest.len() > 0,
    ensures
        name_before(a, a + rest),
        !name_before(a + rest, a),
{
    lemma_utf8_of_joined(a, rest);
    assert(encode_utf8(rest).len() > 0);
    assert(smaller_at(encode_utf8(a), encode_utf8(a + rest), encode_utf8(a).len() as int));
    if name_before(a + rest, a) {
        name_order_is_transitive(a, a + rest, a);
        name_order_is_irreflexive(a);
    }
}

proof fn lemma_utf8_of_joined(a: Seq<char>, b: Seq<char>)
    ensures
        encode_utf8(a + b) == encode_utf8(a) + encode_utf8(b),
    decreases a.len(),
{
    if a.len() == 0 {
        assert(a + b =~= b);
        assert(encode_utf8(a) + encode_utf8(b) =~= encode_utf8(b));
    } else {
        assert((a + b).drop_first() =~= a.drop_first() + b);
        lemma_utf8_of_joined(a.drop_first(), b);
        assert(encode_utf8(a + b) =~= encode_utf8(a) + encode_utf8(b));
    }
}

proof fn lemma_bytes_total(a: Seq<u8>, b: Seq<u8>, i: int)
    requires
        0 <= i <= a.len(),
        i <= b.len(),
        forall|j: int| 0 <= j < i ==> a[j] == b[j],
    ensures
        a == b || bytes_before(a, b) || bytes_before(b, a),
    decreases a.len() - i,
{
    if i == a.len() || i == b.len() || a[i] != b[i] {
        if i == a.len() && i == b.len() {
            assert(a =~= b);
        } else {
            assert(smaller_at(a, b, i) || smaller_at(b, a, i));
        }
    } else {
        lemma_bytes_total(a, b, i + 1);
    }
}

proof fn lemma_utf8_injective(a: Seq<char>, b: Seq<char>)
    requires
        encode_utf8(a) == encode_utf8(b),
    ensures
        a == b,
{
    vstd::utf8::encode_utf8_decode_utf8(a);
    vstd::utf8::encode_utf8_decode_utf8(b);
}

/// Two ascending lists of the same names are the same list.
pub proof fn ascending_list_is_determined_by_its_names(a: Seq<Seq<char>>, b: Seq<Seq<char>>)
    requires
        ascending(a),
        ascending(b),
        forall|k: Seq<char>| a.contains(k) <==> b.contains(k),
    ensures
        a == b,
    decreases a.len(),
{
    if a.len() == 0 {
        if b.len() > 0 {
            assert(b.contains(b[0]));
        }
        assert(a =~= b);
    } else if b.len() == 0 {
        assert(a.contains(a[0]));
    } else {
        let x = a.last();
        let y = b.last();
        assert(a.contains(x) && b.contains(y));
        let i = choose|i: int| 0 <= i < b.len() && b[i] == x;
        let j = choose|j: int| 0 <= j < a.len() && a[j] == y;
        if x != y {
            assert(name_before(b[i], b[b.len() - 1]));
            assert(name_before(a[j], a[a.len() - 1]));
            name_order_is_transitive(x, y, x);
            name_order_is_irreflexive(x);
        }
        let c = a.drop_last();
        let d = b.drop_last();
        assert forall|k: Seq<char>| c.contains(k) <==> d.contains(k) by {
            lemma_drop_last_contains(a, k);
            lemma_drop_last_contains(b, k);
        }
        ascending_list_is_determined_by_its_names(c, d);
        assert(a =~= c.push(x));
        assert(b =~= d.push(y));
    }
}

proof fn lemma_drop_last_contains(a: Seq<Seq<char>>, k: Seq<char>)
    requires
        ascending(a),
        a.len() > 0,
    ensures
        a.drop_last().contains(k) <==> a.contains(k) && k != a.last(),
{
    if a.drop_last().contains(k) {
        let i = choose|i: int| 0 <= i < a.len() - 1 && a.drop_last()[i] == k;
        assert(a[i] == k);
        assert(name_before(a[i], a[a.len() - 1]));
        name_order_is_irreflexive(k);
    }
    if a.contains(k) && k != a.last() {
        let i = choose|i: int| 0 <= i < a.len() && a[i] == k;
        assert(a.drop_last()[i] == k);
    }
}

/// Where one name stands in relation to another one.
#[derive(Clone, Copy, PartialEq, Eq, Structural, Debug)]
pub enum NameOrder {
    Before,
    Same,
    After,
}

/// Tells how `a` stands to `b` in the order of host names.
pub fn order_names(a: &str, b: &str) -> (order: NameOrder)
    ensures
        order == NameOrder::Before <==> name_before(a@, b@),
        order == NameOrder::Same <==> a@ == b@,
        order == NameOrder::After <==> name_before(b@, a@),
{
    let x: &[u8] = a.as_bytes();
    let y: &[u8] = b.as_bytes();
    proof {
        name_order_is_irreflexive(a@);
        if name_before(a@, b@) && name_before(b@, a@) {
            name_order_is_transitive(a@, b@, a@);
        }
    }
    let mut i: usize = 0;
    while i < x.len() && i < y.len() && x[i] == y[i]
        invariant
            i <= x.len(),
            i <= y.len(),
            forall|j: int| 0 <= j < i ==> x@[j] == y@[j],
        decreases x.len() - i,
    {
        i += 1;
    }
    if i == x.len() && i == y.len() {
        proof {
            assert(x@ =~= y@);
            lemma_utf8_injective(a@, b@);
        }
        NameOrder::Same
    } else if i == x.len() || (i < y.len() && x[i] < y[i]) {
        assert(smaller_at(x@, y@, i as int));
        NameOrder::Before
    } else {
        assert(smaller_at(y@, x@, i as int));
        NameOrder::After
    }
}

/// A map from host names to `T`, walked in the order of the names. No name
/// occurs twice.
pub struct HostMap<T> {
    names: Vec<String>,
    values: Vec<T>,
}

impl<T> View for HostMap<T> {
    type V = Map<Seq<char>, T>;

    closed spec fn view(&self) -> Map<Seq<char>, T> {
        Map::new(
            |k: Seq<char>| self.names().contains(k),
            |k: Seq<char>| self.values@[self.names().index_of(k)],
        )
    }
}

impl<T> HostMap<T> {
    /// The names in the order in which the map is walked.
    pub closed spec fn names(&self) -> Seq<Seq<char>> {
        self.names@.map_values(|s: String| s@)
    }

    /// There is one value for each name, and the names ascend.
    pub closed spec fn wf(&self) -> bool {
        &&& self.names@.len() == self.values@.len()
        &&& ascending(self.names())
    }

    /// A well-formed map is walked in ascending order, each of its names once.
    pub proof fn names_are_the_domain(&self)
        requires
            self.wf(),
        ensures
            ascending(self.names()),
            forall|k: Seq<char>| #[trigger] self@.contains_key(k) <==> self.names().contains(k),
    {
    }

    proof fn lemma_at(&self, i: int)
        requires
            self.wf(),
            0 <= i < self.names().len(),
        ensures
            self@.contains_key(self.names()[i]),
            self@[self.names()[i]] == self.values@[i],
            self.names().index_of(self.names()[i]) == i,
    {
        let k = self.names()[i];
        assert(self.names().contains(k));
        let j = self.names().index_of(k);
        assert(self.names()[j] == k);
        name_order_is_irreflexive(k);
        if i < j {
            assert(name_before(self.names()[i], self.names()[j]));
        } else if j < i {
            assert(name_before(self.names()[j], self.names()[i]));
        }
    }

    /// A map without names.
    pub fn new() -> (map: Self)
        ensures
            map.wf(),
            map@ == Map::<Seq<char>, T>::empty(),
    {
        let map = HostMap { names: Vec::new(), values: Vec::new() };
        assert(map.names().len() == 0);
        assert(map@ =~= Map::<Seq<char>, T>::empty());
        map
    }

    /// How many names the map holds.
    pub fn len(&self) -> (n: usize)
        requires
            self.wf(),
        ensures
            n == self.names().len(),
    {
        self.names.len()
    }

    /// The `i`-th name.
    pub fn name_at(&self, i: usize) -> (name: &String)
        requires
            self.wf(),
            i < self.names().len(),
        ensures
            name@ == self.names()[i as int],
            self@.contains_key(name@),
    {
        proof {
            self.lemma_at(i as int);
        }
        &self.names[i]
    }

    /// The value of the `i`-th name.
    pub fn value_at(&self, i: usize) -> (value: &T)
        requires
            self.wf(),
            i < self.names().len(),
        ensures
            *value == self@[self.names()[i as int]],
    {
        proof {
            self.lemma_at(i as int);
        }
        &self.values[i]
    }

    /// The place of `name`, or the place where it would have to stand.
    fn locate(&self, name: &str) -> (at: (usize, bool))
        requires
            self.wf(),
        ensures
            at.0 <= self.names().len(),
            at.1 == self@.contains_key(name@),
            at.1 ==> at.0 < self.names().len() && self.names()[at.0 as int] == name@,
            forall|j: int| 0 <= j < at.0 ==> name_before(#[trigger] self.names()[j], name@),
            !at.1 ==> forall|j: int|
                at.0 <= j < self.names().len() ==> name_before(name@, #[trigger] self.names()[j]),
    {
        let mut i: usize = 0;
        while i < self.names.len()
            invariant
                self.wf(),
                i <= self.names.len(),
                forall|j: int| 0 <= j < i ==> name_before(#[trigger] self.names()[j], name@),
            decreases self.names.len() - i,
        {
            match order_names(self.names[i].as_str(), name) {
                NameOrder::Before => {
                    i += 1;
                },
                NameOrder::Same => {
                    proof {
                        self.lemma_at(i as int);
                    }
                    return (i, true);
                },
                NameOrder::After => {
                    proof {
                        assert forall|j: int| i <= j < self.names().len() implies name_before(
                            name@,
                            #[trigger] self.names()[j],
                        ) by {
                            if i < j {
                                assert(name_before(self.names()[i as int], self.names()[j]));
                                name_order_is_transitive(
                                    name@,
                                    self.names()[i as int],
                                    self.names()[j],
                                );
                            }
                        }
                        name_order_is_irreflexive(name@);
                        assert(!self.names().contains(name@));
                    }
                    return (i, false);
                },
            }
        }
        proof {
            name_order_is_irreflexive(name@);
            assert(!self.names().contains(name@));
        }
        (i, false)
    }

    /// The value of `name`, if the map holds it.
    pub fn get(&self, name: &str) -> (value: Option<&T>)
        requires
            self.wf(),
        ensures
            value is Some <==> self@.contains_key(name@),
            value is Some ==> *value->0 == self@[name@],
    {
        let at = self.locate(name);
        if at.1 {
            proof {
                self.lemma_at(at.0 as int);
            }
            Some(&self.values[at.0])
        } else {
            None
        }
    }

    /// Takes `name` out of the map and hands back its value, if there was one.
    pub fn remove(&mut self, name: &str) -> (value: Option<T>)
        requires
            old(self).wf(),
        ensures
            final(self).wf(),
            final(self)@ == old(self)@.remove(name@),
            value is Some <==> old(self)@.contains_key(name@),
            value is Some ==> value->0 == old(self)@[name@],
    {
        let ghost before = *self;
        let at = self.locate(name);
        if !at.1 {
            assert(self@.remove(name@) =~= self@);
            return None;
        }
        proof {
            before.lemma_at(at.0 as int);
        }
        self.names.remove(at.0);
        let value: T = self.values.remove(at.0);
        proof {
            let i = at.0 as int;
            assert(self.names() =~= before.names().remove(i));
            assert forall|a: int, b: int| 0 <= a < b < self.names().len() implies name_before(
                #[trigger] self.names()[a],
                #[trigger] self.names()[b],
            ) by {
                let c = if a < i { a } else { a + 1 };
                let d = if b < i { b } else { b + 1 };
                assert(name_before(before.names()[c], before.names()[d]));
            }
            assert forall|k: Seq<char>| #[trigger] self@.contains_key(k) <==> (
            before@.contains_key(k) && k != name@) by {
                if self.names().contains(k) {
                    let a = self.names().index_of(k);
                    let c = if a < i { a } else { a + 1 };
                    assert(before.names()[c] == k);
                    before.lemma_at(c);
                }
                if before.names().contains(k) && k != name@ {
                    let c = before.names().index_of(k);
                    let a = if c < i { c } else { c - 1 };
                    assert(self.names()[a] == k);
                }
            }
            assert forall|k: Seq<char>| self@.contains_key(k) implies self@[k] == before@[k] by {
                let a = self.names().index_of(k);
                assert(self.names()[a] == k);
                self.lemma_at(a);
                let c = if a < i { a } else { a + 1 };
                assert(before.names()[c] == k);
                before.lemma_at(c);
            }
            assert(self@ =~= before@.remove(name@));
        }
        Some(value)
    }

    /// Gives `name` the value `value`, in place of the one that it had.
    pub fn insert(&mut self, name: String, value: T)
        requires
            old(self).wf(),
        ensures
            final(self).wf(),
            final(self)@ == old(self)@.insert(name@, value),
    {
        self.remove(name.as_str());
        let ghost before = *self;
        let ghost key = name@;
        let at = self.locate(name.as_str());
        self.names.insert(at.0, name);
        self.values.insert(at.0, value);
        proof {
            let i = at.0 as int;
            assert(self.names() =~= before.names().insert(i, key));
            assert forall|a: int, b: int| 0 <= a < b < self.names().len() implies name_before(
                #[trigger] self.names()[a],
                #[trigger] self.names()[b],
            ) by {
                let c = if a < i { a } else { a - 1 };
                let d = if b < i { b } else { b - 1 };
                if a != i && b != i {
                    assert(name_before(before.names()[c], before.names()[d]));
                } else if a == i {
                    assert(name_before(key, before.names()[d]));
                } else {
                    assert(name_before(before.names()[c], key));
                }
            }
            assert(self.names()[i] == key);
            self.lemma_at(i);
            assert forall|k: Seq<char>| #[trigger] self@.contains_key(k) <==> (
            before@.contains_key(k) || k == key) by {
                if self.names().contains(k) && k != key {
                    let a = self.names().index_of(k);
                    let c = if a < i { a } else { a - 1 };
                    assert(before.names()[c] == k);
                }
                if before.names().contains(k) {
                    let c = before.names().index_of(k);
                    let a = if c < i { c } else { c + 1 };
                    assert(self.names()[a] == k);
                }
            }
            assert forall|k: Seq<char>| before@.contains_key(k) implies self@[k] == before@[k] by {
                let c = before.names().index_of(k);
                assert(before.names()[c] == k);
                before.lemma_at(c);
                let a = if c < i { c } else { c + 1 };
                assert(self.names()[a] == k);
                self.lemma_at(a);
            }
            assert(self@ =~= before@.insert(key, value));
            assert(before@.insert(key, value) =~= old(self)@.insert(key, value));
        }
    }
}

} // verus!
