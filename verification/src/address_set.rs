//! A finite set of addresses.

use crate::address::AddressWithSpace;
use vstd::prelude::*;

verus! {

/// A set of addresses, kept as a list in which no address occurs twice, in the order in
/// which the addresses first came in.
#[derive(Debug)]
pub struct AddressSet {
    items: Vec<AddressWithSpace>,
}

impl View for AddressSet {
    type V = Set<AddressWithSpace>;

    closed spec fn view(&self) -> Set<AddressWithSpace> {
        self.items@.to_set()
    }
}

impl AddressSet {
    #[verifier::type_invariant]
    spec fn inv(self) -> bool {
        self.items@.no_duplicates()
    }

    /// The members in the order in which they first came in.
    pub closed spec fn order(&self) -> Seq<AddressWithSpace> {
        self.items@
    }

    /// The empty set.
    pub fn new() -> (r: AddressSet)
        ensures
            r@ == Set::<AddressWithSpace>::empty(),
            r.order() == Seq::<AddressWithSpace>::empty(),
    {
        let r = AddressSet { items: Vec::new() };
        assert(r.items@.to_set() =~= Set::<AddressWithSpace>::empty());
        r
    }

    /// The number of members. The order lists exactly the members, each once.
    pub fn len(&self) -> (r: usize)
        ensures
            r == self.order().len(),
            self.order().no_duplicates(),
            self.order().to_set() == self@,
            self@.finite(),
            self@.len() == self.order().len(),
    {
        proof {
            use_type_invariant(self);
            self.items@.unique_seq_to_set();
        }
        self.items.len()
    }

    /// The member at a position of the order.
    pub fn get(&self, i: usize) -> (r: AddressWithSpace)
        requires
            i < self.order().len(),
        ensures
            r == self.order()[i as int],
            self@.contains(r),
    {
        assert(self.items@.to_set().contains(self.items@[i as int]));
        self.items[i]
    }

    /// Whether an address is a member.
    pub fn contains(&self, a: &AddressWithSpace) -> (r: bool)
        ensures
            r == self@.contains(*a),
    {
        let mut i: usize = 0;
        while i < self.items.len()
            invariant
                i <= self.items.len(),
                forall|j: int| 0 <= j < i ==> self.items@[j] != *a,
            decreases self.items.len() - i,
        {
            if self.items[i] == *a {
                assert(self.items@.contains(*a));
                return true;
            }
            i += 1;
        }
        assert(!self.items@.contains(*a));
        false
    }

    /// Adds an address; a member stays where it was.
    pub fn insert(&mut self, a: AddressWithSpace)
        ensures
            final(self)@ == old(self)@.insert(a),
            final(self).order() == if old(self)@.contains(a) {
                old(self).order()
            } else {
                old(self).order().push(a)
            },
    {
        proof {
            use_type_invariant(&*self);
        }
        if self.contains(&a) {
            assert(self@.insert(a) =~= self@);
        } else {
            let ghost before = self.items@;
            let mut items = Vec::new();
            std::mem::swap(&mut items, &mut self.items);
            items.push(a);
            assert(items@.no_duplicates());
            assert(items@.to_set() =~= before.to_set().insert(a)) by {
                assert forall|x: AddressWithSpace| items@.to_set().contains(x) <==> before.to_set().insert(a).contains(x) by {
                    if items@.contains(x) {
                        let k = choose|k: int| 0 <= k < items@.len() && items@[k] == x;
                        if k < before.len() {
                            assert(before[k] == x);
                        }
                    }
                    if before.contains(x) {
                        let k = choose|k: int| 0 <= k < before.len() && before[k] == x;
                        assert(items@[k] == x);
                    }
                    if x == a {
                        assert(items@[before.len() as int] == a);
                    }
                }
            }
            self.items = items;
        }
    }

    /// Adds every member of another set.
    pub fn extend(&mut self, other: &AddressSet)
        ensures
            final(self)@ == old(self)@.union(other@),
    {
        let n = other.len();
        let mut i: usize = 0;
        while i < n
            invariant
                i <= n,
                n == other.order().len(),
                other.order().to_set() == other@,
                self@ == old(self)@.union(other.order().subrange(0, i as int).to_set()),
            decreases n - i,
        {
            let a = other.get(i);
            self.insert(a);
            assert(other.order().subrange(0, i + 1).to_set() =~= other.order().subrange(0, i as int).to_set().insert(a)) by {
                let pre = other.order().subrange(0, i as int);
                let post = other.order().subrange(0, i + 1);
                assert(post =~= pre.push(a));
                assert forall|x: AddressWithSpace| post.to_set().contains(x) <==> pre.to_set().insert(a).contains(x) by {
                    if post.contains(x) {
                        let k = choose|k: int| 0 <= k < post.len() && post[k] == x;
                        if k < pre.len() {
                            assert(pre[k] == x);
                        }
                    }
                    if pre.contains(x) {
                        let k = choose|k: int| 0 <= k < pre.len() && pre[k] == x;
                        assert(post[k] == x);
                    }
                    if x == a {
                        assert(post[i as int] == a);
                    }
                }
            }
            assert(self@ =~= old(self)@.union(other.order().subrange(0, i + 1).to_set()));
            i += 1;
        }
        assert(other.order().subrange(0, n as int) =~= other.order());
    }
}

} // verus!
