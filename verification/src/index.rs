//! Resource index: the `(namespace, name)` token under which devices
//! and scripts are keyed.  The phantom parameter keeps device and
//! script indices apart at compile time even though both carry the
//! same data.

use vstd::prelude::*;

verus! {

/// A `(namespace, name)` lookup token for a resource of kind `K`.
#[derive(Debug)]
pub struct ResourceIndex<K> {
    pub namespace: String,
    pub name: String,
    pub api: core::marker::PhantomData<K>,
}

impl<K> View for ResourceIndex<K> {
    type V = (Seq<char>, Seq<char>);

    open spec fn view(&self) -> (Seq<char>, Seq<char>) {
        (self.namespace@, self.name@)
    }
}

impl<K> ResourceIndex<K> {
    pub fn new(namespace: String, name: String) -> (r: Self)
        ensures
            r@ == (namespace@, name@),
    {
        ResourceIndex { namespace, name, api: core::marker::PhantomData }
    }

    /// Whether two indices name the same resource.
    pub fn same_as(&self, other: &Self) -> (r: bool)
        ensures
            r == (self@ == other@),
    {
        let r = self.namespace == other.namespace && self.name == other.name;
        proof {
            if self.namespace@ == other.namespace@ && self.name@ == other.name@ {
                assert(self@ =~= other@);
            }
        }
        r
    }
}

impl<K> Clone for ResourceIndex<K> {
    fn clone(&self) -> (r: Self)
        ensures
            r == *self,
    {
        ResourceIndex {
            namespace: self.namespace.clone(),
            name: self.name.clone(),
            api: core::marker::PhantomData,
        }
    }
}

impl<K> PartialEq for ResourceIndex<K> {
    fn eq(&self, other: &Self) -> (r: bool) {
        self.name == other.name && self.namespace == other.namespace
    }
}

impl<K> vstd::std_specs::cmp::PartialEqSpecImpl for ResourceIndex<K> {
    open spec fn obeys_eq_spec() -> bool {
        true
    }

    open spec fn eq_spec(&self, other: &Self) -> bool {
        self.name@ == other.name@ && self.namespace@ == other.namespace@
    }
}

impl<K> Eq for ResourceIndex<K> {

}

} // verus!
