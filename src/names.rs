use vstd::prelude::*;

verus! {

/// The identifier namespaces; each is independent of the others.
#[derive(Clone, Copy, Debug, PartialEq, Eq, Structural)]
pub enum NamespaceKind {
    /// Model names, across the schema.
    TopLevel,
    /// Field names, within one model.
    ModelFields,
    /// Constraint names, within one model.
    ModelConstraints,
}

/// A registry of identifiers by (namespace, scope, identifier).
#[derive(Debug)]
pub struct NameRegistry {
    entries: Vec<(NamespaceKind, usize, String)>,
}

impl NameRegistry {
    /// The registered keys.
    pub closed spec fn keys(&self) -> Set<(NamespaceKind, usize, Seq<char>)> {
        Set::new(
            |k: (NamespaceKind, usize, Seq<char>)|
                exists|i: int|
                    0 <= i < self.entries@.len() && (#[trigger] self.entries@[i]).0 == k.0
                        && self.entries@[i].1 == k.1 && self.entries@[i].2@ == k.2,
        )
    }

    pub fn new() -> (r: NameRegistry)
        ensures
            r.keys() == Set::<(NamespaceKind, usize, Seq<char>)>::empty(),
    {
        let r = NameRegistry { entries: Vec::new() };
        assert(r.keys() =~= Set::<(NamespaceKind, usize, Seq<char>)>::empty());
        r
    }

    /// Whether the key is already registered.
    pub fn lookup_clash(&self, ns: NamespaceKind, scope: usize, ident: &String) -> (r: bool)
        ensures
            r == self.keys().contains((ns, scope, ident@)),
    {
        let mut i: usize = 0;
        while i < self.entries.len()
            invariant
                i <= self.entries@.len(),
                forall|k: int|
                    0 <= k < i ==> !((#[trigger] self.entries@[k]).0 == ns && self.entries@[k].1
                        == scope && self.entries@[k].2@ == ident@),
            decreases self.entries@.len() - i,
        {
            let e = &self.entries[i];
            if e.0 == ns && e.1 == scope && e.2 == *ident {
                assert(self.keys().contains((ns, scope, ident@)));
                return true;
            }
            i = i + 1;
        }
        false
    }

    /// Registers the key. Returns false, and changes nothing, where it is
    /// already registered.
    pub fn register(&mut self, ns: NamespaceKind, scope: usize, ident: &String) -> (r: bool)
        ensures
            r == !old(self).keys().contains((ns, scope, ident@)),
            final(self).keys() == old(self).keys().insert((ns, scope, ident@)),
    {
        if self.lookup_clash(ns, scope, ident) {
            assert(old(self).keys().insert((ns, scope, ident@)) =~= old(self).keys());
            false
        } else {
            let ghost before = self.entries@;
            self.entries.push((ns, scope, ident.clone()));
            assert forall|k: (NamespaceKind, usize, Seq<char>)|
                #![auto]
                self.keys().contains(k) == old(self).keys().insert((ns, scope, ident@)).contains(
                    k,
                ) by {
                if old(self).keys().contains(k) {
                    let i = choose|i: int|
                        0 <= i < before.len() && (#[trigger] before[i]).0 == k.0 && before[i].1
                            == k.1 && before[i].2@ == k.2;
                    assert(self.entries@[i] == before[i]);
                }
                if self.keys().contains(k) {
                    let i = choose|i: int|
                        0 <= i < self.entries@.len() && (#[trigger] self.entries@[i]).0 == k.0
                            && self.entries@[i].1 == k.1 && self.entries@[i].2@ == k.2;
                    if i < before.len() {
                        assert(self.entries@[i] == before[i]);
                    }
                }
                if k == (ns, scope, ident@) {
                    assert(self.entries@[before.len() as int].2@ == ident@);
                }
            }
            assert(self.keys() =~= old(self).keys().insert((ns, scope, ident@)));
            true
        }
    }
}

} // verus!
