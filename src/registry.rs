use vstd::prelude::*;

use crate::schema::{item_type_ok, names_unique, slot_fits, AttributeSlot, DataKind, ItemType, Source};

verus! {

/// Whether two byte strings are equal.
pub fn bytes_eq(a: &Vec<u8>, b: &Vec<u8>) -> (r: bool)
    ensures
        r == (a@ == b@),
{
    if a.len() != b.len() {
        return false;
    }
    let mut i: usize = 0;
    while i < a.len()
        invariant
            a@.len() == b@.len(),
            i <= a@.len(),
            forall|j: int| 0 <= j < i ==> a@[j] == b@[j],
        decreases a@.len() - i,
    {
        if a[i] != b[i] {
            return false;
        }
        i = i + 1;
    }
    assert(a@ =~= b@);
    true
}

/// The item types of a deployment, each registered once and never changed.
/// A type's child type, when declared, was registered before it.
pub struct Schema {
    types: Vec<ItemType>,
}

impl Schema {
    pub closed spec fn view(&self) -> Seq<ItemType> {
        self.types@
    }

    /// Every registered type met the registration rules.
    pub open spec fn wf(&self) -> bool {
        forall|t: int| 0 <= t < self@.len() ==> item_type_ok(#[trigger] self@[t], self@)
    }

    pub fn new() -> (s: Self)
        ensures
            s.wf(),
            s@ == Seq::<ItemType>::empty(),
    {
        Schema { types: Vec::new() }
    }

    pub fn len(&self) -> (r: usize)
        ensures
            r == self@.len(),
    {
        self.types.len()
    }

    pub fn get(&self, t: usize) -> (r: &ItemType)
        requires
            t < self@.len(),
        ensures
            *r == self@[t as int],
    {
        &self.types[t]
    }

    /// Whether `t` meets the registration rules against this schema: unique
    /// attribute names, handlers that fit the data kind, only stored values
    /// writable, and a child type that exists and holds the data kind that
    /// nodes of `t` create.
    pub fn accepts(&self, t: &ItemType) -> (r: bool)
        ensures
            r == item_type_ok(*t, self@),
    {
        let attrs = &t.attributes;
        let mut i: usize = 0;
        while i < attrs.len()
            invariant
                attrs@ == t.attributes@,
                i <= attrs@.len(),
                forall|a: int| 0 <= a < i ==> slot_fits(t.kind, #[trigger] attrs@[a]),
                forall|a: int, b: int| 0 <= a < b < i ==> attrs@[a].name@ != attrs@[b].name@,
            decreases attrs@.len() - i,
        {
            let slot: &AttributeSlot = &attrs[i];
            let special = match slot.source {
                Source::Text(_) => false,
                _ => true,
            };
            if special && !matches!(t.kind, DataKind::Configuration) {
                assert(!slot_fits(t.kind, attrs@[i as int]));
                return false;
            }
            if slot.mode.can_store() && !matches!(slot.source, Source::Stored) {
                assert(!slot_fits(t.kind, attrs@[i as int]));
                return false;
            }
            let mut j: usize = 0;
            while j < i
                invariant
                    attrs@ == t.attributes@,
                    i < attrs@.len(),
                    j <= i,
                    forall|a: int| 0 <= a < j ==> attrs@[a].name@ != attrs@[i as int].name@,
                decreases i - j,
            {
                if bytes_eq(&attrs[j].name, &attrs[i].name) {
                    assert(attrs@[j as int].name@ == attrs@[i as int].name@);
                    assert(!names_unique(attrs@));
                    return false;
                }
                j = j + 1;
            }
            i = i + 1;
        }
        match t.child {
            None => true,
            Some(c) => {
                if c >= self.types.len() {
                    return false;
                }
                match t.kind.child() {
                    Some(k) => self.types[c].kind == k,
                    None => false,
                }
            },
        }
    }

    /// Adds `t` to the schema and returns its index.
    pub fn register(&mut self, t: ItemType) -> (id: usize)
        requires
            old(self).wf(),
            item_type_ok(t, old(self)@),
        ensures
            final(self).wf(),
            id == old(self)@.len(),
            final(self)@ == old(self)@.push(t),
    {
        let id = self.types.len();
        self.types.push(t);
        assert forall|k: int| 0 <= k < self@.len() implies item_type_ok(#[trigger] self@[k], self@) by {
            if k < id {
                assert(item_type_ok(old(self)@[k], old(self)@));
            }
        }
        id
    }
}

} // verus!
