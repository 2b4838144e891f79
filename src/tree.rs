use vstd::prelude::*;

use crate::error::ConfigError;
use crate::registry::{bytes_eq, Schema};
use crate::schema::{
    capacity_of, child_data, data_ok, item_type_ok, kind_of, shown, AttributeSlot, DataView,
    ItemType, NodeData,
};

verus! {

/// Names a node of a tree. Slots are never reused, so once its node is
/// removed a handle stays stale for the rest of the tree's life.
#[derive(Debug, Clone, Copy, PartialEq, Eq, Structural)]
pub struct Handle {
    pub index: usize,
}

/// One node as the contracts see it: its item type, data, the indices of
/// its ancestors from the root down, and its children by name.
pub struct NodeView {
    pub ty: usize,
    pub data: DataView,
    pub path: Seq<usize>,
    pub children: Seq<(Seq<u8>, usize)>,
}

/// A whole tree as the contracts see it: the live nodes by index.
pub struct TreeView {
    pub schema: Seq<ItemType>,
    pub root: usize,
    pub nodes: Map<usize, NodeView>,
}

/// `name` labels one of `children`.
pub open spec fn has_name(children: Seq<(Seq<u8>, usize)>, name: Seq<u8>) -> bool {
    exists|k: int| 0 <= k < children.len() && (#[trigger] children[k]).0 == name
}

/// `d` with its stored value replaced by `b`.
pub open spec fn with_bar(d: DataView, b: Seq<u8>) -> DataView {
    match d {
        DataView::Configuration { message, capacity, .. } => DataView::Configuration {
            message,
            bar: b,
            capacity,
        },
        _ => d,
    }
}

impl TreeView {
    pub open spec fn live(self, h: usize) -> bool {
        self.nodes.contains_key(h)
    }

    pub open spec fn item_type(self, h: usize) -> ItemType {
        self.schema[self.nodes[h].ty as int]
    }

    pub open spec fn attr_count(self, h: usize) -> nat {
        self.item_type(h).attributes@.len()
    }

    pub open spec fn attr(self, h: usize, idx: usize) -> AttributeSlot {
        self.item_type(h).attributes@[idx as int]
    }

    /// The bytes that attribute `idx` of node `h` shows.
    pub open spec fn value(self, h: usize, idx: usize) -> Seq<u8> {
        shown(self.nodes[h].data, self.attr(h, idx).source)
    }

    /// Node `i` is `c` or lies below it.
    pub open spec fn in_subtree(self, i: usize, c: usize) -> bool {
        i == c || {
            let d = self.nodes[c].path.len();
            &&& self.nodes[i].path.len() > d
            &&& self.nodes[i].path[d as int] == c
        }
    }

    pub open spec fn node_ok(self, i: usize) -> bool {
        let n = self.nodes[i];
        &&& n.ty < self.schema.len()
        &&& kind_of(n.data) == self.schema[n.ty as int].kind
        &&& data_ok(n.data)
        &&& forall|k: int|
            0 <= k < n.children.len() ==> {
                let y = (#[trigger] n.children[k]).1;
                &&& self.nodes.contains_key(y)
                &&& self.nodes[y].path == n.path.push(i)
                &&& self.schema[n.ty as int].child == Some(self.nodes[y].ty)
            }
        &&& forall|a: int, b: int|
            0 <= a < b < n.children.len() ==> n.children[a].0 != n.children[b].0
        &&& forall|a: int, b: int|
            0 <= a < b < n.children.len() ==> n.children[a].1 != n.children[b].1
    }

    /// The tree's invariant: a valid schema, a live root without ancestors,
    /// and every live node typed, its data of its type's kind, its children
    /// live, of its declared child type, uniquely named, one level below it.
    pub open spec fn wf(self) -> bool {
        &&& forall|t: int| 0 <= t < self.schema.len() ==> item_type_ok(#[trigger] self.schema[t], self.schema)
        &&& self.nodes.contains_key(self.root)
        &&& self.nodes[self.root].path.len() == 0
        &&& forall|i: usize| #[trigger] self.nodes.contains_key(i) ==> self.node_ok(i)
    }

    /// This tree with node `h`'s data replaced by `d`.
    pub open spec fn with_data(self, h: usize, d: DataView) -> TreeView {
        let n = self.nodes[h];
        TreeView {
            schema: self.schema,
            root: self.root,
            nodes: self.nodes.insert(h, NodeView { ty: n.ty, data: d, path: n.path, children: n.children }),
        }
    }

    /// This tree with a new node `c` under `h`, named `name`, of `h`'s child
    /// type and holding the data that `h`'s data makes for a child.
    pub open spec fn with_child(self, h: usize, name: Seq<u8>, c: usize) -> TreeView {
        let n = self.nodes[h];
        let parent = NodeView { ty: n.ty, data: n.data, path: n.path, children: n.children.push((name, c)) };
        let child = NodeView {
            ty: self.item_type(h).child->Some_0,
            data: child_data(n.data)->Some_0,
            path: n.path.push(h),
            children: Seq::empty(),
        };
        TreeView { schema: self.schema, root: self.root, nodes: self.nodes.insert(h, parent).insert(c, child) }
    }

    /// This tree with the `k`-th child of `h` and all below it gone.
    pub open spec fn without_child(self, h: usize, k: int) -> TreeView {
        let n = self.nodes[h];
        let c = n.children[k].1;
        let parent = NodeView { ty: n.ty, data: n.data, path: n.path, children: n.children.remove(k) };
        TreeView {
            schema: self.schema,
            root: self.root,
            nodes: Map::new(
                |i: usize| self.nodes.contains_key(i) && !self.in_subtree(i, c),
                |i: usize| if i == h { parent } else { self.nodes[i] },
            ),
        }
    }

    /// What `show(h, idx, page)` does: `p0` is the page before, `p1` after.
    pub open spec fn show_post(
        self,
        h: usize,
        idx: usize,
        p0: Seq<u8>,
        p1: Seq<u8>,
        r: Result<usize, ConfigError>,
    ) -> bool {
        if !self.live(h) {
            r == Err::<usize, ConfigError>(ConfigError::StaleReference) && p1 == p0
        } else if idx >= self.attr_count(h) {
            r == Err::<usize, ConfigError>(ConfigError::InvalidAttribute) && p1 == p0
        } else if !self.attr(h, idx).mode.readable() {
            r == Err::<usize, ConfigError>(ConfigError::PermissionDenied) && p1 == p0
        } else if self.value(h, idx).len() > p0.len() {
            r == Err::<usize, ConfigError>(ConfigError::Overflow) && p1 == p0
        } else {
            &&& r == Ok::<usize, ConfigError>(self.value(h, idx).len() as usize)
            &&& p1 == self.value(h, idx) + p0.subrange(self.value(h, idx).len() as int, p0.len() as int)
        }
    }

    /// What `store(h, idx, bytes)` does, taking this tree to `t`.
    pub open spec fn store_post(
        self,
        h: usize,
        idx: usize,
        bytes: Seq<u8>,
        t: TreeView,
        r: Result<(), ConfigError>,
    ) -> bool {
        if !self.live(h) {
            r == Err::<(), ConfigError>(ConfigError::StaleReference) && t == self
        } else if idx >= self.attr_count(h) {
            r == Err::<(), ConfigError>(ConfigError::InvalidAttribute) && t == self
        } else if !self.attr(h, idx).mode.writable() {
            r == Err::<(), ConfigError>(ConfigError::PermissionDenied) && t == self
        } else if bytes.len() > capacity_of(self.nodes[h].data) {
            r == Err::<(), ConfigError>(ConfigError::CapacityExceeded) && t == self
        } else {
            r == Ok::<(), ConfigError>(()) && t == self.with_data(h, with_bar(self.nodes[h].data, bytes))
        }
    }

    /// What `create_child(h, name)` does, taking this tree to `t`.
    pub open spec fn create_post(
        self,
        h: usize,
        name: Seq<u8>,
        t: TreeView,
        r: Result<Handle, ConfigError>,
    ) -> bool {
        if !self.live(h) {
            r == Err::<Handle, ConfigError>(ConfigError::StaleReference) && t == self
        } else if self.item_type(h).child is None {
            r == Err::<Handle, ConfigError>(ConfigError::UnsupportedOperation) && t == self
        } else if has_name(self.nodes[h].children, name) {
            r == Err::<Handle, ConfigError>(ConfigError::NameConflict) && t == self
        } else {
            &&& r is Ok
            &&& !self.live(r->Ok_0.index)
            &&& t == self.with_child(h, name, r->Ok_0.index)
        }
    }

    /// What `remove_child(h, name)` does, taking this tree to `t`.
    pub open spec fn remove_post(
        self,
        h: usize,
        name: Seq<u8>,
        t: TreeView,
        r: Result<(), ConfigError>,
    ) -> bool {
        if !self.live(h) {
            r == Err::<(), ConfigError>(ConfigError::StaleReference) && t == self
        } else if !has_name(self.nodes[h].children, name) {
            r == Err::<(), ConfigError>(ConfigError::NotFound) && t == self
        } else {
            &&& r == Ok::<(), ConfigError>(())
            &&& exists|k: int|
                0 <= k < self.nodes[h].children.len() && (#[trigger] self.nodes[h].children[k]).0 == name
                    && t == self.without_child(h, k)
        }
    }
}

/// Removing a child's subtree keeps the tree's invariant, and keeps the
/// parent and the root.
proof fn lemma_without_child(v: TreeView, h: usize, k: int)
    requires
        v.wf(),
        v.live(h),
        0 <= k < v.nodes[h].children.len(),
    ensures
        v.without_child(h, k).wf(),
        !v.in_subtree(h, v.nodes[h].children[k].1),
        !v.in_subtree(v.root, v.nodes[h].children[k].1),
{
    let c = v.nodes[h].children[k].1;
    let w = v.without_child(h, k);
    let dc = v.nodes[c].path.len();
    assert(v.node_ok(h));
    assert(v.nodes[c].path == v.nodes[h].path.push(h));
    assert(w.nodes.contains_key(w.root));
    assert(w.nodes.contains_key(h));
    assert forall|i: usize| #[trigger] w.nodes.contains_key(i) implies w.node_ok(i) by {
        assert(v.node_ok(i));
        let n = w.nodes[i];
        let vn = v.nodes[i];
        assert forall|k2: int| 0 <= k2 < n.children.len() implies {
            let y = (#[trigger] n.children[k2]).1;
            &&& w.nodes.contains_key(y)
            &&& w.nodes[y].path == n.path.push(i)
            &&& w.schema[n.ty as int].child == Some(w.nodes[y].ty)
        } by {
            let j = if i == h && k2 >= k { k2 + 1 } else { k2 };
            assert(n.children[k2] == vn.children[j]);
            let y = vn.children[j].1;
            assert(v.nodes.contains_key(y));
            assert(v.nodes[y].path == vn.path.push(i));
            if y == c {
                assert(vn.path.push(i).last() == v.nodes[h].path.push(h).last());
                assert(i == h);
                assert(j != k);
            }
            if v.nodes[y].path.len() > dc && v.nodes[y].path[dc as int] == c {
                if dc < vn.path.len() {
                    assert(vn.path[dc as int] == c);
                    assert(v.in_subtree(i, c));
                } else {
                    assert(i == c);
                }
            }
            assert(!v.in_subtree(y, c));
        }
        if i == h {
            assert forall|a: int, b: int| 0 <= a < b < n.children.len() implies
                n.children[a].1 != n.children[b].1 by {
                let ja = if a >= k { a + 1 } else { a };
                let jb = if b >= k { b + 1 } else { b };
                assert(n.children[a] == vn.children[ja]);
                assert(n.children[b] == vn.children[jb]);
            }
            assert forall|a: int, b: int| 0 <= a < b < n.children.len() implies
                n.children[a].0 != n.children[b].0 by {
                let ja = if a >= k { a + 1 } else { a };
                let jb = if b >= k { b + 1 } else { b };
                assert(n.children[a] == vn.children[ja]);
                assert(n.children[b] == vn.children[jb]);
            }
        }
    }
}

struct Node {
    ty: usize,
    data: NodeData,
    path: Vec<usize>,
    children: Vec<(Vec<u8>, usize)>,
}

impl Node {
    closed spec fn view(&self) -> NodeView {
        NodeView {
            ty: self.ty,
            data: self.data@,
            path: self.path@,
            children: self.children@.map_values(|e: (Vec<u8>, usize)| (e.0@, e.1)),
        }
    }
}

/// A configuration tree: a schema, and an arena of nodes rooted at one node.
pub struct Tree {
    schema: Schema,
    slots: Vec<Option<Node>>,
    root: usize,
}

/// Takes the node out of slot `i`, leaving the slot empty.
fn take_slot(slots: &mut Vec<Option<Node>>, i: usize) -> (r: Option<Node>)
    requires
        i < old(slots)@.len(),
    ensures
        r == old(slots)@[i as int],
        final(slots)@ == old(slots)@.update(i as int, None),
{
    slots.push(None);
    let r = slots.swap_remove(i);
    assert(slots@ =~= old(slots)@.update(i as int, None));
    r
}

/// Copies `path` and appends `last`.
fn extend_path(path: &Vec<usize>, last: usize) -> (r: Vec<usize>)
    ensures
        r@ == path@.push(last),
{
    let mut r: Vec<usize> = Vec::new();
    let mut i: usize = 0;
    while i < path.len()
        invariant
            i <= path@.len(),
            r@ == path@.subrange(0, i as int),
        decreases path@.len() - i,
    {
        r.push(path[i]);
        i = i + 1;
        assert(r@ =~= path@.subrange(0, i as int));
    }
    r.push(last);
    assert(r@ =~= path@.push(last));
    r
}

/// The position of the child named `name`, if any.
fn find_child(children: &Vec<(Vec<u8>, usize)>, name: &Vec<u8>) -> (r: Option<usize>)
    ensures
        r matches Some(k) ==> k < children@.len() && children@[k as int].0@ == name@,
        r is None ==> forall|k: int| 0 <= k < children@.len() ==> (#[trigger] children@[k]).0@ != name@,
{
    let mut k: usize = 0;
    while k < children.len()
        invariant
            k <= children@.len(),
            forall|j: int| 0 <= j < k ==> (#[trigger] children@[j]).0@ != name@,
        decreases children@.len() - k,
    {
        if bytes_eq(&children[k].0, name) {
            return Some(k);
        }
        k = k + 1;
    }
    None
}

impl Tree {
    pub closed spec fn view(&self) -> TreeView {
        TreeView {
            schema: self.schema@,
            root: self.root,
            nodes: Map::new(
                |i: usize| i < self.slots@.len() && self.slots@[i as int] is Some,
                |i: usize| self.slots@[i as int]->Some_0@,
            ),
        }
    }

    /// The tree's invariant, over its view and the data of each node.
    pub closed spec fn wf(&self) -> bool {
        &&& self@.wf()
        &&& forall|i: int|
            0 <= i < self.slots@.len() && (#[trigger] self.slots@[i]) is Some ==> self.slots@[i]->Some_0.data.wf()
    }

    /// A tree whose only node is a root of type `ty` holding `data`.
    pub fn create_root(schema: Schema, ty: usize, data: NodeData) -> (t: Tree)
        requires
            schema.wf(),
            ty < schema@.len(),
            kind_of(data@) == schema@[ty as int].kind,
            data.wf(),
        ensures
            t.wf(),
            t@.schema == schema@,
            t@.root == 0,
            t@.nodes == Map::<usize, NodeView>::empty().insert(
                0,
                NodeView { ty, data: data@, path: Seq::empty(), children: Seq::empty() },
            ),
    {
        let root = Node { ty, data, path: Vec::new(), children: Vec::new() };
        let mut slots: Vec<Option<Node>> = Vec::new();
        slots.push(Some(root));
        let t = Tree { schema, slots, root: 0 };
        proof {
            data.lemma_wf();
            let nv = NodeView { ty, data: data@, path: Seq::empty(), children: Seq::empty() };
            assert(t.slots@[0]->Some_0@.children =~= Seq::<(Seq<u8>, usize)>::empty());
            assert(t.slots@[0]->Some_0@ == nv);
            assert(t@.nodes =~= Map::<usize, NodeView>::empty().insert(0, nv));
        }
        t
    }

    pub fn root(&self) -> (h: Handle)
        ensures
            h.index == self@.root,
    {
        Handle { index: self.root }
    }

    /// Whether `h` names a node that is still in the tree.
    pub fn is_live(&self, h: Handle) -> (r: bool)
        ensures
            r == self@.live(h.index),
    {
        h.index < self.slots.len() && self.slots[h.index].is_some()
    }

    /// Shows attribute `idx` of node `h` into the front of `page`; on any
    /// error `page` is left as it was.
    pub fn show(&self, h: Handle, idx: usize, page: &mut Vec<u8>) -> (r: Result<usize, ConfigError>)
        requires
            self.wf(),
        ensures
            self@.show_post(h.index, idx, old(page)@, final(page)@, r),
    {
        if h.index >= self.slots.len() {
            return Err(ConfigError::StaleReference);
        }
        match &self.slots[h.index] {
            None => Err(ConfigError::StaleReference),
            Some(n) => {
                proof {
                    assert(self@.nodes.contains_key(h.index));
                    assert(self.slots@[h.index as int]->Some_0 == *n);
                }
                let it: &ItemType = self.schema.get(n.ty);
                if idx >= it.attributes.len() {
                    return Err(ConfigError::InvalidAttribute);
                }
                let slot: &AttributeSlot = &it.attributes[idx];
                if !slot.mode.can_show() {
                    return Err(ConfigError::PermissionDenied);
                }
                n.data.show(&slot.source, page)
            },
        }
    }

    /// Stores `bytes` into attribute `idx` of node `h`. A refused store
    /// changes nothing.
    pub fn store(&mut self, h: Handle, idx: usize, bytes: &[u8]) -> (r: Result<(), ConfigError>)
        requires
            old(self).wf(),
        ensures
            final(self).wf(),
            old(self)@.store_post(h.index, idx, bytes@, final(self)@, r),
    {
        if h.index >= self.slots.len() || self.slots[h.index].is_none() {
            return Err(ConfigError::StaleReference);
        }
        let ghost v0 = self@;
        proof { assert(self@.nodes.contains_key(h.index)); }
        let ty: usize = match &self.slots[h.index] {
            Some(n) => n.ty,
            None => 0,
        };
        let it: &ItemType = self.schema.get(ty);
        if idx >= it.attributes.len() {
            return Err(ConfigError::InvalidAttribute);
        }
        if !it.attributes[idx].mode.can_store() {
            return Err(ConfigError::PermissionDenied);
        }
        proof {
            assert(item_type_ok(v0.schema[ty as int], v0.schema));
            assert(crate::schema::slot_fits(v0.schema[ty as int].kind, v0.schema[ty as int].attributes@[idx as int]));
        }
        let taken = take_slot(&mut self.slots, h.index);
        let mut n = match taken {
            Some(n) => n,
            None => {
                return Err(ConfigError::StaleReference);
            },
        };
        let r = n.data.store(bytes);
        proof { n.data.lemma_wf(); }
        let ghost nd = n;
        self.slots.set(h.index, Some(n));
        proof {
            assert(self.slots@ == old(self).slots@.update(h.index as int, Some(nd)));
            if r is Ok {
                assert(self@.nodes =~= v0.with_data(h.index, with_bar(v0.nodes[h.index].data, bytes@)).nodes);
            } else {
                assert(self@.nodes =~= v0.nodes);
            }
            assert forall|i: usize| #[trigger] self@.nodes.contains_key(i) implies self@.node_ok(i) by {
                assert(v0.node_ok(i));
                let nn = self@.nodes[i];
                assert forall|k: int| 0 <= k < nn.children.len() implies {
                    let y = (#[trigger] nn.children[k]).1;
                    &&& self@.nodes.contains_key(y)
                    &&& self@.nodes[y].path == nn.path.push(i)
                    &&& self@.schema[nn.ty as int].child == Some(self@.nodes[y].ty)
                } by {
                    let y = v0.nodes[i].children[k].1;
                    assert(v0.nodes.contains_key(y));
                }
            }
        }
        r
    }

    /// Creates a child named `name` under node `h`. Its type is `h`'s
    /// declared child type and its data is what `h`'s data makes for a child.
    pub fn create_child(&mut self, h: Handle, name: Vec<u8>) -> (r: Result<Handle, ConfigError>)
        requires
            old(self).wf(),
        ensures
            final(self).wf(),
            old(self)@.create_post(h.index, name@, final(self)@, r),
    {
        if h.index >= self.slots.len() || self.slots[h.index].is_none() {
            return Err(ConfigError::StaleReference);
        }
        let ghost v0 = self@;
        proof { assert(v0.nodes.contains_key(h.index)); assert(v0.node_ok(h.index)); }
        let (child_ty, child_path, data) = match &self.slots[h.index] {
            Some(n) => {
                let ct = match self.schema.get(n.ty).child {
                    Some(c) => c,
                    None => {
                        return Err(ConfigError::UnsupportedOperation);
                    },
                };
                match find_child(&n.children, &name) {
                    Some(k) => {
                        proof {
                            let ch = n.children@[k as int];
                            assert(v0.nodes[h.index].children[k as int] == (ch.0@, ch.1));
                        }
                        return Err(ConfigError::NameConflict);
                    },
                    None => {},
                }
                proof {
                    assert(item_type_ok(v0.schema[n.ty as int], v0.schema));
                    assert(!has_name(v0.nodes[h.index].children, name@)) by {
                        assert forall|k: int| 0 <= k < v0.nodes[h.index].children.len() implies
                            (#[trigger] v0.nodes[h.index].children[k]).0 != name@ by {
                            assert(n.children@[k].0@ != name@);
                        }
                    }
                }
                let d = match n.data.make_child() {
                    Some(d) => d,
                    None => {
                        return Err(ConfigError::UnsupportedOperation);
                    },
                };
                (ct, extend_path(&n.path, h.index), d)
            },
            None => {
                return Err(ConfigError::StaleReference);
            },
        };
        let c: usize = self.slots.len();
        let child = Node { ty: child_ty, data, path: child_path, children: Vec::new() };
        let ghost cv = child@;
        proof { assert(child@.children =~= Seq::<(Seq<u8>, usize)>::empty()); }
        self.slots.push(Some(child));
        let taken = take_slot(&mut self.slots, h.index);
        let mut p = match taken {
            Some(p) => p,
            None => {
                return Err(ConfigError::StaleReference);
            },
        };
        let ghost pv0 = p@;
        p.children.push((name, c));
        let ghost pn = p;
        proof {
            assert(p@.children =~= pv0.children.push((name@, c)));
        }
        self.slots.set(h.index, Some(p));
        proof {
            let t = v0.with_child(h.index, name@, c);
            assert(self@.nodes =~= t.nodes);
            assert forall|i: usize| #[trigger] self@.nodes.contains_key(i) implies self@.node_ok(i) by {
                if i != c {
                    assert(v0.node_ok(i));
                }
                let nn = self@.nodes[i];
                assert forall|k: int| 0 <= k < nn.children.len() implies {
                    let y = (#[trigger] nn.children[k]).1;
                    &&& self@.nodes.contains_key(y)
                    &&& self@.nodes[y].path == nn.path.push(i)
                    &&& self@.schema[nn.ty as int].child == Some(self@.nodes[y].ty)
                } by {
                    if i != c && !(i == h.index && k == nn.children.len() - 1) {
                        let y = v0.nodes[i].children[k].1;
                        assert(v0.nodes.contains_key(y));
                    }
                }
                if i == h.index {
                    assert forall|a: int, b: int| 0 <= a < b < nn.children.len() implies
                        nn.children[a].1 != nn.children[b].1 by {
                        if b == nn.children.len() - 1 {
                            assert(v0.nodes.contains_key(nn.children[a].1));
                        }
                    }
                    assert forall|a: int, b: int| 0 <= a < b < nn.children.len() implies
                        nn.children[a].0 != nn.children[b].0 by {
                        if b == nn.children.len() - 1 {
                            assert(v0.nodes[h.index].children[a] == nn.children[a]);
                        }
                    }
                }
            }
            assert forall|i: int|
                0 <= i < self.slots@.len() && (#[trigger] self.slots@[i]) is Some implies self.slots@[i]->Some_0.data.wf() by {
                if i < c && i != h.index {
                    assert(old(self).slots@[i] == self.slots@[i]);
                }
            }
        }
        Ok(Handle { index: c })
    }

    /// Removes the child named `name` of node `h` and everything below it.
    /// Handles to the removed nodes go stale.
    pub fn remove_child(&mut self, h: Handle, name: &Vec<u8>) -> (r: Result<(), ConfigError>)
        requires
            old(self).wf(),
        ensures
            final(self).wf(),
            old(self)@.remove_post(h.index, name@, final(self)@, r),
    {
        if h.index >= self.slots.len() || self.slots[h.index].is_none() {
            return Err(ConfigError::StaleReference);
        }
        let ghost v0 = self@;
        proof { assert(v0.nodes.contains_key(h.index)); assert(v0.node_ok(h.index)); }
        let (k, c) = match &self.slots[h.index] {
            Some(n) => match find_child(&n.children, name) {
                Some(k) => {
                    proof {
                        let ch = n.children@[k as int];
                        assert(v0.nodes[h.index].children[k as int] == (ch.0@, ch.1));
                    }
                    (k, n.children[k].1)
                },
                None => {
                    proof {
                        assert forall|j: int| 0 <= j < v0.nodes[h.index].children.len() implies
                            (#[trigger] v0.nodes[h.index].children[j]).0 != name@ by {
                            assert(n.children@[j].0@ != name@);
                        }
                    }
                    return Err(ConfigError::NotFound);
                },
            },
            None => {
                return Err(ConfigError::StaleReference);
            },
        };
        proof {
            assert(v0.nodes.contains_key(c));
            lemma_without_child(v0, h.index, k as int);
        }
        let dc: usize = match &self.slots[c] {
            Some(cn) => cn.path.len(),
            None => 0,
        };
        let taken = take_slot(&mut self.slots, h.index);
        let mut p = match taken {
            Some(p) => p,
            None => {
                return Err(ConfigError::StaleReference);
            },
        };
        let ghost pv0 = p@;
        p.children.remove(k);
        proof {
            assert(p@.children =~= pv0.children.remove(k as int));
        }
        self.slots.set(h.index, Some(p));
        let ghost s1 = self.slots@;
        let len = self.slots.len();
        let mut i: usize = 0;
        while i < len
            invariant
                self.schema@ == v0.schema,
                self.root == v0.root,
                len == s1.len(),
                self.slots@.len() == len,
                i <= len,
                forall|j: int|
                    0 <= j < i ==> #[trigger] self.slots@[j] == (if s1[j] is Some && (j == c || (
                        s1[j]->Some_0.path@.len() > dc && s1[j]->Some_0.path@[dc as int] == c)) {
                        None::<Node>
                    } else {
                        s1[j]
                    }),
                forall|j: int| i <= j < len ==> #[trigger] self.slots@[j] == s1[j],
            decreases len - i,
        {
            let free = match &self.slots[i] {
                Some(n) => i == c || (n.path.len() > dc && n.path[dc] == c),
                None => false,
            };
            if free {
                self.slots.set(i, None);
            }
            i = i + 1;
        }
        proof {
            let t = v0.without_child(h.index, k as int);
            assert(dc == v0.nodes[c].path.len());
            assert forall|j: usize| #[trigger] self@.nodes.contains_key(j) == t.nodes.contains_key(j) by {
                if j < len && s1[j as int] is Some {
                    assert(s1[j as int]->Some_0.path@ == v0.nodes[j].path);
                }
            }
            assert forall|j: usize| #[trigger] self@.nodes.contains_key(j) implies self@.nodes[j] == t.nodes[j] by {
                assert(self.slots@[j as int] == s1[j as int]);
            }
            assert(self@.nodes =~= t.nodes);
            assert(self@ == t);
            assert(v0.nodes[h.index].children[k as int].0 == name@);
            assert forall|j: int|
                0 <= j < self.slots@.len() && (#[trigger] self.slots@[j]) is Some implies self.slots@[j]->Some_0.data.wf() by {
                assert(self.slots@[j] == s1[j]);
                if j != h.index {
                    assert(s1[j] == old(self).slots@[j]);
                }
            }
        }
        Ok(())
    }
}

} // verus!
