use vstd::prelude::*;

use crate::error::ConfigError;
use crate::schema::{capacity_of, item_type_ok, slot_fits};
use crate::tree::{has_name, Handle, TreeView};

verus! {

/// Showing an attribute that supports both directions and storing the shown
/// bytes straight back succeeds and leaves the tree, and so every later
/// show, exactly as it was.
pub proof fn show_store_round_trip(
    v: TreeView,
    h: usize,
    idx: usize,
    p0: Seq<u8>,
    p1: Seq<u8>,
    n: usize,
    t: TreeView,
    r: Result<(), ConfigError>,
)
    requires
        v.wf(),
        p0.len() <= usize::MAX,
        v.show_post(h, idx, p0, p1, Ok(n)),
        v.attr(h, idx).mode.writable(),
        v.store_post(h, idx, p1.subrange(0, n as int), t, r),
    ensures
        r == Ok::<(), ConfigError>(()),
        t == v,
        t.value(h, idx) == v.value(h, idx),
{
    let ty = v.nodes[h].ty;
    assert(v.node_ok(h));
    assert(item_type_ok(v.schema[ty as int], v.schema));
    assert(slot_fits(v.schema[ty as int].kind, v.schema[ty as int].attributes@[idx as int]));
    assert(p1.subrange(0, n as int) =~= v.value(h, idx));
    assert(t.nodes =~= v.nodes);
}

/// A store longer than the attribute's capacity is refused with
/// `CapacityExceeded` and changes nothing, so the prior value stays.
pub proof fn oversized_store_keeps_value(
    v: TreeView,
    h: usize,
    idx: usize,
    bytes: Seq<u8>,
    t: TreeView,
    r: Result<(), ConfigError>,
)
    requires
        v.live(h),
        idx < v.attr_count(h),
        v.attr(h, idx).mode.writable(),
        bytes.len() > capacity_of(v.nodes[h].data),
        v.store_post(h, idx, bytes, t, r),
    ensures
        r == Err::<(), ConfigError>(ConfigError::CapacityExceeded),
        t == v,
        t.value(h, idx) == v.value(h, idx),
{
}

/// Creating a child under a name that is already taken is refused with
/// `NameConflict` and leaves the tree, the existing child and its subtree
/// included, as it was.
pub proof fn duplicate_name_conflicts(
    v: TreeView,
    h: usize,
    name: Seq<u8>,
    t: TreeView,
    r: Result<Handle, ConfigError>,
)
    requires
        v.wf(),
        v.live(h),
        has_name(v.nodes[h].children, name),
        v.create_post(h, name, t, r),
    ensures
        r == Err::<Handle, ConfigError>(ConfigError::NameConflict),
        t == v,
{
    assert(v.node_ok(h));
    let k = choose|k: int| 0 <= k < v.nodes[h].children.len() && (#[trigger] v.nodes[h].children[k]).0 == name;
    assert(v.nodes.contains_key(v.nodes[h].children[k].1));
}

/// Creating a child under a node whose type declares no child type is
/// refused with `UnsupportedOperation`, whatever the name.
pub proof fn leaf_refuses_children(
    v: TreeView,
    h: usize,
    name: Seq<u8>,
    t: TreeView,
    r: Result<Handle, ConfigError>,
)
    requires
        v.live(h),
        v.item_type(h).child is None,
        v.create_post(h, name, t, r),
    ensures
        r == Err::<Handle, ConfigError>(ConfigError::UnsupportedOperation),
        t == v,
{
}

/// Once a child has been removed, every node that was in its subtree is gone,
/// and each operation addressed to one of them reports `StaleReference`.
pub proof fn removed_subtree_is_stale(
    v: TreeView,
    h: usize,
    name: Seq<u8>,
    k: int,
    g: usize,
    t: TreeView,
)
    requires
        v.wf(),
        v.remove_post(h, name, t, Ok(())),
        0 <= k < v.nodes[h].children.len(),
        v.nodes[h].children[k].0 == name,
        v.live(g),
        v.in_subtree(g, v.nodes[h].children[k].1),
    ensures
        !t.live(g),
        forall|idx: usize, p0: Seq<u8>, p1: Seq<u8>, r: Result<usize, ConfigError>|
            #[trigger] t.show_post(g, idx, p0, p1, r) ==> r == Err::<usize, ConfigError>(
                ConfigError::StaleReference,
            ) && p1 == p0,
        forall|idx: usize, bytes: Seq<u8>, t2: TreeView, r: Result<(), ConfigError>|
            #[trigger] t.store_post(g, idx, bytes, t2, r) ==> r == Err::<(), ConfigError>(
                ConfigError::StaleReference,
            ) && t2 == t,
        forall|name2: Seq<u8>, t2: TreeView, r: Result<Handle, ConfigError>|
            #[trigger] t.create_post(g, name2, t2, r) ==> r == Err::<Handle, ConfigError>(
                ConfigError::StaleReference,
            ) && t2 == t,
        forall|name2: Seq<u8>, t2: TreeView, r: Result<(), ConfigError>|
            #[trigger] t.remove_post(g, name2, t2, r) ==> r == Err::<(), ConfigError>(
                ConfigError::StaleReference,
            ) && t2 == t,
{
    assert(v.node_ok(h));
    let k2 = choose|k2: int|
        0 <= k2 < v.nodes[h].children.len() && (#[trigger] v.nodes[h].children[k2]).0 == name
            && t == v.without_child(h, k2);
    if k2 != k {
        if k2 < k {
            assert(v.nodes[h].children[k2].0 != v.nodes[h].children[k].0);
        } else {
            assert(v.nodes[h].children[k].0 != v.nodes[h].children[k2].0);
        }
    }
}

/// A successful store replaces the value whole: the next show returns
/// exactly the stored bytes.
pub proof fn store_then_show(
    v: TreeView,
    h: usize,
    idx: usize,
    bytes: Seq<u8>,
    t: TreeView,
)
    requires
        v.wf(),
        v.store_post(h, idx, bytes, t, Ok(())),
    ensures
        t.value(h, idx) == bytes,
{
    let ty = v.nodes[h].ty;
    assert(v.node_ok(h));
    assert(item_type_ok(v.schema[ty as int], v.schema));
    assert(slot_fits(v.schema[ty as int].kind, v.schema[ty as int].attributes@[idx as int]));
}

/// Two stores to one attribute, one after the other, leave exactly the
/// second value, never a mix of the two.
pub proof fn last_store_wins(
    v: TreeView,
    h: usize,
    idx: usize,
    a: Seq<u8>,
    b: Seq<u8>,
    t1: TreeView,
    t2: TreeView,
)
    requires
        v.wf(),
        v.store_post(h, idx, a, t1, Ok(())),
        t1.store_post(h, idx, b, t2, Ok(())),
    ensures
        t2.value(h, idx) == b,
{
    let ty = v.nodes[h].ty;
    assert(v.node_ok(h));
    assert(item_type_ok(v.schema[ty as int], v.schema));
    assert(slot_fits(v.schema[ty as int].kind, v.schema[ty as int].attributes@[idx as int]));
}

} // verus!
