use vstd::prelude::*;

use crate::registry::Schema;
use crate::schema::{
    hello_baz, hello_gc, item_type_ok, AttributeSlot, DataKind, DataView, ItemType, Mode, NodeData,
    Source,
};
use crate::storage::PAGE_SIZE;
use crate::tree::{NodeView, Tree};

verus! {

/// `t` is a leaf type of grandchild data with one read-only fixed-text attribute.
pub open spec fn is_grand_child_type(t: ItemType) -> bool {
    &&& t.kind == DataKind::GrandChild
    &&& t.child is None
    &&& t.attributes@.len() == 1
    &&& t.attributes@[0].name@ == seq![103u8, 99]
    &&& t.attributes@[0].mode == Mode::ReadOnly
    &&& t.attributes@[0].source matches Source::Text(x) && x@ == hello_gc()
}

/// `t` is a type of child data with one read-only fixed-text attribute,
/// whose children are of type `gc`.
pub open spec fn is_child_type(t: ItemType, gc: usize) -> bool {
    &&& t.kind == DataKind::Child
    &&& t.child == Some(gc)
    &&& t.attributes@.len() == 1
    &&& t.attributes@[0].name@ == seq![98u8, 97, 122]
    &&& t.attributes@[0].mode == Mode::ReadOnly
    &&& t.attributes@[0].source matches Source::Text(x) && x@ == hello_baz()
}

/// `t` is a type of configuration data with a read-only message at 0 and a
/// read-write stored value at 1, whose children are of type `child`.
pub open spec fn is_configuration_type(t: ItemType, child: usize) -> bool {
    &&& t.kind == DataKind::Configuration
    &&& t.child == Some(child)
    &&& t.attributes@.len() == 2
    &&& t.attributes@[0].name@ == seq![109u8, 101, 115, 115, 97, 103, 101]
    &&& t.attributes@[0].mode == Mode::ReadOnly
    &&& t.attributes@[0].source is Message
    &&& t.attributes@[1].name@ == seq![98u8, 97, 114]
    &&& t.attributes@[1].mode == Mode::ReadWrite
    &&& t.attributes@[1].source is Stored
}

pub fn grand_child_type() -> (t: ItemType)
    ensures
        is_grand_child_type(t),
{
    let mut attributes: Vec<AttributeSlot> = Vec::new();
    attributes.push(
        AttributeSlot {
            name: vec![103u8, 99],
            mode: Mode::ReadOnly,
            source: Source::Text(vec![72u8, 101, 108, 108, 111, 32, 71, 67, 10]),
        },
    );
    ItemType { kind: DataKind::GrandChild, attributes, child: None }
}

pub fn child_type(gc: usize) -> (t: ItemType)
    ensures
        is_child_type(t, gc),
{
    let mut attributes: Vec<AttributeSlot> = Vec::new();
    attributes.push(
        AttributeSlot {
            name: vec![98u8, 97, 122],
            mode: Mode::ReadOnly,
            source: Source::Text(vec![72u8, 101, 108, 108, 111, 32, 66, 97, 122, 10]),
        },
    );
    ItemType { kind: DataKind::Child, attributes, child: Some(gc) }
}

pub fn configuration_type(child: usize) -> (t: ItemType)
    ensures
        is_configuration_type(t, child),
{
    let mut attributes: Vec<AttributeSlot> = Vec::new();
    attributes.push(
        AttributeSlot { name: vec![109u8, 101, 115, 115, 97, 103, 101], mode: Mode::ReadOnly, source: Source::Message },
    );
    attributes.push(AttributeSlot { name: vec![98u8, 97, 114], mode: Mode::ReadWrite, source: Source::Stored });
    ItemType { kind: DataKind::Configuration, attributes, child: Some(child) }
}

/// The sample subsystem: a configuration root whose children are child
/// nodes, whose children in turn are leaf grandchild nodes.
pub fn rust_configfs() -> (t: Tree)
    ensures
        t.wf(),
        t@.schema.len() == 3,
        is_grand_child_type(t@.schema[0]),
        is_child_type(t@.schema[1], 0),
        is_configuration_type(t@.schema[2], 1),
        t@.root == 0,
        t@.nodes == Map::<usize, NodeView>::empty().insert(
            0,
            NodeView {
                ty: 2,
                data: DataView::Configuration {
                    message: crate::schema::hello_world(),
                    bar: Seq::empty(),
                    capacity: PAGE_SIZE as nat,
                },
                path: Seq::empty(),
                children: Seq::empty(),
            },
        ),
{
    let mut schema = Schema::new();
    let gct = grand_child_type();
    proof {
        assert(item_type_ok(gct, schema@));
    }
    let gc = schema.register(gct);
    let ct = child_type(gc);
    proof {
        assert(item_type_ok(ct, schema@));
    }
    let c = schema.register(ct);
    let rt = configuration_type(c);
    proof {
        assert(item_type_ok(rt, schema@));
    }
    let root = schema.register(rt);
    Tree::create_root(schema, root, NodeData::configuration())
}

} // verus!
