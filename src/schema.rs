use vstd::prelude::*;

use crate::error::ConfigError;
use crate::storage::{fill_page, Storage, PAGE_SIZE};

verus! {

/// Which directions an attribute supports.
#[derive(Debug, Clone, Copy, PartialEq, Eq, Structural)]
pub enum Mode {
    ReadOnly,
    WriteOnly,
    ReadWrite,
}

impl Mode {
    /// The attribute has a show handler.
    pub open spec fn readable(self) -> bool {
        !(self is WriteOnly)
    }

    /// The attribute has a store handler.
    pub open spec fn writable(self) -> bool {
        !(self is ReadOnly)
    }

    pub fn can_show(&self) -> (r: bool)
        ensures
            r == self.readable(),
    {
        !matches!(self, Mode::WriteOnly)
    }

    pub fn can_store(&self) -> (r: bool)
        ensures
            r == self.writable(),
    {
        !matches!(self, Mode::ReadOnly)
    }
}

/// Where an attribute's value comes from: the handler bound to the slot.
pub enum Source {
    /// A fixed text, the same for every node of the type.
    Text(Vec<u8>),
    /// The node's message.
    Message,
    /// The node's stored value, which a store replaces.
    Stored,
}

/// One named attribute of an item type.
pub struct AttributeSlot {
    pub name: Vec<u8>,
    pub mode: Mode,
    pub source: Source,
}

/// The closed set of data kinds a node can carry.
#[derive(Debug, Clone, Copy, PartialEq, Eq, Structural)]
pub enum DataKind {
    Configuration,
    Child,
    GrandChild,
}

impl DataKind {
    /// The kind of data that data of this kind makes for a new child.
    pub fn child(&self) -> (r: Option<DataKind>)
        ensures
            r == child_kind(*self),
    {
        match self {
            DataKind::Configuration => Some(DataKind::Child),
            DataKind::Child => Some(DataKind::GrandChild),
            DataKind::GrandChild => None,
        }
    }
}

/// The schema of one class of node: its data kind, its attribute table
/// (indexed from 0 in declaration order) and the type of the children it
/// may create, as an index into the same schema.
pub struct ItemType {
    pub kind: DataKind,
    pub attributes: Vec<AttributeSlot>,
    pub child: Option<usize>,
}

/// A node's data, as the contracts see it.
pub enum DataView {
    Configuration { message: Seq<u8>, bar: Seq<u8>, capacity: nat },
    Child,
    GrandChild,
}

/// A node's data payload.
pub enum NodeData {
    Configuration { message: Vec<u8>, bar: Storage },
    Child,
    GrandChild,
}

/// The kind of data a node of kind `k` creates for a new child, if any.
pub open spec fn child_kind(k: DataKind) -> Option<DataKind> {
    match k {
        DataKind::Configuration => Some(DataKind::Child),
        DataKind::Child => Some(DataKind::GrandChild),
        DataKind::GrandChild => None,
    }
}

pub open spec fn kind_of(d: DataView) -> DataKind {
    match d {
        DataView::Configuration { .. } => DataKind::Configuration,
        DataView::Child => DataKind::Child,
        DataView::GrandChild => DataKind::GrandChild,
    }
}

/// A slot's handlers can run on data of kind `k`: message and stored value
/// exist only in configuration data, and only a stored value can be written.
pub open spec fn slot_fits(k: DataKind, a: AttributeSlot) -> bool {
    &&& (a.source is Message || a.source is Stored) ==> k == DataKind::Configuration
    &&& a.mode.writable() ==> a.source is Stored
}

/// No two attributes share a name.
pub open spec fn names_unique(attrs: Seq<AttributeSlot>) -> bool {
    forall|i: int, j: int| 0 <= i < j < attrs.len() ==> attrs[i].name@ != attrs[j].name@
}

/// `t` may be added to a schema that already holds `types`.
pub open spec fn item_type_ok(t: ItemType, types: Seq<ItemType>) -> bool {
    &&& names_unique(t.attributes@)
    &&& forall|i: int| 0 <= i < t.attributes@.len() ==> slot_fits(t.kind, #[trigger] t.attributes@[i])
    &&& t.child is Some ==> {
        &&& t.child->Some_0 < types.len()
        &&& child_kind(t.kind) == Some(types[t.child->Some_0 as int].kind)
    }
}

/// The bytes a show of an attribute with source `s` produces on data `d`.
pub open spec fn shown(d: DataView, s: Source) -> Seq<u8> {
    match s {
        Source::Text(t) => t@,
        Source::Message => match d {
            DataView::Configuration { message, .. } => message,
            _ => Seq::empty(),
        },
        Source::Stored => match d {
            DataView::Configuration { bar, .. } => bar,
            _ => Seq::empty(),
        },
    }
}

/// How many bytes a store can put in data `d`.
pub open spec fn capacity_of(d: DataView) -> nat {
    match d {
        DataView::Configuration { capacity, .. } => capacity,
        _ => 0,
    }
}

/// A stored value never exceeds its capacity.
pub open spec fn data_ok(d: DataView) -> bool {
    d matches DataView::Configuration { bar, capacity, .. } ==> bar.len() <= capacity
}

/// The data a node with data `d` creates for a new child.
pub open spec fn child_data(d: DataView) -> Option<DataView> {
    match d {
        DataView::Configuration { .. } => Some(DataView::Child),
        DataView::Child => Some(DataView::GrandChild),
        DataView::GrandChild => None,
    }
}

pub open spec fn hello_world() -> Seq<u8> {
    seq![72u8, 101, 108, 108, 111, 32, 87, 111, 114, 108, 100, 10]
}

pub open spec fn hello_baz() -> Seq<u8> {
    seq![72u8, 101, 108, 108, 111, 32, 66, 97, 122, 10]
}

pub open spec fn hello_gc() -> Seq<u8> {
    seq![72u8, 101, 108, 108, 111, 32, 71, 67, 10]
}

impl NodeData {
    pub closed spec fn view(&self) -> DataView {
        match self {
            NodeData::Configuration { message, bar } => DataView::Configuration {
                message: message@,
                bar: bar@,
                capacity: bar.capacity(),
            },
            NodeData::Child => DataView::Child,
            NodeData::GrandChild => DataView::GrandChild,
        }
    }

    pub closed spec fn wf(&self) -> bool {
        match self {
            NodeData::Configuration { bar, .. } => bar.wf(),
            _ => true,
        }
    }

    pub proof fn lemma_wf(&self)
        requires
            self.wf(),
        ensures
            data_ok(self@),
    {
        if let NodeData::Configuration { bar, .. } = self {
            bar.lemma_len();
        }
    }

    /// Data of a fresh root: the greeting message and an empty page-sized store.
    pub fn configuration() -> (d: Self)
        ensures
            d.wf(),
            d@ == (DataView::Configuration {
                message: hello_world(),
                bar: Seq::empty(),
                capacity: PAGE_SIZE as nat,
            }),
    {
        NodeData::Configuration {
            message: vec![72u8, 101, 108, 108, 111, 32, 87, 111, 114, 108, 100, 10],
            bar: Storage::new(PAGE_SIZE),
        }
    }

    pub fn kind(&self) -> (k: DataKind)
        ensures
            k == kind_of(self@),
    {
        match self {
            NodeData::Configuration { .. } => DataKind::Configuration,
            NodeData::Child => DataKind::Child,
            NodeData::GrandChild => DataKind::GrandChild,
        }
    }

    /// The data for a new child of a node holding `self`: a configuration
    /// makes a child, a child makes a grandchild, a grandchild makes nothing.
    pub fn make_child(&self) -> (r: Option<NodeData>)
        ensures
            r matches Some(c) ==> c.wf(),
            r is Some <==> child_data(self@) is Some,
            r matches Some(c) ==> child_data(self@) == Some(c@),
    {
        match self {
            NodeData::Configuration { .. } => Some(NodeData::Child),
            NodeData::Child => Some(NodeData::GrandChild),
            NodeData::GrandChild => None,
        }
    }

    /// Runs the show handler `s` on this data, writing to the front of `page`.
    pub fn show(&self, s: &Source, page: &mut Vec<u8>) -> (r: Result<usize, ConfigError>)
        requires
            self.wf(),
        ensures
            final(page)@.len() == old(page)@.len(),
            shown(self@, *s).len() > old(page)@.len() ==> r == Err::<usize, ConfigError>(
                ConfigError::Overflow,
            ) && final(page)@ == old(page)@,
            shown(self@, *s).len() <= old(page)@.len() ==> r == Ok::<usize, ConfigError>(
                shown(self@, *s).len() as usize,
            ) && final(page)@ == shown(self@, *s) + old(page)@.subrange(
                shown(self@, *s).len() as int,
                old(page)@.len() as int,
            ),
    {
        let empty: Vec<u8> = Vec::new();
        match s {
            Source::Text(t) => {
                proof { assert(t@.subrange(0, t@.len() as int) == t@); }
                fill_page(page, t.as_slice(), t.len())
            },
            Source::Message => match self {
                NodeData::Configuration { message, .. } => {
                    proof { assert(message@.subrange(0, message@.len() as int) == message@); }
                    fill_page(page, message.as_slice(), message.len())
                },
                _ => {
                    proof { assert(empty@.subrange(0, 0) == empty@); }
                    fill_page(page, empty.as_slice(), 0)
                },
            },
            Source::Stored => match self {
                NodeData::Configuration { bar, .. } => bar.show(page),
                _ => {
                    proof { assert(empty@.subrange(0, 0) == empty@); }
                    fill_page(page, empty.as_slice(), 0)
                },
            },
        }
    }

    /// Runs the store handler on this data: replaces the stored value with
    /// `input`, or refuses with `CapacityExceeded` and changes nothing.
    pub fn store(&mut self, input: &[u8]) -> (r: Result<(), ConfigError>)
        requires
            old(self).wf(),
            old(self)@ is Configuration,
        ensures
            final(self).wf(),
            input@.len() > capacity_of(old(self)@) ==> r == Err::<(), ConfigError>(
                ConfigError::CapacityExceeded,
            ) && final(self)@ == old(self)@,
            input@.len() <= capacity_of(old(self)@) ==> r == Ok::<(), ConfigError>(())
                && final(self)@ == (DataView::Configuration {
                message: old(self)@->message,
                bar: input@,
                capacity: capacity_of(old(self)@),
            }),
    {
        match self {
            NodeData::Configuration { bar, .. } => bar.store(input),
            _ => Err(ConfigError::PermissionDenied),
        }
    }
}

} // verus!
