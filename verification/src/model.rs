use vstd::prelude::*;
use crate::date::Date;

verus! {

/// The kind of a container in the namespace: a text channel holding pinned
/// messages, a category grouping channels, or anything else (voice channels
/// and the like), which the report never covers.
#[derive(Clone, Copy, PartialEq, Eq, Structural, Debug)]
pub enum ContainerKind {
    Channel,
    Category,
    Other,
}

/// One container record of a namespace snapshot: its identifier, the
/// identifier of the namespace that owns it, its display name, its kind, and
/// the identifier of the category it sits under, if any.
#[derive(Debug)]
pub struct Container {
    pub id: u64,
    pub guild_id: u64,
    pub name: String,
    pub kind: ContainerKind,
    pub parent_id: Option<u64>,
}

/// Mathematical image of a `Container`: the same plain fields with the name as
/// a sequence of characters.
#[verifier::ext_equal]
pub struct ContainerV {
    pub id: u64,
    pub guild_id: u64,
    pub name: Seq<char>,
    pub kind: ContainerKind,
    pub parent_id: Option<u64>,
}

impl View for Container {
    type V = ContainerV;

    open spec fn view(&self) -> ContainerV {
        ContainerV {
            id: self.id,
            guild_id: self.guild_id,
            name: self.name@,
            kind: self.kind,
            parent_id: self.parent_id,
        }
    }
}

impl Clone for Container {
    fn clone(&self) -> (r: Self)
        ensures
            r@ == self@,
    {
        Container {
            id: self.id,
            guild_id: self.guild_id,
            name: self.name.clone(),
            kind: self.kind,
            parent_id: self.parent_id,
        }
    }
}

/// A read-only snapshot of a namespace ("guild"): every container it holds,
/// under one owning identifier. Identifiers are unique within the snapshot and
/// every record carries the snapshot's own guild identifier.
pub struct Namespace {
    pub guild_id: u64,
    pub containers: Vec<Container>,
}

#[verifier::ext_equal]
pub struct NamespaceV {
    pub guild_id: u64,
    pub containers: Seq<ContainerV>,
}

impl View for Namespace {
    type V = NamespaceV;

    open spec fn view(&self) -> NamespaceV {
        NamespaceV { guild_id: self.guild_id, containers: self.containers@.map_values(|c: Container| c@) }
    }
}

impl NamespaceV {
    pub open spec fn wf(self) -> bool {
        &&& forall|i: int, j: int|
            0 <= i < j < self.containers.len() ==> self.containers[i].id != self.containers[j].id
        &&& forall|i: int|
            0 <= i < self.containers.len() ==> (#[trigger] self.containers[i]).guild_id
                == self.guild_id
    }
}

impl Namespace {
    pub open spec fn wf(self) -> bool {
        self@.wf()
    }
}

/// One pinned message as the report reads it: the calendar date of its
/// timestamp, its sanitized display content, and a permalink to it.
#[derive(Debug)]
pub struct Pin {
    pub date: Date,
    pub content: String,
    pub link: String,
}

#[verifier::ext_equal]
pub struct PinV {
    pub date: Date,
    pub content: Seq<char>,
    pub link: Seq<char>,
}

impl View for Pin {
    type V = PinV;

    open spec fn view(&self) -> PinV {
        PinV { date: self.date, content: self.content@, link: self.link@ }
    }
}

} // verus!
