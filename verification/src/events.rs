//! Parts of event payloads that hold no measurements.

use vstd::prelude::*;
use vstd::std_specs::cmp::PartialEqSpecImpl;

verus! {

/// An item of a scene, as the events about the order of a scene's items list it.
#[derive(Debug)]
pub struct SceneItem {
    item_id: u32,
    source_name: String,
}

impl SceneItem {
    /// The item `item_id`, which shows the source `source_name`.
    pub fn new(item_id: u32, source_name: String) -> (item: Self)
        ensures
            item.id() == item_id,
            item.name() == source_name@,
    {
        SceneItem { item_id, source_name }
    }

    /// The number of the item within its scene.
    pub closed spec fn id(&self) -> u32 {
        self.item_id
    }

    /// The name of the source that the item shows.
    pub closed spec fn name(&self) -> Seq<char> {
        self.source_name@
    }

    /// The number of the item within its scene.
    pub fn item_id(&self) -> (item_id: u32)
        ensures
            item_id == self.id(),
    {
        self.item_id
    }

    /// The name of the source that the item shows.
    pub fn source_name(&self) -> (source_name: &str)
        ensures
            source_name@ == self.name(),
    {
        self.source_name.as_str()
    }
}

impl PartialEq for SceneItem {
    fn eq(&self, other: &Self) -> (equal: bool) {
        self.item_id == other.item_id && self.source_name == other.source_name
    }
}

impl PartialEqSpecImpl for SceneItem {
    open spec fn obeys_eq_spec() -> bool {
        true
    }

    open spec fn eq_spec(&self, other: &Self) -> bool {
        self.id() == other.id() && self.name() == other.name()
    }
}

} // verus!
