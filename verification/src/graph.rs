//! Records of the graph store that the control plane reads and writes.
use crate::text_map::TextMap;
use vstd::prelude::*;

verus! {

/// A stored object with text properties.
#[derive(Debug, PartialEq, Eq)]
pub struct Object {
    pub id: String,
    pub kind: String,
    pub name: String,
    pub namespace: String,
    pub external_id: String,
    pub properties: TextMap<String>,
    pub created: i64,
    pub updated: i64,
}

impl Object {
    /// The text of a property, where the object has it.
    pub open spec fn property(self, key: Seq<char>) -> Option<Seq<char>> {
        crate::text_map::text_at(self.properties@, key)
    }

}

/// One property of an object type.
#[derive(Debug, PartialEq, Eq)]
pub struct PropertyDef {
    pub name: String,
    pub kind: String,
    pub required: bool,
    pub description: String,
    pub classification: String,
}

/// A type of objects.
#[derive(Debug, PartialEq, Eq)]
pub struct ObjectType {
    pub kind: String,
    pub description: String,
    pub properties: Vec<PropertyDef>,
    pub is_builtin: bool,
    pub implements: Vec<String>,
}

/// One parameter of an action.
#[derive(Debug, PartialEq, Eq)]
pub struct ActionParamDef {
    pub name: String,
    pub kind: String,
    pub required: bool,
    pub enum_values: Vec<String>,
}

/// One effect of an action.
#[derive(Debug, PartialEq, Eq)]
pub struct ActionOp {
    pub op: String,
    pub property: String,
    pub value_from: String,
    pub relation: String,
}

/// A governed action.
#[derive(Debug, PartialEq, Eq)]
pub struct ActionTypeDef {
    pub name: String,
    pub description: String,
    pub params: Vec<ActionParamDef>,
    pub ops: Vec<ActionOp>,
    pub target_kind: String,
    pub created: i64,
}

/// A recorded authorization decision.
#[derive(Debug, PartialEq, Eq)]
pub struct Decision {
    pub actor: String,
    pub action: String,
    pub reason: String,
    pub evidence: TextMap<String>,
    pub target_id: String,
    pub timestamp: i64,
}

/// A recorded change of one field of an object.
#[derive(Debug, PartialEq, Eq)]
pub struct ObjectChange {
    pub field: String,
    pub new_value: String,
    pub changed_by: String,
    pub timestamp: i64,
}

} // verus!
