//! Story entities (characters, locations, ...) and their revisions.
use vstd::prelude::*;
use crate::ids::RecordId;
use crate::domain::blank;
use crate::text::is_blank_str;

verus! {

#[derive(Debug, Clone, Copy, PartialEq, Eq, Structural)]
pub enum EntityType {
    Character,
    Location,
    Faction,
    Item,
    Concept,
}

#[derive(Debug, Clone, Copy, PartialEq, Eq, Structural)]
pub enum EntityLifecycleStatus {
    Active,
    Archived,
}

#[derive(Debug, Clone, PartialEq, Eq)]
pub struct Entity {
    pub id: RecordId,
    pub project_id: RecordId,
    pub entity_type: EntityType,
    pub lifecycle_status: EntityLifecycleStatus,
    pub current_revision_id: RecordId,
    pub version: i64,
    pub created_at: String,
    pub updated_at: String,
}

#[derive(Debug, Clone, PartialEq, Eq)]
pub struct EntityRevision {
    pub id: RecordId,
    pub entity_id: RecordId,
    pub revision: i64,
    pub name: String,
    pub aliases: Vec<String>,
    pub description: String,
    pub fixed_attributes_json: String,
    pub tags: Vec<String>,
    pub base_revision_id: Option<RecordId>,
    pub source_version: Option<String>,
    pub created_at: String,
}

#[derive(Debug, Clone, PartialEq, Eq)]
pub struct EntityInput {
    pub id: Option<RecordId>,
    pub entity_type: EntityType,
    pub name: String,
    pub aliases: Vec<String>,
    pub description: String,
    pub fixed_attributes_json: String,
    pub tags: Vec<String>,
    pub base_revision_id: Option<RecordId>,
    pub source_version: Option<String>,
    pub expected_version: Option<i64>,
}

#[derive(Debug, Clone, Copy, PartialEq, Eq, Structural)]
pub enum EntityError {
    EmptyName,
    InvalidFixedAttributes,
    Conflict { expected: i64, actual: i64 },
}

/// The root of the JSON text, as `serde_json` parses it: `None` when the text
/// is not JSON, otherwise whether the root is an object.
pub uninterp spec fn json_root_is_object(text: Seq<char>) -> Option<bool>;

/// Parses JSON text with `serde_json::from_str::<serde_json::Value>` and
/// reports whether the root is an object; the contract names that outcome,
/// which depends on the text alone.
#[verifier::external_body]
fn parse_json_root(text: &str) -> (r: Option<bool>)
    ensures
        r == json_root_is_object(text@),
{
    match serde_json::from_str::<serde_json::Value>(text) {
        Ok(value) => Some(value.is_object()),
        Err(_) => None,
    }
}

/// The verdict on fixed attributes, given how their JSON text parsed.
pub open spec fn attributes_verdict(root: Option<bool>) -> Result<(), EntityError> {
    if root == Some(true) {
        Ok(())
    } else {
        Err(EntityError::InvalidFixedAttributes)
    }
}

/// Fixed attributes must be a JSON object.
pub fn fixed_attributes_verdict(root: Option<bool>) -> (r: Result<(), EntityError>)
    ensures
        r == attributes_verdict(root),
{
    match root {
        Some(true) => Ok(()),
        _ => Err(EntityError::InvalidFixedAttributes),
    }
}

impl EntityInput {
    pub open spec fn validation(&self) -> Result<(), EntityError> {
        if blank(self.name@) {
            Err(EntityError::EmptyName)
        } else {
            attributes_verdict(json_root_is_object(self.fixed_attributes_json@))
        }
    }

    /// A name is required and the fixed attributes must be a JSON object.
    pub fn validate(&self) -> (r: Result<(), EntityError>)
        ensures
            r == self.validation(),
    {
        if is_blank_str(self.name.as_str()) {
            return Err(EntityError::EmptyName);
        }
        let root = parse_json_root(self.fixed_attributes_json.as_str());
        fixed_attributes_verdict(root)
    }
}

} // verus!
