//! The decisions behind stored entities: their stored names, and the checks
//! made before a revision is written or an entity archived.
use vstd::prelude::*;
use crate::entity::{EntityError, EntityInput, EntityLifecycleStatus, EntityType};
use crate::ids::RecordId;
use crate::text::{chars_of, eq_str, str_eq};

verus! {

/// Why an entity operation was refused.
#[derive(Debug, Clone, PartialEq, Eq)]
pub enum EntityStoreError {
    NoProject,
    MissingEntity(RecordId),
    MissingRevision(RecordId),
    Contract(EntityError),
    Database(String),
}

/// The stored name of an entity type.
pub open spec fn entity_type_key(t: EntityType) -> Seq<char> {
    match t {
        EntityType::Character => "CHARACTER"@,
        EntityType::Location => "LOCATION"@,
        EntityType::Faction => "FACTION"@,
        EntityType::Item => "ITEM"@,
        EntityType::Concept => "CONCEPT"@,
    }
}

pub fn entity_type_str(value: EntityType) -> (r: &'static str)
    ensures
        r@ == entity_type_key(value),
{
    match value {
        EntityType::Character => "CHARACTER",
        EntityType::Location => "LOCATION",
        EntityType::Faction => "FACTION",
        EntityType::Item => "ITEM",
        EntityType::Concept => "CONCEPT",
    }
}

/// A stored entity type read back; `None` for an unknown name.
pub fn parse_entity_type(value: &str) -> (r: Option<EntityType>)
    ensures
        match r {
            Some(t) => entity_type_key(t) == value@,
            None => forall|t: EntityType| entity_type_key(t) != value@,
        },
{
    let v = chars_of(value);
    if eq_str(&v, "CHARACTER") {
        Some(EntityType::Character)
    } else if eq_str(&v, "LOCATION") {
        Some(EntityType::Location)
    } else if eq_str(&v, "FACTION") {
        Some(EntityType::Faction)
    } else if eq_str(&v, "ITEM") {
        Some(EntityType::Item)
    } else if eq_str(&v, "CONCEPT") {
        Some(EntityType::Concept)
    } else {
        proof {
            assert forall|t: EntityType| entity_type_key(t) != value@ by {
                match t {
                    EntityType::Character => {},
                    EntityType::Location => {},
                    EntityType::Faction => {},
                    EntityType::Item => {},
                    EntityType::Concept => {},
                }
            }
        }
        None
    }
}

/// A stored lifecycle status read back: `ARCHIVED` is archived, anything
/// else active.
pub fn parse_entity_lifecycle(value: &str) -> (r: EntityLifecycleStatus)
    ensures
        r == if value@ == "ARCHIVED"@ {
            EntityLifecycleStatus::Archived
        } else {
            EntityLifecycleStatus::Active
        },
{
    if str_eq(value, "ARCHIVED") {
        EntityLifecycleStatus::Archived
    } else {
        EntityLifecycleStatus::Active
    }
}

/// The stored lifecycle status for the archive flag.
pub fn lifecycle_key(archived: bool) -> (r: &'static str)
    ensures
        r@ == if archived {
            "ARCHIVED"@
        } else {
            "ACTIVE"@
        },
{
    if archived {
        "ARCHIVED"
    } else {
        "ACTIVE"
    }
}

/// The stored entity an upsert meets: its version, its stored type name and
/// the revision number of its current revision.
pub type StoredEntity = (i64, String, i64);

/// Checks an upsert of `input` for entity `id` against the stored entity it
/// meets, and gives the new entity version and revision number: for a stored
/// entity the expected version must be its version and its type cannot
/// change, and both numbers advance; a new entity starts at version 1,
/// revision 1, and cannot expect a version.
pub fn check_entity_upsert(id: RecordId, input: &EntityInput, existing: &Option<StoredEntity>) -> (r: Result<(i64, i64), EntityStoreError>)
    requires
        existing matches Some(e) ==> e.0 < i64::MAX && e.2 < i64::MAX,
    ensures
        match existing {
            Some(e) => if input.expected_version != Some(e.0) {
                r == Err::<(i64, i64), EntityStoreError>(
                    EntityStoreError::Contract(
                        EntityError::Conflict {
                            expected: match input.expected_version {
                                Some(v) => v,
                                None => -1i64,
                            },
                            actual: e.0,
                        },
                    ),
                )
            } else if e.1@ != entity_type_key(input.entity_type) {
                r matches Err(EntityStoreError::Database(m)) && m@ == "entity_type cannot change"@
            } else {
                r == Ok::<(i64, i64), EntityStoreError>(((e.0 + 1) as i64, (e.2 + 1) as i64))
            },
            None => if input.expected_version is Some {
                r == Err::<(i64, i64), EntityStoreError>(EntityStoreError::MissingEntity(id))
            } else {
                r == Ok::<(i64, i64), EntityStoreError>((1, 1))
            },
        },
{
    match existing {
        Some((version, stored_type, current_revision)) => {
            if input.expected_version != Some(*version) {
                let expected = match input.expected_version {
                    Some(v) => v,
                    None => -1,
                };
                return Err(EntityStoreError::Contract(EntityError::Conflict { expected, actual: *version }));
            }
            if !str_eq(stored_type.as_str(), entity_type_str(input.entity_type)) {
                return Err(EntityStoreError::Database(String::from_str("entity_type cannot change")));
            }
            Ok((*version + 1, *current_revision + 1))
        },
        None => {
            if input.expected_version.is_some() {
                return Err(EntityStoreError::MissingEntity(id));
            }
            Ok((1, 1))
        },
    }
}

/// What an archive update that matched `changed` rows means: none matched
/// because the entity is missing, or because its version moved on.
pub fn archive_outcome(id: RecordId, changed: usize, current_version: Option<i64>, expected_version: i64) -> (r: Result<(), EntityStoreError>)
    ensures
        r == if changed > 0 {
            Ok::<(), EntityStoreError>(())
        } else {
            match current_version {
                None => Err(EntityStoreError::MissingEntity(id)),
                Some(v) => Err(EntityStoreError::Contract(EntityError::Conflict { expected: expected_version, actual: v })),
            }
        },
{
    if changed > 0 {
        return Ok(());
    }
    match current_version {
        None => Err(EntityStoreError::MissingEntity(id)),
        Some(v) => Err(EntityStoreError::Contract(EntityError::Conflict { expected: expected_version, actual: v })),
    }
}

} // verus!
