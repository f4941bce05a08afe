//! The plan tree: which node kinds may hold which, and the checks made before
//! a node is created, edited or moved.
use vstd::prelude::*;
use crate::ids::RecordId;
use crate::text::{chars_of, eq_str};

verus! {

#[derive(Debug, Clone, Copy, PartialEq, Eq, Structural)]
pub enum PlanNodeKind {
    WorkDesign,
    Outline,
    Volume,
    Chapter,
    Scene,
}

impl PlanNodeKind {
    /// The stored name of a kind.
    pub open spec fn key(self) -> Seq<char> {
        match self {
            PlanNodeKind::WorkDesign => "WORK_DESIGN"@,
            PlanNodeKind::Outline => "OUTLINE"@,
            PlanNodeKind::Volume => "VOLUME"@,
            PlanNodeKind::Chapter => "CHAPTER"@,
            PlanNodeKind::Scene => "SCENE"@,
        }
    }

    pub fn as_str(self) -> (r: &'static str)
        ensures
            r@ == self.key(),
    {
        match self {
            PlanNodeKind::WorkDesign => "WORK_DESIGN",
            PlanNodeKind::Outline => "OUTLINE",
            PlanNodeKind::Volume => "VOLUME",
            PlanNodeKind::Chapter => "CHAPTER",
            PlanNodeKind::Scene => "SCENE",
        }
    }

    /// A stored name read back; unknown names are outlines.
    pub open spec fn from_key(s: Seq<char>) -> PlanNodeKind {
        if s == "WORK_DESIGN"@ {
            PlanNodeKind::WorkDesign
        } else if s == "VOLUME"@ {
            PlanNodeKind::Volume
        } else if s == "CHAPTER"@ {
            PlanNodeKind::Chapter
        } else if s == "SCENE"@ {
            PlanNodeKind::Scene
        } else {
            PlanNodeKind::Outline
        }
    }

    pub fn parse(value: &str) -> (r: PlanNodeKind)
        ensures
            r == PlanNodeKind::from_key(value@),
    {
        let v = chars_of(value);
        if eq_str(&v, "WORK_DESIGN") {
            PlanNodeKind::WorkDesign
        } else if eq_str(&v, "VOLUME") {
            PlanNodeKind::Volume
        } else if eq_str(&v, "CHAPTER") {
            PlanNodeKind::Chapter
        } else if eq_str(&v, "SCENE") {
            PlanNodeKind::Scene
        } else {
            PlanNodeKind::Outline
        }
    }
}

/// A node of the plan tree.
#[derive(Debug, Clone, PartialEq, Eq)]
pub struct PlanNode {
    pub id: RecordId,
    pub parent_id: Option<RecordId>,
    pub kind: PlanNodeKind,
    pub title: String,
    pub sort_order: i64,
    pub archived: bool,
    pub revision: i64,
}

/// Why a plan change was refused.
#[derive(Debug, Clone, PartialEq, Eq)]
pub enum PlanError {
    Database(String),
    MissingParent(RecordId),
    MissingNode(RecordId),
    InvalidParentKind,
    Conflict { expected: i64, actual: i64 },
    Cycle,
}

/// The tree's shape: a work design holds outlines, an outline holds volumes
/// and chapters, a volume holds chapters, and a chapter holds scenes.
pub open spec fn holds(parent: PlanNodeKind, child: PlanNodeKind) -> bool {
    match (parent, child) {
        (PlanNodeKind::WorkDesign, PlanNodeKind::Outline) => true,
        (PlanNodeKind::Outline, PlanNodeKind::Volume) => true,
        (PlanNodeKind::Outline, PlanNodeKind::Chapter) => true,
        (PlanNodeKind::Volume, PlanNodeKind::Chapter) => true,
        (PlanNodeKind::Chapter, PlanNodeKind::Scene) => true,
        _ => false,
    }
}

pub fn can_hold(parent: PlanNodeKind, child: PlanNodeKind) -> (r: bool)
    ensures
        r == holds(parent, child),
{
    match (parent, child) {
        (PlanNodeKind::WorkDesign, PlanNodeKind::Outline) => true,
        (PlanNodeKind::Outline, PlanNodeKind::Volume) => true,
        (PlanNodeKind::Outline, PlanNodeKind::Chapter) => true,
        (PlanNodeKind::Volume, PlanNodeKind::Chapter) => true,
        (PlanNodeKind::Chapter, PlanNodeKind::Scene) => true,
        _ => false,
    }
}

/// A stored kind name that may hold a child of the given kind (an unknown
/// name holds nothing).
pub open spec fn stored_kind_holds(parent: Seq<char>, child: PlanNodeKind) -> bool {
    (parent == "WORK_DESIGN"@ || parent == "OUTLINE"@ || parent == "VOLUME"@ || parent == "CHAPTER"@
        || parent == "SCENE"@) && holds(PlanNodeKind::from_key(parent), child)
}

/// What creating a node under a parent gives: with a parent, the parent must
/// be an active node (`parent_kind` is its stored kind, `None` when there is
/// no such active node) of a kind that holds the new one.
pub open spec fn creation_check(parent_id: Option<RecordId>, parent_kind: Option<Seq<char>>, kind: PlanNodeKind) -> Result<(), PlanError> {
    match parent_id {
        None => Ok(()),
        Some(p) => match parent_kind {
            None => Err(PlanError::MissingParent(p)),
            Some(k) => if stored_kind_holds(k, kind) {
                Ok(())
            } else {
                Err(PlanError::InvalidParentKind)
            },
        },
    }
}

pub fn check_new_plan_node(parent_id: Option<RecordId>, parent_kind: Option<String>, kind: PlanNodeKind) -> (r: Result<(), PlanError>)
    ensures
        r == creation_check(
            parent_id,
            match parent_kind {
                Some(k) => Some(k@),
                None => None,
            },
            kind,
        ),
{
    match parent_id {
        None => Ok(()),
        Some(p) => match parent_kind {
            None => Err(PlanError::MissingParent(p)),
            Some(k) => {
                let v = chars_of(k.as_str());
                let known = eq_str(&v, "WORK_DESIGN") || eq_str(&v, "OUTLINE") || eq_str(&v, "VOLUME") || eq_str(
                    &v,
                    "CHAPTER",
                ) || eq_str(&v, "SCENE");
                if known && can_hold(PlanNodeKind::parse(k.as_str()), kind) {
                    Ok(())
                } else {
                    Err(PlanError::InvalidParentKind)
                }
            },
        },
    }
}

/// A new node: first revision, not archived.
pub fn new_plan_node(id: RecordId, parent_id: Option<RecordId>, kind: PlanNodeKind, title: String, sort_order: i64) -> (r: PlanNode)
    ensures
        r == (PlanNode { id, parent_id, kind, title, sort_order, archived: false, revision: 1 }),
{
    PlanNode { id, parent_id, kind, title, sort_order, archived: false, revision: 1 }
}

/// The index of the first node with the given id.
pub open spec fn node_index(nodes: Seq<PlanNode>, id: RecordId) -> Option<int>
    decreases nodes.len(),
{
    if nodes.len() == 0 {
        None
    } else {
        match node_index(nodes.drop_last(), id) {
            Some(i) => Some(i),
            None => if nodes.last().id == id {
                Some(nodes.len() - 1)
            } else {
                None
            },
        }
    }
}

pub proof fn lemma_node_index(nodes: Seq<PlanNode>, id: RecordId)
    ensures
        node_index(nodes, id) matches Some(i) ==> 0 <= i < nodes.len() && nodes[i].id == id,
    decreases nodes.len(),
{
    if nodes.len() > 0 {
        lemma_node_index(nodes.drop_last(), id);
    }
}

pub fn find_node(nodes: &Vec<PlanNode>, id: RecordId) -> (r: Option<usize>)
    ensures
        match r {
            Some(i) => node_index(nodes@, id) == Some(i as int),
            None => node_index(nodes@, id) is None,
        },
        r matches Some(i) ==> i < nodes.len() && nodes@[i as int].id == id,
{
    let mut i: usize = 0;
    while i < nodes.len()
        invariant
            i <= nodes.len(),
            node_index(nodes@.take(i as int), id) is None,
        decreases nodes.len() - i,
    {
        assert(nodes@.take(i + 1).drop_last() =~= nodes@.take(i as int));
        if nodes[i].id == id {
            proof {
                lemma_prefix_index(nodes@, id, i as int);
            }
            return Some(i);
        }
        proof {
            assert(node_index(nodes@.take(i + 1), id) is None);
        }
        i = i + 1;
    }
    assert(nodes@.take(nodes.len() as int) =~= nodes@);
    None
}

proof fn lemma_prefix_index(nodes: Seq<PlanNode>, id: RecordId, i: int)
    requires
        0 <= i < nodes.len(),
        nodes[i].id == id,
        node_index(nodes.take(i), id) is None,
    ensures
        node_index(nodes, id) == Some(i),
    decreases nodes.len(),
{
    if i < nodes.len() - 1 {
        assert(nodes.drop_last().take(i) =~= nodes.take(i));
        lemma_prefix_index(nodes.drop_last(), id, i);
    } else {
        assert(nodes.drop_last() =~= nodes.take(i));
    }
}

/// What editing a node finds: the node must exist and, when a version is
/// expected, be at that revision.
pub open spec fn edit_check(nodes: Seq<PlanNode>, id: RecordId, expected: Option<i64>) -> Result<int, PlanError> {
    match node_index(nodes, id) {
        None => Err(PlanError::MissingNode(id)),
        Some(i) => match expected {
            Some(v) => if nodes[i].revision != v {
                Err(PlanError::Conflict { expected: v, actual: nodes[i].revision })
            } else {
                Ok(i)
            },
            None => Ok(i),
        },
    }
}

/// Finds the node to edit, checking its revision when one is expected.
pub fn check_plan_edit(nodes: &Vec<PlanNode>, id: RecordId, expected: Option<i64>) -> (r: Result<usize, PlanError>)
    ensures
        match r {
            Ok(i) => edit_check(nodes@, id, expected) == Ok::<int, PlanError>(i as int) && i < nodes.len(),
            Err(e) => edit_check(nodes@, id, expected) == Err::<int, PlanError>(e),
        },
{
    match find_node(nodes, id) {
        None => Err(PlanError::MissingNode(id)),
        Some(i) => match expected {
            Some(v) => if nodes[i].revision != v {
                Err(PlanError::Conflict { expected: v, actual: nodes[i].revision })
            } else {
                Ok(i)
            },
            None => Ok(i),
        },
    }
}

/// The node after an edit: new title and archive flag, next revision.
pub fn edited_plan_node(current: &PlanNode, title: String, archived: bool) -> (r: PlanNode)
    requires
        current.revision < i64::MAX,
    ensures
        r == (PlanNode { title, archived, revision: (current.revision + 1) as i64, ..*current }),
{
    PlanNode {
        id: current.id,
        parent_id: current.parent_id,
        kind: current.kind,
        title,
        sort_order: current.sort_order,
        archived,
        revision: current.revision + 1,
    }
}

/// The parent recorded for a node (none for an unknown node).
pub open spec fn parent_of(nodes: Seq<PlanNode>, id: RecordId) -> Option<RecordId> {
    match node_index(nodes, id) {
        Some(i) => nodes[i].parent_id,
        None => None,
    }
}

/// Walking up from `cursor`: `Some(true)` when `target` is met, `Some(false)`
/// when the root is passed, `None` when `fuel` steps do not decide.
pub open spec fn meets(nodes: Seq<PlanNode>, cursor: Option<RecordId>, target: RecordId, fuel: nat) -> Option<bool>
    decreases fuel,
{
    match cursor {
        None => Some(false),
        Some(c) => if c == target {
            Some(true)
        } else if fuel == 0 {
            None
        } else {
            meets(nodes, parent_of(nodes, c), target, (fuel - 1) as nat)
        },
    }
}

/// Whether walking up from `cursor` meets `target` or passes the root within
/// as many steps as there are nodes: what a move needs of the stored tree.
pub fn parent_walk_ends(nodes: &Vec<PlanNode>, cursor: Option<RecordId>, target: RecordId) -> (r: bool)
    ensures
        r == (meets(nodes@, cursor, target, nodes.len() as nat) is Some),
{
    let mut current = cursor;
    let mut fuel: usize = nodes.len();
    loop
        invariant
            meets(nodes@, current, target, fuel as nat) == meets(nodes@, cursor, target, nodes.len() as nat),
        decreases fuel,
    {
        match current {
            None => {
                return true;
            },
            Some(c) => {
                if c == target {
                    return true;
                }
                if fuel == 0 {
                    return false;
                }
                let next = match find_node(nodes, c) {
                    Some(k) => nodes[k].parent_id,
                    None => None,
                };
                proof {
                    lemma_node_index(nodes@, c);
                }
                current = next;
                fuel = fuel - 1;
            },
        }
    }
}

/// The checks before the ancestor walk of a move: the node exists at the
/// expected revision, is not its own parent, and the new parent exists and
/// holds its kind.
pub open spec fn move_precheck(nodes: Seq<PlanNode>, id: RecordId, parent_id: Option<RecordId>, expected: i64) -> Result<(), PlanError> {
    match edit_check(nodes, id, Some(expected)) {
        Err(e) => Err(e),
        Ok(i) => if parent_id == Some(id) {
            Err(PlanError::Cycle)
        } else {
            match parent_id {
                None => Ok(()),
                Some(p) => match node_index(nodes, p) {
                    None => Err(PlanError::MissingParent(p)),
                    Some(j) => if holds(nodes[j].kind, nodes[i].kind) {
                        Ok(())
                    } else {
                        Err(PlanError::InvalidParentKind)
                    },
                },
            }
        },
    }
}

/// What moving a node gives: the prechecks, then a cycle when the node is an
/// ancestor of its new parent.
pub open spec fn move_check(nodes: Seq<PlanNode>, id: RecordId, parent_id: Option<RecordId>, expected: i64) -> Result<(), PlanError> {
    match move_precheck(nodes, id, parent_id, expected) {
        Err(e) => Err(e),
        Ok(_) => if meets(nodes, parent_id, id, nodes.len() as nat) == Some(true) {
            Err(PlanError::Cycle)
        } else {
            Ok(())
        },
    }
}

/// Checks a move of node `id` under `parent_id`. The ancestor walk of the
/// new parent must end within as many steps as there are nodes (it does
/// whenever the stored parent links have no cycle; the walk is otherwise
/// endless).
pub fn check_plan_move(nodes: &Vec<PlanNode>, id: RecordId, parent_id: Option<RecordId>, expected_version: i64) -> (r: Result<(), PlanError>)
    requires
        move_precheck(nodes@, id, parent_id, expected_version) is Ok ==> meets(nodes@, parent_id, id, nodes.len() as nat) is Some,
    ensures
        r == move_check(nodes@, id, parent_id, expected_version),
{
    let i = match check_plan_edit(nodes, id, Some(expected_version)) {
        Err(e) => {
            return Err(e);
        },
        Ok(i) => i,
    };
    if parent_id == Some(id) {
        return Err(PlanError::Cycle);
    }
    match parent_id {
        None => {
            return Ok(());
        },
        Some(p) => match find_node(nodes, p) {
            None => {
                return Err(PlanError::MissingParent(p));
            },
            Some(j) => {
                if !can_hold(nodes[j].kind, nodes[i].kind) {
                    return Err(PlanError::InvalidParentKind);
                }
            },
        },
    }
    let mut cursor = parent_id;
    let mut fuel: usize = nodes.len();
    while fuel > 0 || cursor.is_some()
        invariant
            move_precheck(nodes@, id, parent_id, expected_version) is Ok,
            meets(nodes@, cursor, id, fuel as nat) is Some,
            meets(nodes@, cursor, id, fuel as nat) == meets(nodes@, parent_id, id, nodes.len() as nat),
        decreases fuel,
    {
        match cursor {
            None => {
                return Ok(());
            },
            Some(c) => {
                if c == id {
                    return Err(PlanError::Cycle);
                }
                let next = match find_node(nodes, c) {
                    Some(k) => nodes[k].parent_id,
                    None => None,
                };
                proof {
                    lemma_node_index(nodes@, c);
                }
                cursor = next;
                fuel = fuel - 1;
            },
        }
    }
    Ok(())
}

} // verus!
