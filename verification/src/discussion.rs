//! Discussions with the assistant and the candidates they produce.
use vstd::prelude::*;
use crate::ids::RecordId;
use crate::text::{chars_of, extend_str, str_eq, string_of, trim};

verus! {

/// What a discussion is about.
#[derive(Debug, Clone, Copy, PartialEq, Eq, Structural)]
pub enum DiscussionScopeKind {
    Project,
    Volume,
    Chapter,
    Scene,
    Selection,
}

pub open spec fn scope_key(k: DiscussionScopeKind) -> Seq<char> {
    match k {
        DiscussionScopeKind::Project => "PROJECT"@,
        DiscussionScopeKind::Volume => "VOLUME"@,
        DiscussionScopeKind::Chapter => "CHAPTER"@,
        DiscussionScopeKind::Scene => "SCENE"@,
        DiscussionScopeKind::Selection => "SELECTION"@,
    }
}

pub open spec fn scope_of(s: Seq<char>) -> DiscussionScopeKind {
    if s == "VOLUME"@ {
        DiscussionScopeKind::Volume
    } else if s == "CHAPTER"@ {
        DiscussionScopeKind::Chapter
    } else if s == "SCENE"@ {
        DiscussionScopeKind::Scene
    } else if s == "SELECTION"@ {
        DiscussionScopeKind::Selection
    } else {
        DiscussionScopeKind::Project
    }
}

impl DiscussionScopeKind {
    pub fn as_str(self) -> (r: &'static str)
        ensures
            r@ == scope_key(self),
    {
        match self {
            DiscussionScopeKind::Project => "PROJECT",
            DiscussionScopeKind::Volume => "VOLUME",
            DiscussionScopeKind::Chapter => "CHAPTER",
            DiscussionScopeKind::Scene => "SCENE",
            DiscussionScopeKind::Selection => "SELECTION",
        }
    }

    /// A stored scope read back; unknown names are the whole project.
    pub fn parse(value: &str) -> (r: Self)
        ensures
            r == scope_of(value@),
    {
        if str_eq(value, "VOLUME") {
            DiscussionScopeKind::Volume
        } else if str_eq(value, "CHAPTER") {
            DiscussionScopeKind::Chapter
        } else if str_eq(value, "SCENE") {
            DiscussionScopeKind::Scene
        } else if str_eq(value, "SELECTION") {
            DiscussionScopeKind::Selection
        } else {
            DiscussionScopeKind::Project
        }
    }
}

/// Every scope reads back as itself from its stored name.
pub proof fn scope_names_round_trip(k: DiscussionScopeKind)
    ensures
        scope_of(scope_key(k)) == k,
{
    reveal_strlit("PROJECT");
    reveal_strlit("VOLUME");
    reveal_strlit("CHAPTER");
    reveal_strlit("SCENE");
    reveal_strlit("SELECTION");
    assert("PROJECT"@.len() == 7);
    assert("VOLUME"@.len() == 6);
    assert("CHAPTER"@.len() == 7);
    assert("SCENE"@.len() == 5);
    assert("SELECTION"@.len() == 9);
    assert("PROJECT"@[0] != "CHAPTER"@[0]);
}

/// Who wrote a discussion message.
#[derive(Debug, Clone, Copy, PartialEq, Eq, Structural)]
pub enum DiscussionMessageRole {
    User,
    Assistant,
}

impl DiscussionMessageRole {
    pub fn as_str(self) -> (r: &'static str)
        ensures
            r@ == (match self {
                DiscussionMessageRole::User => "USER"@,
                DiscussionMessageRole::Assistant => "ASSISTANT"@,
            }),
    {
        match self {
            DiscussionMessageRole::User => "USER",
            DiscussionMessageRole::Assistant => "ASSISTANT",
        }
    }

    /// A stored role read back; anything but `ASSISTANT` is the user.
    pub fn parse(value: &str) -> (r: Self)
        ensures
            r == (if value@ == "ASSISTANT"@ {
                DiscussionMessageRole::Assistant
            } else {
                DiscussionMessageRole::User
            }),
    {
        if str_eq(value, "ASSISTANT") {
            DiscussionMessageRole::Assistant
        } else {
            DiscussionMessageRole::User
        }
    }
}

/// What a discussion candidate proposes.
#[derive(Debug, Clone, Copy, PartialEq, Eq, Structural)]
pub enum DiscussionCandidateKind {
    Note,
    Planning,
    Setting,
    Foreshadowing,
}

pub open spec fn candidate_kind_key(k: DiscussionCandidateKind) -> Seq<char> {
    match k {
        DiscussionCandidateKind::Note => "NOTE"@,
        DiscussionCandidateKind::Planning => "PLANNING"@,
        DiscussionCandidateKind::Setting => "SETTING"@,
        DiscussionCandidateKind::Foreshadowing => "FORESHADOWING"@,
    }
}

pub open spec fn candidate_kind_of(s: Seq<char>) -> DiscussionCandidateKind {
    if s == "PLANNING"@ {
        DiscussionCandidateKind::Planning
    } else if s == "SETTING"@ {
        DiscussionCandidateKind::Setting
    } else if s == "FORESHADOWING"@ {
        DiscussionCandidateKind::Foreshadowing
    } else {
        DiscussionCandidateKind::Note
    }
}

impl DiscussionCandidateKind {
    pub fn as_str(self) -> (r: &'static str)
        ensures
            r@ == candidate_kind_key(self),
    {
        match self {
            DiscussionCandidateKind::Note => "NOTE",
            DiscussionCandidateKind::Planning => "PLANNING",
            DiscussionCandidateKind::Setting => "SETTING",
            DiscussionCandidateKind::Foreshadowing => "FORESHADOWING",
        }
    }

    /// A stored kind read back; unknown names are notes.
    pub fn parse(value: &str) -> (r: Self)
        ensures
            r == candidate_kind_of(value@),
    {
        if str_eq(value, "PLANNING") {
            DiscussionCandidateKind::Planning
        } else if str_eq(value, "SETTING") {
            DiscussionCandidateKind::Setting
        } else if str_eq(value, "FORESHADOWING") {
            DiscussionCandidateKind::Foreshadowing
        } else {
            DiscussionCandidateKind::Note
        }
    }

    /// Only planning and setting candidates may become planning content.
    pub fn can_promote_to_planning(self) -> (r: bool)
        ensures
            r == (self is Planning || self is Setting),
    {
        match self {
            DiscussionCandidateKind::Planning | DiscussionCandidateKind::Setting => true,
            _ => false,
        }
    }
}

/// Where a discussion candidate stands.
#[derive(Debug, Clone, Copy, PartialEq, Eq, Structural)]
pub enum DiscussionCandidateStatus {
    Pending,
    Promoted,
    Dismissed,
}

impl DiscussionCandidateStatus {
    pub fn as_str(self) -> (r: &'static str)
        ensures
            r@ == (match self {
                DiscussionCandidateStatus::Pending => "PENDING"@,
                DiscussionCandidateStatus::Promoted => "PROMOTED"@,
                DiscussionCandidateStatus::Dismissed => "DISMISSED"@,
            }),
    {
        match self {
            DiscussionCandidateStatus::Pending => "PENDING",
            DiscussionCandidateStatus::Promoted => "PROMOTED",
            DiscussionCandidateStatus::Dismissed => "DISMISSED",
        }
    }

    /// A stored status read back; unknown names are pending.
    pub fn parse(value: &str) -> (r: Self)
        ensures
            r == (if value@ == "PROMOTED"@ {
                DiscussionCandidateStatus::Promoted
            } else if value@ == "DISMISSED"@ {
                DiscussionCandidateStatus::Dismissed
            } else {
                DiscussionCandidateStatus::Pending
            }),
    {
        if str_eq(value, "PROMOTED") {
            DiscussionCandidateStatus::Promoted
        } else if str_eq(value, "DISMISSED") {
            DiscussionCandidateStatus::Dismissed
        } else {
            DiscussionCandidateStatus::Pending
        }
    }
}

/// A discussion thread.
#[derive(Debug, Clone, PartialEq, Eq)]
pub struct DiscussionSession {
    pub id: RecordId,
    pub project_id: RecordId,
    pub title: String,
    pub scope_kind: DiscussionScopeKind,
    pub scope_id: Option<RecordId>,
    pub scope_text: Option<String>,
    pub summary: String,
    pub created_at: String,
    pub updated_at: String,
}

/// A message of a discussion; messages are never edited.
#[derive(Debug, Clone, PartialEq, Eq)]
pub struct DiscussionMessage {
    pub id: RecordId,
    pub session_id: RecordId,
    pub role: DiscussionMessageRole,
    pub content: String,
    pub profile_id: Option<RecordId>,
    pub context_version: Option<String>,
    pub context_summary: Option<String>,
    pub created_at: String,
}

/// Something a discussion proposes for the project.
#[derive(Debug, Clone, PartialEq, Eq)]
pub struct DiscussionCandidate {
    pub id: RecordId,
    pub session_id: RecordId,
    pub message_id: RecordId,
    pub kind: DiscussionCandidateKind,
    pub content: String,
    pub target_section_id: Option<String>,
    pub status: DiscussionCandidateStatus,
    pub promoted_object_id: Option<String>,
    pub created_at: String,
    pub updated_at: String,
}

/// Why a discussion operation failed.
#[derive(Debug, Clone, PartialEq, Eq)]
pub enum DiscussionStoreError {
    NoProject,
    MissingSession(RecordId),
    MissingMessage(RecordId),
    MissingCandidate(RecordId),
    Conflict,
    InvalidPromotion,
    InvalidScope,
    Database(String),
}

/// The scope is valid: anything but the whole project names its target, and a
/// selection holds non-blank text.
pub open spec fn scope_valid(kind: DiscussionScopeKind, has_id: bool, text: Option<Seq<char>>) -> bool {
    (kind == DiscussionScopeKind::Project || has_id) && (kind != DiscussionScopeKind::Selection
        || match text {
        Some(t) => trim(t).len() > 0,
        None => false,
    })
}

/// A new discussion session: the scope checked, the title and selection text
/// trimmed, text kept only for a selection.
pub fn new_discussion_session(
    id: RecordId,
    project_id: RecordId,
    title: &str,
    scope_kind: DiscussionScopeKind,
    scope_id: Option<RecordId>,
    scope_text: Option<&str>,
    now: &str,
) -> (r: Result<DiscussionSession, DiscussionStoreError>)
    ensures
        match r {
            Ok(s) => scope_valid(scope_kind, scope_id is Some, match scope_text {
                Some(t) => Some(t@),
                None => None,
            }) && s.id == id && s.project_id == project_id && s.title@ == trim(title@)
                && s.scope_kind == scope_kind && s.scope_id == scope_id && (match s.scope_text {
                Some(t) => scope_kind == DiscussionScopeKind::Selection && t@ == trim(
                    scope_text.unwrap()@,
                ),
                None => scope_kind != DiscussionScopeKind::Selection,
            }) && s.summary@.len() == 0 && s.created_at@ == now@ && s.updated_at@ == now@,
            Err(e) => e == DiscussionStoreError::InvalidScope && !scope_valid(
                scope_kind,
                scope_id is Some,
                match scope_text {
                    Some(t) => Some(t@),
                    None => None,
                },
            ),
        },
{
    if scope_kind != DiscussionScopeKind::Project && scope_id.is_none() {
        return Err(DiscussionStoreError::InvalidScope);
    }
    if scope_kind == DiscussionScopeKind::Selection {
        match scope_text {
            Some(t) => {
                if crate::text::is_blank_str(t) {
                    return Err(DiscussionStoreError::InvalidScope);
                }
            },
            None => return Err(DiscussionStoreError::InvalidScope),
        }
    }
    let text = match scope_text {
        Some(t) => Some(crate::text::trim_str(t)),
        None => None,
    };
    Ok(
        DiscussionSession {
            id,
            project_id,
            title: crate::text::trim_str(title),
            scope_kind,
            scope_id,
            scope_text: if scope_kind == DiscussionScopeKind::Selection {
                text
            } else {
                None
            },
            summary: String::new(),
            created_at: String::from_str(now),
            updated_at: String::from_str(now),
        },
    )
}

/// A new pending candidate with trimmed content; empty content is refused.
pub fn new_discussion_candidate(
    id: RecordId,
    session_id: RecordId,
    message_id: RecordId,
    kind: DiscussionCandidateKind,
    content: &str,
    target_section_id: Option<String>,
    now: &str,
) -> (r: Result<DiscussionCandidate, DiscussionStoreError>)
    ensures
        match r {
            Ok(c) => trim(content@).len() > 0 && c.id == id && c.session_id == session_id
                && c.message_id == message_id && c.kind == kind && c.content@ == trim(content@)
                && c.target_section_id == target_section_id && c.status
                == DiscussionCandidateStatus::Pending && c.promoted_object_id is None
                && c.created_at@ == now@ && c.updated_at@ == now@,
            Err(e) => e == DiscussionStoreError::InvalidPromotion && trim(content@).len() == 0,
        },
{
    let c = crate::text::trim_str(content);
    if c.unicode_len() == 0 {
        return Err(DiscussionStoreError::InvalidPromotion);
    }
    Ok(
        DiscussionCandidate {
            id,
            session_id,
            message_id,
            kind,
            content: c,
            target_section_id,
            status: DiscussionCandidateStatus::Pending,
            promoted_object_id: None,
            created_at: String::from_str(now),
            updated_at: String::from_str(now),
        },
    )
}

/// Only a pending candidate can be dismissed.
pub fn check_dismissal(
    expected_status: DiscussionCandidateStatus,
    next_status: DiscussionCandidateStatus,
) -> (r: Result<(), DiscussionStoreError>)
    ensures
        r is Ok <==> (expected_status == DiscussionCandidateStatus::Pending && next_status
            == DiscussionCandidateStatus::Dismissed),
        r is Err ==> r == Err::<(), DiscussionStoreError>(DiscussionStoreError::Conflict),
{
    if expected_status != DiscussionCandidateStatus::Pending || next_status
        != DiscussionCandidateStatus::Dismissed {
        return Err(DiscussionStoreError::Conflict);
    }
    Ok(())
}

/// The checks of a promotion, in order: the candidate must name a non-blank
/// section, still have the status the caller saw, and be a planning or
/// setting candidate; the section is handed back.
pub fn check_promotion(
    candidate: &DiscussionCandidate,
    expected_status: DiscussionCandidateStatus,
) -> (r: Result<String, DiscussionStoreError>)
    ensures
        match candidate.target_section_id {
            None => r == Err::<String, DiscussionStoreError>(DiscussionStoreError::InvalidPromotion),
            Some(s) => if trim(s@).len() == 0 {
                r == Err::<String, DiscussionStoreError>(DiscussionStoreError::InvalidPromotion)
            } else if candidate.status != expected_status {
                r == Err::<String, DiscussionStoreError>(DiscussionStoreError::Conflict)
            } else if !(candidate.kind is Planning || candidate.kind is Setting) {
                r == Err::<String, DiscussionStoreError>(DiscussionStoreError::InvalidPromotion)
            } else {
                r matches Ok(t) && t == s
            },
        },
{
    match &candidate.target_section_id {
        None => Err(DiscussionStoreError::InvalidPromotion),
        Some(s) => {
            if crate::text::is_blank_str(s.as_str()) {
                Err(DiscussionStoreError::InvalidPromotion)
            } else if candidate.status != expected_status {
                Err(DiscussionStoreError::Conflict)
            } else if !candidate.kind.can_promote_to_planning() {
                Err(DiscussionStoreError::InvalidPromotion)
            } else {
                Ok(s.clone())
            }
        },
    }
}

/// A text that SQLite's `trim` empties: nothing but spaces.
pub open spec fn only_spaces(s: Seq<char>) -> bool {
    forall|i: int| 0 <= i < s.len() ==> s[i] == ' '
}

fn only_spaces_str(s: &str) -> (r: bool)
    ensures
        r == only_spaces(s@),
{
    let v = chars_of(s);
    let mut i: usize = 0;
    while i < v.len()
        invariant
            v@ == s@,
            i <= v.len(),
            forall|k: int| 0 <= k < i ==> v@[k] == ' ',
        decreases v.len() - i,
    {
        if v[i] != ' ' {
            return false;
        }
        i = i + 1;
    }
    true
}

/// The pending text of a planning section once a candidate is promoted into
/// it: the candidate's text alone where nothing is pending, else appended
/// after a blank line.
pub open spec fn merged_pending(existing: Seq<char>, added: Seq<char>) -> Seq<char> {
    if only_spaces(existing) {
        added
    } else {
        existing + "\n\n"@ + added
    }
}

/// `merged_pending` on strings; a section that does not exist yet has no
/// pending text.
pub fn merge_pending_content(existing: &str, added: &str) -> (r: String)
    ensures
        r@ == merged_pending(existing@, added@),
{
    if only_spaces_str(existing) {
        return String::from_str(added);
    }
    let mut out = chars_of(existing);
    extend_str(&mut out, "\n\n");
    extend_str(&mut out, added);
    proof {
        reveal_strlit("\n\n");
    }
    string_of(&out)
}

/// The story state of a planning section once a candidate is promoted into
/// it: a section whose content is settled keeps its state; any other becomes
/// an AI suggestion.
pub open spec fn promoted_state(content: Seq<char>, state: Seq<char>) -> Seq<char> {
    if only_spaces(content) {
        "AI_SUGGESTED"@
    } else {
        state
    }
}

/// `promoted_state` on strings; a section that does not exist yet has no
/// content.
pub fn promoted_story_state(content: &str, state: &str) -> (r: String)
    ensures
        r@ == promoted_state(content@, state@),
{
    if only_spaces_str(content) {
        String::from_str("AI_SUGGESTED")
    } else {
        String::from_str(state)
    }
}

} // verus!
