//! Assembling the writing context: the task contract, the prompt sections in
//! priority order, and their cut to the input budget.
use vstd::prelude::*;
use crate::application::context::{
    AiTaskRole, ContextSectionAudit, ContextSectionKind, role_label, role_name,
};
use crate::domain::AiAction;
use crate::ids::{RecordId, uuid_hyphenated};
use crate::text::{
    chars_of, decimal, extend_chars, extend_str, join, join_chars, push_decimal, slice_chars,
    string_of, trim, views_of,
};

verus! {

/// What a model is asked to do, and within which limits.
#[derive(Debug, Clone, PartialEq, Eq)]
pub struct AiTaskContract {
    pub role: AiTaskRole,
    pub goal: String,
    pub target_type: String,
    pub target_id: RecordId,
    pub target_revision_id: Option<RecordId>,
    pub permissions: Vec<String>,
    pub forbidden_actions: Vec<String>,
    pub acceptance_criteria: Vec<String>,
    pub uncertainty_policy: String,
    pub output_contract: String,
}

/// The views of strings.
pub open spec fn strings_view(v: Seq<String>) -> Seq<Seq<char>> {
    v.map_values(|s: String| s@)
}

/// The role of a writing action.
pub open spec fn action_role(a: AiAction) -> AiTaskRole {
    match a {
        AiAction::Rewrite | AiAction::Polish => AiTaskRole::SelectionReviser,
        AiAction::Summarize => AiTaskRole::ChapterSummarizer,
        _ => AiTaskRole::DraftWriter,
    }
}

/// The goal of a writing action.
pub open spec fn action_goal(a: AiAction) -> Seq<char> {
    match a {
        AiAction::Rewrite => "在给定选区范围内重写内容。"@,
        AiAction::Polish => "润色给定选区并保持原意。"@,
        AiAction::Summarize => "总结当前章节，供后续上下文使用。"@,
        _ => "从当前草稿结尾继续写作，不复述已有内容。"@,
    }
}

/// What a writing action works on.
pub open spec fn action_target(a: AiAction) -> Seq<char> {
    match a {
        AiAction::Rewrite | AiAction::Polish => "SELECTION"@,
        _ => "CHAPTER"@,
    }
}

/// The acceptance criteria of a writing action.
pub open spec fn action_criteria(a: AiAction) -> Seq<Seq<char>> {
    match a {
        AiAction::Rewrite => seq![
            "新文本可完整替换选区。"@,
            "不得修改选区之外的情节和事实。"@,
            "只输出替换选区的候选正文。"@,
        ],
        AiAction::Polish => seq![
            "保持选区事实、视角、情节结果和人物意图不变。"@,
            "改善语言表达但不扩大修改范围。"@,
            "只输出润色后的候选正文。"@,
        ],
        AiAction::Summarize => seq![
            "覆盖章节中已发生的关键事件和状态变化。"@,
            "区分正文事实与无法确认的信息。"@,
            "保持简洁，不引入正文之外的新事实。"@,
        ],
        _ => seq![
            "输出能与当前草稿结尾自然衔接。"@,
            "不改变已提供事实、章节目标和人物知识边界。"@,
            "只输出新增候选正文。"@,
        ],
    }
}

/// The output contract of a writing action.
pub open spec fn action_output(a: AiAction) -> Seq<char> {
    match a {
        AiAction::Rewrite => "纯文本替换候选；不得附带分析、标题、JSON 或变更声明。"@,
        AiAction::Polish => "纯文本润色候选；不得附带分析、标题、JSON 或变更声明。"@,
        AiAction::Summarize => "纯文本章节摘要；不得附带分析、标题、JSON 或变更声明。"@,
        _ => "纯文本候选正文；不得附带分析、标题、JSON 或变更声明。"@,
    }
}

pub open spec fn writing_permissions() -> Seq<Seq<char>> {
    seq!["读取本次上下文包。"@, "生成一个待用户审核的候选结果。"@]
}

pub open spec fn writing_forbidden() -> Seq<Seq<char>> {
    seq![
        "不得修改、发布或声称已修改正式正文。"@,
        "不得把模型记忆、推测或新生成细节当作项目事实。"@,
        "不得越过本次目标对象和修改范围。"@,
    ]
}

pub open spec fn writing_uncertainty() -> Seq<char> {
    "关键依据不足或上下文冲突时停止推断，输出“[上下文不足]”并简要列出缺少的信息；不得自行补全项目事实。"@
}

fn strings(items: &[&str]) -> (r: Vec<String>)
    ensures
        strings_view(r@) == items@.map_values(|s: &str| s@),
{
    let mut r: Vec<String> = Vec::new();
    let mut i: usize = 0;
    while i < items.len()
        invariant
            i <= items.len(),
            r.len() == i,
            forall|j: int| 0 <= j < i ==> #[trigger] r@[j]@ == items@[j]@,
        decreases items.len() - i,
    {
        r.push(String::from_str(items[i]));
        i = i + 1;
    }
    assert(strings_view(r@) =~= items@.map_values(|s: &str| s@));
    r
}

/// The contract of a writing action on a chapter. A draft is written like a
/// continuation.
pub fn build_task_contract(action: AiAction, chapter_id: RecordId, target_revision_id: Option<RecordId>) -> (c: AiTaskContract)
    ensures
        c.role == action_role(action),
        c.goal@ == action_goal(action),
        c.target_type@ == action_target(action),
        c.target_id == chapter_id,
        c.target_revision_id == target_revision_id,
        strings_view(c.permissions@) == writing_permissions(),
        strings_view(c.forbidden_actions@) == writing_forbidden(),
        strings_view(c.acceptance_criteria@) == action_criteria(action),
        c.uncertainty_policy@ == writing_uncertainty(),
        c.output_contract@ == action_output(action),
{
    let (role, goal, target, criteria, output) = match action {
        AiAction::Rewrite => (
            AiTaskRole::SelectionReviser,
            "在给定选区范围内重写内容。",
            "SELECTION",
            strings(&["新文本可完整替换选区。", "不得修改选区之外的情节和事实。", "只输出替换选区的候选正文。"]),
            "纯文本替换候选；不得附带分析、标题、JSON 或变更声明。",
        ),
        AiAction::Polish => (
            AiTaskRole::SelectionReviser,
            "润色给定选区并保持原意。",
            "SELECTION",
            strings(&["保持选区事实、视角、情节结果和人物意图不变。", "改善语言表达但不扩大修改范围。", "只输出润色后的候选正文。"]),
            "纯文本润色候选；不得附带分析、标题、JSON 或变更声明。",
        ),
        AiAction::Summarize => (
            AiTaskRole::ChapterSummarizer,
            "总结当前章节，供后续上下文使用。",
            "CHAPTER",
            strings(&["覆盖章节中已发生的关键事件和状态变化。", "区分正文事实与无法确认的信息。", "保持简洁，不引入正文之外的新事实。"]),
            "纯文本章节摘要；不得附带分析、标题、JSON 或变更声明。",
        ),
        _ => (
            AiTaskRole::DraftWriter,
            "从当前草稿结尾继续写作，不复述已有内容。",
            "CHAPTER",
            strings(&["输出能与当前草稿结尾自然衔接。", "不改变已提供事实、章节目标和人物知识边界。", "只输出新增候选正文。"]),
            "纯文本候选正文；不得附带分析、标题、JSON 或变更声明。",
        ),
    };
    AiTaskContract {
        role,
        goal: String::from_str(goal),
        target_type: String::from_str(target),
        target_id: chapter_id,
        target_revision_id,
        permissions: strings(&["读取本次上下文包。", "生成一个待用户审核的候选结果。"]),
        forbidden_actions: strings(&["不得修改、发布或声称已修改正式正文。", "不得把模型记忆、推测或新生成细节当作项目事实。", "不得越过本次目标对象和修改范围。"]),
        acceptance_criteria: criteria,
        uncertainty_policy: String::from_str("关键依据不足或上下文冲突时停止推断，输出“[上下文不足]”并简要列出缺少的信息；不得自行补全项目事实。"),
        output_contract: String::from_str(output),
    }
}

/// A contract as values.
pub type ContractView = (AiTaskRole, Seq<char>, Seq<char>, RecordId, Option<RecordId>, Seq<Seq<char>>, Seq<Seq<char>>, Seq<Seq<char>>, Seq<char>, Seq<char>);

pub open spec fn contract_view(c: AiTaskContract) -> ContractView {
    (
        c.role,
        c.goal@,
        c.target_type@,
        c.target_id,
        c.target_revision_id,
        strings_view(c.permissions@),
        strings_view(c.forbidden_actions@),
        strings_view(c.acceptance_criteria@),
        c.uncertainty_policy@,
        c.output_contract@,
    )
}

/// `format_task_contract`: the contract as prompt text.
pub open spec fn contract_text(c: ContractView, title: Seq<char>) -> Seq<char> {
    "角色："@ + role_name(c.0) + "\n目标："@ + c.1 + "\n当前对象：章节“"@ + title + "”，类型 "@ + c.2
        + "，ID "@ + uuid_hyphenated(c.3.value) + "，目标修订 "@ + match c.4 {
        Some(r) => uuid_hyphenated(r.value),
        None => "未保存草稿"@,
    } + "\n权限："@ + join(c.5, "；"@) + "\n禁区："@ + join(c.6, "；"@) + "\n不确定性处理："@ + c.8
        + "\n验收标准："@ + join(c.7, "；"@) + "\n输出合同："@ + c.9
}

fn join_strings(v: &Vec<String>, sep: &str) -> (r: Vec<char>)
    ensures
        r@ == join(strings_view(v@), sep@),
{
    let mut parts: Vec<Vec<char>> = Vec::new();
    let mut i: usize = 0;
    while i < v.len()
        invariant
            i <= v.len(),
            parts.len() == i,
            forall|j: int| 0 <= j < i ==> #[trigger] parts@[j]@ == v@[j]@,
        decreases v.len() - i,
    {
        parts.push(chars_of(v[i].as_str()));
        i = i + 1;
    }
    assert(views_of(parts@) =~= strings_view(v@));
    join_chars(&parts, sep)
}

/// Writes a contract as prompt text.
pub fn format_task_contract(contract: &AiTaskContract, chapter_title: &str) -> (r: String)
    ensures
        r@ == contract_text(contract_view(*contract), chapter_title@),
{
    let mut out = chars_of("角色：");
    extend_str(&mut out, role_label(contract.role));
    extend_str(&mut out, "\n目标：");
    extend_str(&mut out, contract.goal.as_str());
    extend_str(&mut out, "\n当前对象：章节“");
    extend_str(&mut out, chapter_title);
    extend_str(&mut out, "”，类型 ");
    extend_str(&mut out, contract.target_type.as_str());
    extend_str(&mut out, "，ID ");
    extend_str(&mut out, contract.target_id.to_text().as_str());
    extend_str(&mut out, "，目标修订 ");
    match contract.target_revision_id {
        Some(r) => extend_str(&mut out, r.to_text().as_str()),
        None => extend_str(&mut out, "未保存草稿"),
    }
    extend_str(&mut out, "\n权限：");
    extend_chars(&mut out, &join_strings(&contract.permissions, "；"));
    extend_str(&mut out, "\n禁区：");
    extend_chars(&mut out, &join_strings(&contract.forbidden_actions, "；"));
    extend_str(&mut out, "\n不确定性处理：");
    extend_str(&mut out, contract.uncertainty_policy.as_str());
    extend_str(&mut out, "\n验收标准：");
    extend_chars(&mut out, &join_strings(&contract.acceptance_criteria, "；"));
    extend_str(&mut out, "\n输出合同：");
    extend_str(&mut out, contract.output_contract.as_str());
    assert(out@ =~= contract_text(contract_view(*contract), chapter_title@));
    string_of(&out)
}

/// The marker put where a section was cut.
pub open spec fn budget_marker() -> Seq<char> {
    "[已按 TokenBudget 截断]"@
}

/// `truncate_content`: a section kept whole when it fits; otherwise its head
/// (or, from the tail, its end) with the marker, or the marker alone cut to
/// the limit.
pub open spec fn truncated_content(content: Seq<char>, limit: int, from_tail: bool) -> (Seq<char>, bool) {
    let len = content.len() as int;
    let marker = budget_marker();
    if len <= limit {
        (content, false)
    } else if limit <= marker.len() {
        (marker.take(limit), true)
    } else {
        let keep = limit - marker.len();
        if from_tail {
            (marker + content.skip(len - keep), true)
        } else {
            (content.take(keep) + marker, true)
        }
    }
}

pub fn truncate_content(content: &Vec<char>, limit: usize, from_tail: bool) -> (r: (Vec<char>, bool))
    ensures
        (r.0@, r.1) == truncated_content(content@, limit as int, from_tail),
{
    let len = content.len();
    if len <= limit {
        return (slice_chars(content, 0, len), false);
    }
    let marker = chars_of("[已按 TokenBudget 截断]");
    if limit <= marker.len() {
        return (slice_chars(&marker, 0, limit), true);
    }
    let keep = limit - marker.len();
    if from_tail {
        let mut out = slice_chars(&marker, 0, marker.len());
        extend_chars(&mut out, &slice_chars(content, len - keep, len));
        assert(out@ =~= budget_marker() + content@.skip(len - keep));
        (out, true)
    } else {
        let mut out = slice_chars(content, 0, keep);
        extend_chars(&mut out, &marker);
        (out, true)
    }
}

/// A prompt section before it is cut to the budget.
pub struct PromptSection {
    pub kind: ContextSectionKind,
    pub priority: u8,
    pub title: &'static str,
    pub content: Vec<char>,
    pub source_count: u16,
    pub truncate_from_tail: bool,
}

/// A section as values.
pub type SectionView = (ContextSectionKind, u8, Seq<char>, Seq<char>, u16, bool);

pub open spec fn section_view(s: PromptSection) -> SectionView {
    (s.kind, s.priority, s.title@, s.content@, s.source_count, s.truncate_from_tail)
}

pub open spec fn sections_view(v: Seq<PromptSection>) -> Seq<SectionView> {
    v.map_values(|s: PromptSection| section_view(s))
}

/// `a - b`, or zero.
pub open spec fn sub0(a: int, b: int) -> int {
    if a > b {
        a - b
    } else {
        0
    }
}

/// The header of a section.
pub open spec fn section_header(s: SectionView) -> Seq<char> {
    "[P"@ + decimal(s.1 as nat) + " "@ + s.2 + "]\n"@
}

/// A count saturated at `u32::MAX`.
pub open spec fn sat32(n: int) -> u32 {
    if n > u32::MAX {
        u32::MAX
    } else {
        n as u32
    }
}

/// The state of compiling sections: rendered texts, audits, anything cut,
/// characters left.
pub type CompileState = (Seq<Seq<char>>, Seq<ContextSectionAudit>, bool, int);

/// One section cut to what is left of the budget (after the two characters
/// that separate it from the previous one).
pub open spec fn compile_step(st: CompileState, s: SectionView) -> CompileState {
    let remaining = if st.0.len() > 0 {
        sub0(st.3, 2)
    } else {
        st.3
    };
    let header = section_header(s);
    let hc = header.len() as int;
    let cut = truncated_content(s.3, sub0(remaining, hc), s.5);
    let text = if remaining >= hc {
        header + cut.0
    } else {
        header.take(remaining)
    };
    let included = text.len() as int;
    let truncated = cut.1 || included < hc;
    (
        st.0.push(text),
        st.1.push(
            ContextSectionAudit {
                kind: s.0,
                priority: s.1,
                source_count: s.4,
                included_chars: sat32(included),
                truncated,
            },
        ),
        st.2 || truncated,
        sub0(remaining, included),
    )
}

pub open spec fn compile_fold(ss: Seq<SectionView>, budget: int) -> CompileState
    decreases ss.len(),
{
    if ss.len() == 0 {
        (seq![], seq![], false, budget)
    } else {
        compile_step(compile_fold(ss.drop_last(), budget), ss.last())
    }
}

/// `compile_sections`: the sections in order, each within what is left of the
/// budget, joined by blank lines; their audits; whether anything was cut.
pub open spec fn compiled(ss: Seq<SectionView>, budget: int) -> (Seq<char>, Seq<ContextSectionAudit>, bool) {
    let st = compile_fold(ss, budget);
    (join(st.0, "\n\n"@), st.1, st.2)
}

pub fn compile_sections(sections: &Vec<PromptSection>, budget: usize) -> (r: (Vec<char>, Vec<ContextSectionAudit>, bool))
    ensures
        (r.0@, r.1@, r.2) == compiled(sections_view(sections@), budget as int),
{
    let ghost sv = sections_view(sections@);
    let mut rendered: Vec<Vec<char>> = Vec::new();
    let mut audits: Vec<ContextSectionAudit> = Vec::new();
    let mut any = false;
    let mut remaining = budget;
    let mut i: usize = 0;
    assert(sv.take(0) =~= Seq::<SectionView>::empty());
    assert(views_of(rendered@) =~= Seq::<Seq<char>>::empty());
    while i < sections.len()
        invariant
            i <= sections.len(),
            sv == sections_view(sections@),
            (views_of(rendered@), audits@, any, remaining as int) == compile_fold(sv.take(i as int), budget as int),
            rendered.len() == i,
        decreases sections.len() - i,
    {
        assert(sv.take(i + 1).drop_last() =~= sv.take(i as int));
        assert(sv[i as int] == section_view(sections@[i as int]));
        let s = &sections[i];
        let ghost st = compile_fold(sv.take(i as int), budget as int);
        if i > 0 {
            remaining = if remaining > 2 {
                remaining - 2
            } else {
                0
            };
        }
        let mut header = chars_of("[P");
        push_decimal(&mut header, s.priority as u128);
        extend_str(&mut header, " ");
        extend_str(&mut header, s.title);
        extend_str(&mut header, "]\n");
        let hc = header.len();
        assert(header@ =~= section_header(sv[i as int]));
        assert(remaining as int == (if st.0.len() > 0 { sub0(st.3, 2) } else { st.3 }));
        let budget_left = if remaining > hc {
            remaining - hc
        } else {
            0
        };
        let (content, cut) = truncate_content(&s.content, budget_left, s.truncate_from_tail);
        let text = if remaining >= hc {
            let mut t = slice_chars(&header, 0, hc);
            extend_chars(&mut t, &content);
            t
        } else {
            slice_chars(&header, 0, remaining)
        };
        let included = text.len();
        let truncated = cut || included < hc;
        audits.push(ContextSectionAudit {
            kind: s.kind,
            priority: s.priority,
            source_count: s.source_count,
            included_chars: if included > 0xffff_ffff {
                0xffff_ffff
            } else {
                included as u32
            },
            truncated,
        });
        any = any || truncated;
        remaining = if remaining > included {
            remaining - included
        } else {
            0
        };
        let ghost before = views_of(rendered@);
        assert(text@ == compile_step(st, sv[i as int]).0.last());
        rendered.push(text);
        assert(views_of(rendered@) =~= before.push(rendered@.last()@));
        assert(views_of(rendered@) == compile_step(st, sv[i as int]).0);
        assert(audits@ == compile_step(st, sv[i as int]).1);
        i = i + 1;
    }
    assert(sv.take(sections.len() as int) =~= sv);
    (join_chars(&rendered, "\n\n"), audits, any)
}

} // verus!

verus! {

/// Where retrieved text came from, as the package records it.
#[derive(Debug, Clone, PartialEq, Eq)]
pub struct ContextEvidenceRef {
    pub chunk_id: RecordId,
    pub source_id: RecordId,
    pub source_revision: String,
    pub source_hash: String,
    pub method: crate::domain::RetrievalMethod,
    pub authority: crate::domain::ContextAuthority,
}

/// `a` comes before `b`: more relevant, then the smaller chunk id, then the
/// earlier position.
pub open spec fn evidence_before(items: Seq<crate::domain::RetrievalEvidence>, a: int, b: int) -> bool {
    items[a].relevance > items[b].relevance || (items[a].relevance == items[b].relevance && (
    items[a].chunk.id.value < items[b].chunk.id.value || (items[a].chunk.id.value
        == items[b].chunk.id.value && a < b)))
}

/// Among the first `n` items whose chunk is not yet taken, the first in order.
pub open spec fn first_evidence(items: Seq<crate::domain::RetrievalEvidence>, taken: Seq<u128>, n: int) -> Option<int>
    decreases n,
{
    if n <= 0 {
        None
    } else {
        let b = first_evidence(items, taken, n - 1);
        let i = n - 1;
        if taken.contains(items[i].chunk.id.value) {
            b
        } else {
            match b {
                None => Some(i),
                Some(j) => if evidence_before(items, i, j) {
                    Some(i)
                } else {
                    Some(j)
                },
            }
        }
    }
}

/// The evidence in order, one item per chunk: sorted by relevance (then
/// chunk id, then position) and the first item of each chunk kept.
pub open spec fn evidence_order(items: Seq<crate::domain::RetrievalEvidence>, taken: Seq<u128>, fuel: nat) -> Seq<int>
    decreases fuel,
{
    if fuel == 0 {
        seq![]
    } else {
        match first_evidence(items, taken, items.len() as int) {
            None => seq![],
            Some(i) => seq![i] + evidence_order(items, taken.push(items[i].chunk.id.value), (fuel - 1) as nat),
        }
    }
}

fn first_evidence_exec(items: &Vec<crate::domain::RetrievalEvidence>, taken: &Vec<u128>) -> (r: Option<usize>)
    ensures
        match r {
            Some(i) => i < items.len() && first_evidence(items@, taken@, items.len() as int) == Some(i as int),
            None => first_evidence(items@, taken@, items.len() as int) is None,
        },
{
    let mut best: Option<usize> = None;
    let mut i: usize = 0;
    while i < items.len()
        invariant
            i <= items.len(),
            match best {
                Some(b) => b < i && first_evidence(items@, taken@, i as int) == Some(b as int),
                None => first_evidence(items@, taken@, i as int) is None,
            },
        decreases items.len() - i,
    {
        let id = items[i].chunk.id.value;
        let mut seen = false;
        let mut k: usize = 0;
        while k < taken.len()
            invariant
                k <= taken.len(),
                seen == (exists|j: int| 0 <= j < k && taken@[j] == id),
            decreases taken.len() - k,
        {
            if taken[k] == id {
                seen = true;
            }
            k = k + 1;
        }
        assert(seen == taken@.contains(id));
        if !seen {
            match best {
                None => {
                    best = Some(i);
                },
                Some(j) => {
                    let a = &items[i];
                    let b = &items[j];
                    if a.relevance > b.relevance || (a.relevance == b.relevance && (a.chunk.id.value
                        < b.chunk.id.value || (a.chunk.id.value == b.chunk.id.value && i < j))) {
                        best = Some(i);
                    }
                },
            }
        }
        i = i + 1;
    }
    best
}

/// The evidence in prompt order.
pub fn evidence_order_of(items: &Vec<crate::domain::RetrievalEvidence>) -> (r: Vec<usize>)
    ensures
        r@.map_values(|i: usize| i as int) == evidence_order(items@, seq![], items.len() as nat),
        forall|k: int| 0 <= k < r.len() ==> #[trigger] r@[k] < items.len(),
{
    let ghost target = evidence_order(items@, seq![], items.len() as nat);
    let mut taken: Vec<u128> = Vec::new();
    let mut out: Vec<usize> = Vec::new();
    let mut t: usize = 0;
    let mut done = false;
    assert(taken@ =~= Seq::<u128>::empty());
    assert(out@.map_values(|i: usize| i as int) =~= Seq::<int>::empty());
    while t < items.len() && !done
        invariant
            t <= items.len(),
            target == out@.map_values(|i: usize| i as int) + evidence_order(items@, taken@, (items.len() - t) as nat),
            done ==> evidence_order(items@, taken@, (items.len() - t) as nat) == Seq::<int>::empty(),
            forall|k: int| 0 <= k < out.len() ==> #[trigger] out@[k] < items.len(),
        decreases (items.len() - t) as int + if done { 0int } else { 1int },
    {
        match first_evidence_exec(items, &taken) {
            None => {
                done = true;
            },
            Some(i) => {
                let ghost before = out@.map_values(|x: usize| x as int);
                let ghost rest = evidence_order(items@, taken@.push(items@[i as int].chunk.id.value), (items.len() - t - 1) as nat);
                out.push(i);
                assert(out@.map_values(|x: usize| x as int) =~= before.push(i as int));
                assert(before + (seq![i as int] + rest) =~= before.push(i as int) + rest);
                taken.push(items[i].chunk.id.value);
                t = t + 1;
            },
        }
    }
    assert(out@.map_values(|i: usize| i as int) + Seq::<int>::empty() =~= out@.map_values(|i: usize| i as int));
    out
}

/// Item `a` is listed before item `b`: it is more relevant, or as relevant
/// with a smaller chunk id.
pub open spec fn listed_first(items: Seq<crate::domain::RetrievalEvidence>, a: int, b: int) -> bool {
    items[a].relevance > items[b].relevance || (items[a].relevance == items[b].relevance
        && items[a].chunk.id.value < items[b].chunk.id.value)
}

proof fn lemma_evidence_before_transitive(items: Seq<crate::domain::RetrievalEvidence>, a: int, b: int, c: int)
    requires
        evidence_before(items, a, b),
        evidence_before(items, b, c),
    ensures
        evidence_before(items, a, c),
{
}

/// The first evidence is in range, not taken, and no other untaken item
/// comes before it.
proof fn lemma_first_evidence(items: Seq<crate::domain::RetrievalEvidence>, taken: Seq<u128>, n: int)
    requires
        n <= items.len(),
    ensures
        match first_evidence(items, taken, n) {
            Some(b) => 0 <= b < n && !taken.contains(items[b].chunk.id.value) && forall|j: int|
                0 <= j < n && !taken.contains(#[trigger] items[j].chunk.id.value) ==> !evidence_before(items, j, b),
            None => forall|j: int| 0 <= j < n ==> taken.contains(#[trigger] items[j].chunk.id.value),
        },
    decreases n,
{
    if n > 0 {
        lemma_first_evidence(items, taken, n - 1);
        let i = n - 1;
        match first_evidence(items, taken, n - 1) {
            None => {},
            Some(j0) => {
                if !taken.contains(items[i].chunk.id.value) && evidence_before(items, i, j0) {
                    assert forall|j: int| 0 <= j < n && !taken.contains(#[trigger] items[j].chunk.id.value) implies !evidence_before(items, j, i) by {
                        if j < n - 1 && evidence_before(items, j, i) {
                            lemma_evidence_before_transitive(items, j, i, j0);
                        }
                    }
                }
            },
        }
    }
}

/// Every ordered item is in range and its chunk was not taken before.
proof fn lemma_evidence_order_untaken(items: Seq<crate::domain::RetrievalEvidence>, taken: Seq<u128>, fuel: nat)
    ensures
        forall|t: int| 0 <= t < evidence_order(items, taken, fuel).len() ==> 0 <= #[trigger] evidence_order(items, taken, fuel)[t]
            < items.len() && !taken.contains(items[evidence_order(items, taken, fuel)[t]].chunk.id.value),
        forall|s: int, t: int| 0 <= s < t < evidence_order(items, taken, fuel).len() ==> listed_first(
            items,
            #[trigger] evidence_order(items, taken, fuel)[s],
            #[trigger] evidence_order(items, taken, fuel)[t],
        ) && items[evidence_order(items, taken, fuel)[s]].chunk.id.value != items[evidence_order(
            items,
            taken,
            fuel,
        )[t]].chunk.id.value,
    decreases fuel,
{
    lemma_first_evidence(items, taken, items.len() as int);
    if fuel > 0 {
        match first_evidence(items, taken, items.len() as int) {
            None => {},
            Some(b) => {
                let t2 = taken.push(items[b].chunk.id.value);
                lemma_evidence_order_untaken(items, t2, (fuel - 1) as nat);
                let rest = evidence_order(items, t2, (fuel - 1) as nat);
                let o = evidence_order(items, taken, fuel);
                assert(o == seq![b] + rest);
                assert forall|t: int| 0 <= t < o.len() implies 0 <= #[trigger] o[t] < items.len() && !taken.contains(
                    items[o[t]].chunk.id.value,
                ) by {
                    if t > 0 {
                        assert(o[t] == rest[t - 1]);
                        assert(!t2.contains(items[rest[t - 1]].chunk.id.value));
                        if taken.contains(items[rest[t - 1]].chunk.id.value) {
                            let k = choose|k: int| 0 <= k < taken.len() && taken[k] == items[rest[t - 1]].chunk.id.value;
                            assert(t2[k] == taken[k]);
                        }
                    }
                }
                assert forall|s: int, t: int| 0 <= s < t < o.len() implies listed_first(items, #[trigger] o[s], #[trigger] o[t])
                    && items[o[s]].chunk.id.value != items[o[t]].chunk.id.value by {
                    assert(o[t] == rest[t - 1]);
                    if s == 0 {
                        let c = rest[t - 1];
                        assert(!t2.contains(items[c].chunk.id.value));
                        assert(t2[taken.len() as int] == items[b].chunk.id.value);
                        assert(items[c].chunk.id.value != items[b].chunk.id.value);
                        if taken.contains(items[c].chunk.id.value) {
                            let k = choose|k: int| 0 <= k < taken.len() && taken[k] == items[c].chunk.id.value;
                            assert(t2[k] == taken[k]);
                        }
                        assert(!evidence_before(items, c, b));
                    } else {
                        assert(o[s] == rest[s - 1]);
                    }
                }
            },
        }
    }
}

/// The evidence comes most relevant first, and among equally relevant items
/// by ascending chunk id; no chunk is listed twice.
pub proof fn evidence_in_relevance_order(items: Seq<crate::domain::RetrievalEvidence>)
    ensures
        forall|s: int, t: int| 0 <= s < t < evidence_order(items, seq![], items.len() as nat).len() ==> listed_first(
            items,
            #[trigger] evidence_order(items, seq![], items.len() as nat)[s],
            #[trigger] evidence_order(items, seq![], items.len() as nat)[t],
        ),
        forall|s: int, t: int| 0 <= s < t < evidence_order(items, seq![], items.len() as nat).len() ==> items[
            #[trigger] evidence_order(items, seq![], items.len() as nat)[s]].chunk.id.value != items[
            #[trigger] evidence_order(items, seq![], items.len() as nat)[t]].chunk.id.value,
        forall|t: int| 0 <= t < evidence_order(items, seq![], items.len() as nat).len() ==> 0 <= #[trigger] evidence_order(
            items,
            seq![],
            items.len() as nat,
        )[t] < items.len(),
{
    lemma_evidence_order_untaken(items, seq![], items.len() as nat);
}

/// The label of a retrieval method.
pub open spec fn method_name(m: crate::domain::RetrievalMethod) -> Seq<char> {
    match m {
        crate::domain::RetrievalMethod::Structured => "结构化查询"@,
        crate::domain::RetrievalMethod::Keyword => "关键词检索"@,
        crate::domain::RetrievalMethod::Semantic => "语义检索"@,
    }
}

pub fn retrieval_method_label(m: crate::domain::RetrievalMethod) -> (r: &'static str)
    ensures
        r@ == method_name(m),
{
    match m {
        crate::domain::RetrievalMethod::Structured => "结构化查询",
        crate::domain::RetrievalMethod::Keyword => "关键词检索",
        crate::domain::RetrievalMethod::Semantic => "语义检索",
    }
}

/// The prompt text of the `k`-th evidence item (counting from one).
pub open spec fn evidence_text(e: crate::domain::RetrievalEvidence, k: nat) -> Seq<char> {
    "[证据 "@ + decimal(k) + " | "@ + method_name(e.method) + " | 来源修订 "@ + e.chunk.source_revision@
        + "]\n"@ + trim(e.chunk.content@)
}

/// The texts of the ordered evidence with the given authority, numbered by
/// their place in the whole order.
pub open spec fn texts_with(
    items: Seq<crate::domain::RetrievalEvidence>,
    order: Seq<int>,
    authority: crate::domain::ContextAuthority,
) -> Seq<Seq<char>>
    decreases order.len(),
{
    if order.len() == 0 {
        seq![]
    } else {
        let prev = texts_with(items, order.drop_last(), authority);
        let e = items[order.last()];
        if e.authority == authority {
            prev.push(evidence_text(e, order.len()))
        } else {
            prev
        }
    }
}

/// Retrieval compiled into prompt material.
pub struct CompiledRetrieval {
    pub authoritative_facts: Vec<char>,
    pub authoritative_count: u16,
    pub task_materials: Vec<char>,
    pub task_material_count: u16,
    pub references: Vec<char>,
    pub reference_count: u16,
    pub evidence_refs: Vec<ContextEvidenceRef>,
    pub source_status: Vec<char>,
}

/// A count saturated at `u16::MAX`.
pub open spec fn sat16(n: int) -> u16 {
    if n > u16::MAX {
        u16::MAX
    } else {
        n as u16
    }
}

/// Whether some evidence comes from an unversioned search.
pub open spec fn has_unversioned(items: Seq<crate::domain::RetrievalEvidence>) -> bool {
    exists|i: int| 0 <= i < items.len() && (#[trigger] items[i]).chunk.source_revision@ == "search:current"@
}

/// The source status of the retrieval.
pub open spec fn source_status(items: Seq<crate::domain::RetrievalEvidence>) -> Seq<char> {
    if items.len() == 0 {
        "R4_NOT_AVAILABLE"@
    } else if has_unversioned(items) {
        "SOURCE_VERSION_UNVERIFIED"@
    } else {
        "RETRIEVAL_ATTACHED"@
    }
}

/// The view of an evidence reference.
pub open spec fn ref_view(r: ContextEvidenceRef) -> (RecordId, RecordId, Seq<char>, Seq<char>, crate::domain::RetrievalMethod, crate::domain::ContextAuthority) {
    (r.chunk_id, r.source_id, r.source_revision@, r.source_hash@, r.method, r.authority)
}

/// The reference recorded for an evidence item.
pub open spec fn evidence_ref(e: crate::domain::RetrievalEvidence) -> (RecordId, RecordId, Seq<char>, Seq<char>, crate::domain::RetrievalMethod, crate::domain::ContextAuthority) {
    (e.chunk.id, e.chunk.source_id, e.chunk.source_revision@, e.chunk.source_hash@, e.method, e.authority)
}

fn push_text(group: &mut Vec<Vec<char>>, text: &Vec<char>)
    ensures
        views_of(final(group)@) == views_of(old(group)@).push(text@),
{
    let ghost before = views_of(group@);
    let copy = slice_chars(text, 0, text.len());
    assert(copy@ =~= text@);
    group.push(copy);
    assert(views_of(group@) =~= before.push(text@));
}

/// `compile_retrieval_evidence`: the ordered evidence, each item's text under
/// its authority (approved facts, task material, references), the references
/// recorded, and the source status.
pub fn compile_retrieval_evidence(items: &Vec<crate::domain::RetrievalEvidence>) -> (r: CompiledRetrieval)
    ensures
        ({
            let order = evidence_order(items@, seq![], items.len() as nat);
            let facts = texts_with(items@, order, crate::domain::ContextAuthority::AuthoritativeFact);
            let materials = texts_with(items@, order, crate::domain::ContextAuthority::TaskMaterial);
            let refs = texts_with(items@, order, crate::domain::ContextAuthority::Reference);
            &&& r.authoritative_facts@ == join(facts, "\n\n"@)
            &&& r.authoritative_count == sat16(facts.len() as int)
            &&& r.task_materials@ == join(materials, "\n\n"@)
            &&& r.task_material_count == sat16(materials.len() as int)
            &&& r.references@ == join(refs, "\n\n"@)
            &&& r.reference_count == sat16(refs.len() as int)
            &&& r.evidence_refs@.map_values(|x: ContextEvidenceRef| ref_view(x)) == order.map_values(|i: int| evidence_ref(items@[i]))
            &&& r.source_status@ == source_status(items@)
        }),
{
    let order = evidence_order_of(items);
    let ghost ov = order@.map_values(|i: usize| i as int);
    let mut facts: Vec<Vec<char>> = Vec::new();
    let mut materials: Vec<Vec<char>> = Vec::new();
    let mut refs_text: Vec<Vec<char>> = Vec::new();
    let mut refs: Vec<ContextEvidenceRef> = Vec::new();
    let mut k: usize = 0;
    assert(ov.take(0) =~= Seq::<int>::empty());
    assert(views_of(facts@) =~= Seq::<Seq<char>>::empty());
    assert(views_of(materials@) =~= Seq::<Seq<char>>::empty());
    assert(views_of(refs_text@) =~= Seq::<Seq<char>>::empty());
    while k < order.len()
        invariant
            k <= order.len(),
            ov == order@.map_values(|i: usize| i as int),
            forall|j: int| 0 <= j < order.len() ==> #[trigger] order@[j] < items.len(),
            views_of(facts@) == texts_with(items@, ov.take(k as int), crate::domain::ContextAuthority::AuthoritativeFact),
            views_of(materials@) == texts_with(items@, ov.take(k as int), crate::domain::ContextAuthority::TaskMaterial),
            views_of(refs_text@) == texts_with(items@, ov.take(k as int), crate::domain::ContextAuthority::Reference),
            refs.len() == k,
            forall|j: int| 0 <= j < k ==> #[trigger] ref_view(refs@[j]) == evidence_ref(items@[ov[j]]),
        decreases order.len() - k,
    {
        assert(ov.take(k + 1).drop_last() =~= ov.take(k as int));
        assert(ov.take(k + 1).last() == order@[k as int] as int);
        let e = &items[order[k]];
        let mut text = chars_of("[证据 ");
        push_decimal(&mut text, (k as u128) + 1);
        extend_str(&mut text, " | ");
        extend_str(&mut text, retrieval_method_label(e.method));
        extend_str(&mut text, " | 来源修订 ");
        extend_str(&mut text, e.chunk.source_revision.as_str());
        extend_str(&mut text, "]\n");
        extend_str(&mut text, crate::text::trim_str(e.chunk.content.as_str()).as_str());
        assert(text@ =~= evidence_text(*e, (k + 1) as nat));
        match e.authority {
            crate::domain::ContextAuthority::AuthoritativeFact => push_text(&mut facts, &text),
            crate::domain::ContextAuthority::TaskMaterial => push_text(&mut materials, &text),
            crate::domain::ContextAuthority::Reference => push_text(&mut refs_text, &text),
        }
        refs.push(ContextEvidenceRef {
            chunk_id: e.chunk.id,
            source_id: e.chunk.source_id,
            source_revision: string_of(&chars_of(e.chunk.source_revision.as_str())),
            source_hash: string_of(&chars_of(e.chunk.source_hash.as_str())),
            method: e.method,
            authority: e.authority,
        });
        k = k + 1;
    }
    assert(ov.take(order.len() as int) =~= ov);
    assert(refs@.map_values(|x: ContextEvidenceRef| ref_view(x)) =~= ov.map_values(|i: int| evidence_ref(items@[i])));
    let status = if items.len() == 0 {
        chars_of("R4_NOT_AVAILABLE")
    } else {
        let mut unversioned = false;
        let mut i: usize = 0;
        while i < items.len()
            invariant
                i <= items.len(),
                unversioned == (exists|j: int| 0 <= j < i && (#[trigger] items@[j]).chunk.source_revision@ == "search:current"@),
            decreases items.len() - i,
        {
            if crate::text::str_eq(items[i].chunk.source_revision.as_str(), "search:current") {
                unversioned = true;
            }
            i = i + 1;
        }
        if unversioned {
            chars_of("SOURCE_VERSION_UNVERIFIED")
        } else {
            chars_of("RETRIEVAL_ATTACHED")
        }
    };
    let fc = facts.len();
    let mc = materials.len();
    let rc = refs_text.len();
    CompiledRetrieval {
        authoritative_facts: join_chars(&facts, "\n\n"),
        authoritative_count: if fc > 65535 { 65535 } else { fc as u16 },
        task_materials: join_chars(&materials, "\n\n"),
        task_material_count: if mc > 65535 { 65535 } else { mc as u16 },
        references: join_chars(&refs_text, "\n\n"),
        reference_count: if rc > 65535 { 65535 } else { rc as u16 },
        evidence_refs: refs,
        source_status: status,
    }
}

} // verus!

verus! {

/// A request to assemble the context of a writing action.
#[derive(Debug, Clone, PartialEq, Eq)]
pub struct AssembleContextInput {
    pub chapter_id: RecordId,
    pub target_revision_id: Option<RecordId>,
    pub action: AiAction,
    pub chapter_title: String,
    pub chapter_plan: String,
    pub document_json: String,
    pub selection: Option<String>,
    pub instruction: Option<String>,
    pub input_token_budget: u32,
}

/// The model messages of a task and their audit. The context version is the
/// SHA-256 digest of the package's canonical JSON form.
#[derive(Debug, Clone, PartialEq, Eq)]
pub struct ContextPackage {
    pub chapter_id: RecordId,
    pub target_revision_id: Option<RecordId>,
    pub action: AiAction,
    pub context_version: String,
    pub prompt_version: String,
    pub system_prompt: String,
    pub user_prompt: String,
    pub estimated_input_tokens: u32,
    pub truncated: bool,
    pub entity_source_status: String,
    pub retrieval_evidence: Vec<ContextEvidenceRef>,
    pub task_contract: AiTaskContract,
    pub section_audit: Vec<ContextSectionAudit>,
}

impl ContextPackage {
    /// The fixed package of an API connection test: a tester role that may
    /// only answer `OK`, with no retrieval and no sections.
    pub fn connection_test() -> (r: Self)
        ensures
            r.chapter_id.value == 0,
            r.target_revision_id is None,
            r.action == AiAction::Summarize,
            r.context_version@ == "connection-test-v2"@,
            r.prompt_version@ == "connection-test-v2"@,
            r.system_prompt@ == "你是 API 连接测试服务。"@,
            r.user_prompt@ == "只回复 OK。"@,
            r.estimated_input_tokens == 16,
            !r.truncated,
            r.entity_source_status@ == "NOT_USED"@,
            r.retrieval_evidence.len() == 0,
            r.section_audit.len() == 0,
            contract_view(r.task_contract) == (
                AiTaskRole::ApiConnectionTester,
                "验证云端 Chat API 能够返回最小响应。"@,
                "CONNECTION"@,
                RecordId { value: 0 },
                None::<RecordId>,
                seq!["返回固定测试文本。"@],
                seq!["不得执行创作任务。"@],
                seq!["成功返回非空响应。"@],
                "不适用。"@,
                "只回复 OK。"@,
            ),
    {
        let permissions = vec![String::from_str("返回固定测试文本。")];
        let forbidden_actions = vec![String::from_str("不得执行创作任务。")];
        let acceptance_criteria = vec![String::from_str("成功返回非空响应。")];
        assert(strings_view(permissions@) =~= seq!["返回固定测试文本。"@]);
        assert(strings_view(forbidden_actions@) =~= seq!["不得执行创作任务。"@]);
        assert(strings_view(acceptance_criteria@) =~= seq!["成功返回非空响应。"@]);
        let task_contract = AiTaskContract {
            role: AiTaskRole::ApiConnectionTester,
            goal: String::from_str("验证云端 Chat API 能够返回最小响应。"),
            target_type: String::from_str("CONNECTION"),
            target_id: RecordId::nil(),
            target_revision_id: None,
            permissions,
            forbidden_actions,
            acceptance_criteria,
            uncertainty_policy: String::from_str("不适用。"),
            output_contract: String::from_str("只回复 OK。"),
        };
        ContextPackage {
            chapter_id: RecordId::nil(),
            target_revision_id: None,
            action: AiAction::Summarize,
            context_version: String::from_str("connection-test-v2"),
            prompt_version: String::from_str("connection-test-v2"),
            system_prompt: String::from_str("你是 API 连接测试服务。"),
            user_prompt: String::from_str("只回复 OK。"),
            estimated_input_tokens: 16,
            truncated: false,
            entity_source_status: String::from_str("NOT_USED"),
            retrieval_evidence: Vec::new(),
            task_contract,
            section_audit: Vec::new(),
        }
    }
}

/// The text, or the fallback when the text is blank.
pub open spec fn non_empty_or(value: Seq<char>, fallback: Seq<char>) -> Seq<char> {
    if trim(value).len() == 0 {
        fallback
    } else {
        value
    }
}

fn non_empty_or_of(value: Vec<char>, fallback: &str) -> (r: Vec<char>)
    ensures
        r@ == non_empty_or(value@, fallback@),
{
    if crate::text::is_blank(&value) {
        chars_of(fallback)
    } else {
        value
    }
}

/// The system prompt of a role.
pub open spec fn system_prompt_of(role: AiTaskRole) -> Seq<char> {
    "你是"@ + role_name(role)
        + "。你是有边界的认知服务，不是项目事实数据库，也没有最终裁决权。严格服从任务合同和 P0-P6 权威顺序；高优先级与低优先级冲突时采用高优先级，不得自行融合。只根据本次提供的材料工作，不得把模型记忆、推测或新生成细节写成已批准事实。所有输出都只是候选，不能声称已修改正式正文或项目知识。"@
}

/// The selection, trimmed; empty when there is none.
pub open spec fn selection_of(input: AssembleContextInput) -> Seq<char> {
    match input.selection {
        Some(s) => trim(s@),
        None => seq![],
    }
}

/// The user's instruction and selection as prompt text.
pub open spec fn user_material(input: AssembleContextInput, selection: Seq<char>) -> Seq<char> {
    "用户要求："@ + match input.instruction {
        Some(i) => trim(i@),
        None => "无"@,
    } + "\n处理选区："@ + if selection.len() == 0 {
        "无"@
    } else {
        selection
    }
}

/// The eight prompt sections in priority order.
pub open spec fn prompt_sections(
    input: AssembleContextInput,
    selection: Seq<char>,
    document: Seq<char>,
    contract: ContractView,
    facts: (Seq<char>, u16),
    materials: (Seq<char>, u16),
    references: (Seq<char>, u16),
) -> Seq<SectionView> {
    seq![
        (ContextSectionKind::TaskContract, 0u8, "任务合同"@, contract_text(contract, trim(input.chapter_title@)), 1u16, false),
        (ContextSectionKind::UserInstruction, 0u8, "用户本次明确指令"@, user_material(input, selection), 1u16, false),
        (ContextSectionKind::AuthoritativeFacts, 1u8, "已批准事实"@, non_empty_or(facts.0, "R4 尚未启用正式知识库，本次没有已批准事实来源。"@), facts.1, false),
        (ContextSectionKind::ChapterPlan, 2u8, "已批准章节规划"@, non_empty_or(trim(input.chapter_plan@), "未提供章节规划。"@), if trim(input.chapter_plan@).len() == 0 { 0u16 } else { 1u16 }, false),
        (ContextSectionKind::CurrentState, 3u8, "故事当前状态"@, non_empty_or(materials.0, "R4/R5 尚未启用状态快照，本次没有独立状态来源。"@), materials.1, false),
        (ContextSectionKind::CurrentDraft, 4u8, "当前编辑草稿"@, non_empty_or(document, "当前草稿为空。"@), 1u16, input.action != AiAction::Summarize),
        (ContextSectionKind::StyleRules, 5u8, "风格规范"@, "没有独立风格卡；仅执行 P0 用户指令中明确给出的风格要求。"@, 0u16, false),
        (ContextSectionKind::References, 6u8, "参考信息"@, non_empty_or(references.0, "本次没有参考资料；不得用模型记忆补充项目事实。"@), references.1, false),
    ]
}

fn section(kind: ContextSectionKind, priority: u8, title: &'static str, content: Vec<char>, source_count: u16, from_tail: bool) -> (s: PromptSection)
    ensures
        section_view(s) == (kind, priority, title@, content@, source_count, from_tail),
{
    PromptSection { kind, priority, title, content, source_count, truncate_from_tail: from_tail }
}

/// `build_prompt_sections`.
pub fn build_prompt_sections(
    input: &AssembleContextInput,
    selection: &Vec<char>,
    document: Vec<char>,
    contract: &AiTaskContract,
    retrieval: &CompiledRetrieval,
) -> (r: Vec<PromptSection>)
    ensures
        sections_view(r@) == prompt_sections(
            *input,
            selection@,
            document@,
            contract_view(*contract),
            (retrieval.authoritative_facts@, retrieval.authoritative_count),
            (retrieval.task_materials@, retrieval.task_material_count),
            (retrieval.references@, retrieval.reference_count),
        ),
{
    let title = crate::text::trim_str(input.chapter_title.as_str());
    let contract_text = chars_of(format_task_contract(contract, title.as_str()).as_str());
    let mut user = chars_of("用户要求：");
    match &input.instruction {
        Some(i) => extend_str(&mut user, crate::text::trim_str(i.as_str()).as_str()),
        None => extend_str(&mut user, "无"),
    }
    extend_str(&mut user, "\n处理选区：");
    if selection.len() == 0 {
        extend_str(&mut user, "无");
    } else {
        extend_chars(&mut user, selection);
    }
    let plan = crate::text::trim_chars(&chars_of(input.chapter_plan.as_str()));
    let plan_count: u16 = if plan.len() == 0 {
        0
    } else {
        1
    };
    let mut r: Vec<PromptSection> = Vec::new();
    r.push(section(ContextSectionKind::TaskContract, 0, "任务合同", contract_text, 1, false));
    r.push(section(ContextSectionKind::UserInstruction, 0, "用户本次明确指令", user, 1, false));
    r.push(section(
        ContextSectionKind::AuthoritativeFacts,
        1,
        "已批准事实",
        non_empty_or_of(slice_chars(&retrieval.authoritative_facts, 0, retrieval.authoritative_facts.len()), "R4 尚未启用正式知识库，本次没有已批准事实来源。"),
        retrieval.authoritative_count,
        false,
    ));
    r.push(section(ContextSectionKind::ChapterPlan, 2, "已批准章节规划", non_empty_or_of(plan, "未提供章节规划。"), plan_count, false));
    r.push(section(
        ContextSectionKind::CurrentState,
        3,
        "故事当前状态",
        non_empty_or_of(slice_chars(&retrieval.task_materials, 0, retrieval.task_materials.len()), "R4/R5 尚未启用状态快照，本次没有独立状态来源。"),
        retrieval.task_material_count,
        false,
    ));
    r.push(section(ContextSectionKind::CurrentDraft, 4, "当前编辑草稿", non_empty_or_of(document, "当前草稿为空。"), 1, input.action != AiAction::Summarize));
    r.push(section(ContextSectionKind::StyleRules, 5, "风格规范", chars_of("没有独立风格卡；仅执行 P0 用户指令中明确给出的风格要求。"), 0, false));
    r.push(section(
        ContextSectionKind::References,
        6,
        "参考信息",
        non_empty_or_of(slice_chars(&retrieval.references, 0, retrieval.references.len()), "本次没有参考资料；不得用模型记忆补充项目事实。"),
        retrieval.reference_count,
        false,
    ));
    assert(retrieval.authoritative_facts@.subrange(0, retrieval.authoritative_facts@.len() as int) =~= retrieval.authoritative_facts@);
    assert(retrieval.task_materials@.subrange(0, retrieval.task_materials@.len() as int) =~= retrieval.task_materials@);
    assert(retrieval.references@.subrange(0, retrieval.references@.len() as int) =~= retrieval.references@);
    assert(sections_view(r@) =~= prompt_sections(
        *input,
        selection@,
        document@,
        contract_view(*contract),
        (retrieval.authoritative_facts@, retrieval.authoritative_count),
        (retrieval.task_materials@, retrieval.task_material_count),
        (retrieval.references@, retrieval.reference_count),
    ));
    r
}

/// The first evidence item that fails validation, and why.
pub open spec fn first_invalid(items: Seq<crate::domain::RetrievalEvidence>) -> Option<crate::domain::AiContractError>
    decreases items.len(),
{
    if items.len() == 0 {
        None
    } else {
        match items[0].validation() {
            Err(e) => Some(e),
            Ok(_) => first_invalid(items.drop_first()),
        }
    }
}

/// The characters the user prompt may use: four per budget token (saturated),
/// less the system prompt.
pub open spec fn user_budget(tokens: u32, system_len: int) -> int {
    let chars = if tokens * 4 > usize::MAX {
        usize::MAX as int
    } else {
        tokens * 4
    };
    sub0(chars, system_len)
}

/// `ceil(n / 4)` saturated to `u32`.
pub open spec fn quarter_up(n: int) -> u32 {
    sat32((n + 3) / 4)
}

impl crate::application::context::ContextAssembler {
    /// Assembles the context of a writing action without retrieved material.
    pub fn assemble(input: &AssembleContextInput) -> (r: Result<ContextPackage, crate::application::context::ContextError>)
        ensures
            assembly_matches(*input, seq![], r),
    {
        let none: Vec<crate::domain::RetrievalEvidence> = Vec::new();
        Self::assemble_with_retrieval(input, &none)
    }

    /// Compiles a writing request into model messages: the budget must allow
    /// 256 tokens, every evidence item must carry its source, an action on a
    /// selection needs one, and the document must be an editor document. The
    /// sections are cut to the budget in priority order, and the package is
    /// versioned by the digest of its canonical JSON.
    pub fn assemble_with_retrieval(
        input: &AssembleContextInput,
        evidence: &Vec<crate::domain::RetrievalEvidence>,
    ) -> (r: Result<ContextPackage, crate::application::context::ContextError>)
        ensures
            assembly_matches(*input, evidence@, r),
    {
        if input.input_token_budget < 256 {
            return Err(crate::application::context::ContextError::BudgetTooSmall);
        }
        let mut i: usize = 0;
        assert(evidence@.skip(0) =~= evidence@);
        while i < evidence.len()
            invariant
                i <= evidence.len(),
                input.input_token_budget >= 256,
                first_invalid(evidence@) == first_invalid(evidence@.skip(i as int)),
            decreases evidence.len() - i,
        {
            assert(evidence@.skip(i as int)[0] == evidence@[i as int]);
            assert(evidence@.skip(i as int).drop_first() =~= evidence@.skip(i + 1));
            match evidence[i].validate() {
                Err(e) => {
                    return Err(crate::application::context::ContextError::Contract(e));
                },
                Ok(_) => {},
            }
            i = i + 1;
        }
        assert(evidence@.skip(i as int) =~= Seq::<crate::domain::RetrievalEvidence>::empty());
        let selection = match &input.selection {
            Some(s) => crate::text::trim_chars(&chars_of(s.as_str())),
            None => Vec::new(),
        };
        assert(selection@ == selection_of(*input));
        if input.action.requires_selection() && selection.len() == 0 {
            return Err(crate::application::context::ContextError::Contract(
                crate::domain::AiContractError::SelectionRequired,
            ));
        }
        let document = match crate::application::document::document_text_of(input.document_json.as_str()) {
            Ok(d) => chars_of(d.as_str()),
            Err(m) => {
                return Err(crate::application::context::ContextError::InvalidDocument(m));
            },
        };
        let contract = build_task_contract(input.action, input.chapter_id, input.target_revision_id);
        let mut system = chars_of("你是");
        extend_str(&mut system, role_label(contract.role));
        extend_str(&mut system, "。你是有边界的认知服务，不是项目事实数据库，也没有最终裁决权。严格服从任务合同和 P0-P6 权威顺序；高优先级与低优先级冲突时采用高优先级，不得自行融合。只根据本次提供的材料工作，不得把模型记忆、推测或新生成细节写成已批准事实。所有输出都只是候选，不能声称已修改正式正文或项目知识。");
        assert(system@ =~= system_prompt_of(contract.role));
        let retrieval = compile_retrieval_evidence(evidence);
        let sections = build_prompt_sections(input, &selection, document, &contract, &retrieval);
        let chars: usize = match (input.input_token_budget as usize).checked_mul(4) {
            Some(c) => c,
            None => usize::MAX,
        };
        let budget = if chars > system.len() {
            chars - system.len()
        } else {
            0
        };
        let (user, audits, truncated) = compile_sections(&sections, budget);
        let total: u128 = (system.len() as u128) + (user.len() as u128);
        let q = (total + 3) / 4;
        let estimated: u32 = if q > 0xffff_ffff {
            0xffff_ffff
        } else {
            q as u32
        };
        let system_prompt = string_of(&system);
        let user_prompt = string_of(&user);
        let canonical = crate::application::version::writing_canonical_of(
            input.chapter_id,
            input.target_revision_id,
            input.action,
            crate::application::context::PROMPT_VERSION,
            system_prompt.as_str(),
            user_prompt.as_str(),
            &retrieval.evidence_refs,
            &contract,
            &audits,
        );
        let context_version = crate::json::sha256_hex(string_of(&canonical).as_str());
        Ok(ContextPackage {
            chapter_id: input.chapter_id,
            target_revision_id: input.target_revision_id,
            action: input.action,
            context_version,
            prompt_version: String::from_str(crate::application::context::PROMPT_VERSION),
            system_prompt,
            user_prompt,
            estimated_input_tokens: estimated,
            truncated,
            entity_source_status: string_of(&retrieval.source_status),
            retrieval_evidence: retrieval.evidence_refs,
            task_contract: contract,
            section_audit: audits,
        })
    }
}

/// What assembling a writing context gives for a request and its evidence:
/// the first failing check as the error, otherwise the package.
pub open spec fn assembly_matches(
    input: AssembleContextInput,
    evidence: Seq<crate::domain::RetrievalEvidence>,
    r: Result<ContextPackage, crate::application::context::ContextError>,
) -> bool {
    let selection = selection_of(input);
    let doc = crate::application::document::document_text(input.document_json@);
    if input.input_token_budget < 256 {
        r == Err::<ContextPackage, crate::application::context::ContextError>(crate::application::context::ContextError::BudgetTooSmall)
    } else if first_invalid(evidence) is Some {
        r == Err::<ContextPackage, crate::application::context::ContextError>(crate::application::context::ContextError::Contract(first_invalid(evidence).unwrap()))
    } else if input.action.needs_selection() && selection.len() == 0 {
        r == Err::<ContextPackage, crate::application::context::ContextError>(crate::application::context::ContextError::Contract(crate::domain::AiContractError::SelectionRequired))
    } else {
        match doc {
            Err(m) => r is Err && (match r {
                Err(crate::application::context::ContextError::InvalidDocument(s)) => s@ == m,
                _ => false,
            }),
            Ok(document) => match r {
                Ok(p) => {
                    let role = action_role(input.action);
                    let system = system_prompt_of(role);
                    let order = evidence_order(evidence, seq![], evidence.len() as nat);
                    let facts = texts_with(evidence, order, crate::domain::ContextAuthority::AuthoritativeFact);
                    let materials = texts_with(evidence, order, crate::domain::ContextAuthority::TaskMaterial);
                    let refs = texts_with(evidence, order, crate::domain::ContextAuthority::Reference);
                    let sections = prompt_sections(
                        input,
                        selection,
                        document,
                        contract_view(p.task_contract),
                        (join(facts, "\n\n"@), sat16(facts.len() as int)),
                        (join(materials, "\n\n"@), sat16(materials.len() as int)),
                        (join(refs, "\n\n"@), sat16(refs.len() as int)),
                    );
                    let c = compiled(sections, user_budget(input.input_token_budget, system.len() as int));
                    &&& p.chapter_id == input.chapter_id
                    &&& p.target_revision_id == input.target_revision_id
                    &&& p.action == input.action
                    &&& p.context_version@ == crate::json::sha256_hex_of(crate::application::version::writing_canonical(
                        input.chapter_id,
                        input.target_revision_id,
                        input.action,
                        "r3-writing-v2"@,
                        system,
                        c.0,
                        p.retrieval_evidence@,
                        contract_view(p.task_contract),
                        c.1,
                    ))
                    &&& p.prompt_version@ == "r3-writing-v2"@
                    &&& p.task_contract.role == role
                    &&& p.task_contract.goal@ == action_goal(input.action)
                    &&& p.task_contract.target_type@ == action_target(input.action)
                    &&& p.task_contract.target_id == input.chapter_id
                    &&& p.task_contract.target_revision_id == input.target_revision_id
                    &&& strings_view(p.task_contract.permissions@) == writing_permissions()
                    &&& strings_view(p.task_contract.forbidden_actions@) == writing_forbidden()
                    &&& strings_view(p.task_contract.acceptance_criteria@) == action_criteria(input.action)
                    &&& p.task_contract.uncertainty_policy@ == writing_uncertainty()
                    &&& p.task_contract.output_contract@ == action_output(input.action)
                    &&& p.system_prompt@ == system
                    &&& p.user_prompt@ == c.0
                    &&& p.section_audit@ == c.1
                    &&& p.truncated == c.2
                    &&& p.estimated_input_tokens == quarter_up((system.len() + c.0.len()) as int)
                    &&& p.entity_source_status@ == source_status(evidence)
                    &&& p.retrieval_evidence@.map_values(|x: ContextEvidenceRef| ref_view(x)) == order.map_values(|i: int| evidence_ref(evidence[i]))
                },
                Err(_) => false,
            },
        }
    }
}

} // verus!
