//! What context assembly guarantees across calls and inputs.
use vstd::prelude::*;
use crate::application::assembly::{
    assembly_matches, contract_view, evidence_order, evidence_ref, first_evidence, first_invalid,
    ref_view, selection_of, ContextEvidenceRef, ContextPackage,
};
use crate::application::context::ContextError;
use crate::application::version::{evidence_json, evidence_list_json};
use crate::domain::{AiAction, AiContractError, RetrievalEvidence};

verus! {

proof fn lemma_first_evidence(items: Seq<RetrievalEvidence>, taken: Seq<u128>, n: int)
    requires
        n <= items.len(),
    ensures
        first_evidence(items, taken, n) matches Some(i) ==> 0 <= i < n && !taken.contains(items[i].chunk.id.value),
    decreases n,
{
    if n > 0 {
        lemma_first_evidence(items, taken, n - 1);
    }
}

proof fn lemma_order_distinct(items: Seq<RetrievalEvidence>, taken: Seq<u128>, fuel: nat)
    ensures
        forall|k: int|
            0 <= k < evidence_order(items, taken, fuel).len() ==> {
                let i = #[trigger] evidence_order(items, taken, fuel)[k];
                0 <= i < items.len() && !taken.contains(items[i].chunk.id.value)
            },
        forall|k: int, l: int|
            0 <= k < l < evidence_order(items, taken, fuel).len() ==> items[#[trigger] evidence_order(
                items,
                taken,
                fuel,
            )[k]].chunk.id.value != items[#[trigger] evidence_order(items, taken, fuel)[l]].chunk.id.value,
    decreases fuel,
{
    if fuel > 0 {
        lemma_first_evidence(items, taken, items.len() as int);
        match first_evidence(items, taken, items.len() as int) {
            None => {},
            Some(i) => {
                let t2 = taken.push(items[i].chunk.id.value);
                lemma_order_distinct(items, t2, (fuel - 1) as nat);
                let rest = evidence_order(items, t2, (fuel - 1) as nat);
                let all = evidence_order(items, taken, fuel);
                assert(all == seq![i] + rest);
                assert forall|k: int| 0 <= k < all.len() implies {
                    let j = #[trigger] all[k];
                    0 <= j < items.len() && !taken.contains(items[j].chunk.id.value)
                } by {
                    if k > 0 {
                        assert(all[k] == rest[k - 1]);
                        let j = rest[k - 1];
                        if taken.contains(items[j].chunk.id.value) {
                            let w = choose|w: int| 0 <= w < taken.len() && taken[w] == items[j].chunk.id.value;
                            assert(t2[w] == taken[w]);
                            assert(t2.contains(items[j].chunk.id.value));
                        }
                    }
                }
                assert forall|k: int, l: int| 0 <= k < l < all.len() implies items[#[trigger] all[k]].chunk.id.value
                    != items[#[trigger] all[l]].chunk.id.value by {
                    if k == 0 {
                        assert(all[l] == rest[l - 1]);
                        assert(t2[taken.len() as int] == items[i].chunk.id.value);
                        assert(t2.contains(items[i].chunk.id.value));
                    } else {
                        assert(all[k] == rest[k - 1]);
                        assert(all[l] == rest[l - 1]);
                    }
                }
            },
        }
    }
}

/// Each chunk of retrieved evidence is attached to a context at most once,
/// however often it was retrieved.
pub proof fn evidence_is_attached_once(
    input: crate::application::assembly::AssembleContextInput,
    evidence: Seq<RetrievalEvidence>,
    p: ContextPackage,
)
    requires
        assembly_matches(input, evidence, Ok(p)),
    ensures
        forall|k: int, l: int|
            0 <= k < l < p.retrieval_evidence.len() ==> (#[trigger] p.retrieval_evidence@[k]).chunk_id
                != (#[trigger] p.retrieval_evidence@[l]).chunk_id,
{
    let order = evidence_order(evidence, seq![], evidence.len() as nat);
    lemma_order_distinct(evidence, seq![], evidence.len() as nat);
    let refs = p.retrieval_evidence@;
    assert(refs.map_values(|x: ContextEvidenceRef| ref_view(x)) == order.map_values(|i: int| evidence_ref(evidence[i])));
    assert forall|k: int, l: int| 0 <= k < l < p.retrieval_evidence.len() implies (
    #[trigger] p.retrieval_evidence@[k]).chunk_id != (#[trigger] p.retrieval_evidence@[l]).chunk_id by {
        assert(refs.map_values(|x: ContextEvidenceRef| ref_view(x))[k] == ref_view(refs[k]));
        assert(refs.map_values(|x: ContextEvidenceRef| ref_view(x))[l] == ref_view(refs[l]));
        assert(order.map_values(|i: int| evidence_ref(evidence[i]))[k] == evidence_ref(evidence[order[k]]));
        assert(order.map_values(|i: int| evidence_ref(evidence[i]))[l] == evidence_ref(evidence[order[l]]));
    }
}

/// Assembling the same request with the same evidence twice gives the same
/// context version.
pub proof fn context_version_is_stable(
    input: crate::application::assembly::AssembleContextInput,
    evidence: Seq<RetrievalEvidence>,
    p1: ContextPackage,
    p2: ContextPackage,
)
    requires
        assembly_matches(input, evidence, Ok(p1)),
        assembly_matches(input, evidence, Ok(p2)),
    ensures
        p1.context_version@ == p2.context_version@,
        p1.system_prompt@ == p2.system_prompt@,
        p1.user_prompt@ == p2.user_prompt@,
{
    let r1 = p1.retrieval_evidence@;
    let r2 = p2.retrieval_evidence@;
    assert(r1.map_values(|x: ContextEvidenceRef| ref_view(x)) =~= r2.map_values(|x: ContextEvidenceRef| ref_view(x)));
    assert(r1.len() == r2.len());
    assert forall|k: int| 0 <= k < r1.len() implies evidence_json(r1[k]) == evidence_json(r2[k]) by {
        assert(r1.map_values(|x: ContextEvidenceRef| ref_view(x))[k] == ref_view(r1[k]));
        assert(r2.map_values(|x: ContextEvidenceRef| ref_view(x))[k] == ref_view(r2[k]));
    }
    assert(r1.map_values(|e: ContextEvidenceRef| evidence_json(e)) =~= r2.map_values(|e: ContextEvidenceRef| evidence_json(e)));
    assert(evidence_list_json(r1) == evidence_list_json(r2));
    assert(contract_view(p1.task_contract) =~= contract_view(p2.task_contract));
}

/// Rewriting or polishing without a selection is refused once the budget and
/// the evidence are acceptable.
pub proof fn selection_actions_need_a_selection(
    input: crate::application::assembly::AssembleContextInput,
    evidence: Seq<RetrievalEvidence>,
    r: Result<ContextPackage, ContextError>,
)
    requires
        assembly_matches(input, evidence, r),
        input.input_token_budget >= 256,
        first_invalid(evidence) is None,
        input.action == AiAction::Rewrite || input.action == AiAction::Polish,
        selection_of(input).len() == 0,
    ensures
        r == Err::<ContextPackage, ContextError>(ContextError::Contract(AiContractError::SelectionRequired)),
{
}

/// A budget below 256 tokens is refused before anything else is looked at.
pub proof fn small_budgets_are_refused(
    input: crate::application::assembly::AssembleContextInput,
    evidence: Seq<RetrievalEvidence>,
    r: Result<ContextPackage, ContextError>,
)
    requires
        assembly_matches(input, evidence, r),
        input.input_token_budget < 256,
    ensures
        r == Err::<ContextPackage, ContextError>(ContextError::BudgetTooSmall),
{
}

} // verus!
