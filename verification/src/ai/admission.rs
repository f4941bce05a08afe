//! Whether writing may start on a chapter, given its latest consistency review.
use vstd::prelude::*;
use crate::domain::{AiAction, AiProposalStatus, WritingReviewPolicy};
use crate::ai::tasks::{
    AiConsistencyReport, AiConsistencySeverity, AiConsistencyVerdict, ConsistencyReviewFreshness,
    WritingAdmission,
};
use crate::ai::output::{FindingView, findings_view};
use crate::text::{chars_of, decimal, extend_str, push_decimal, str_eq, string_of};

verus! {

/// A review proposal of a chapter, as admission reads it.
#[derive(Debug, Clone, PartialEq, Eq)]
pub struct AdmissionReview {
    pub action: AiAction,
    pub status: AiProposalStatus,
    pub context_version: String,
    pub consistency: Option<AiConsistencyReport>,
}

/// Whether a review still matches the current context version.
pub open spec fn freshness_of(current: Option<Seq<char>>, reviewed: Seq<char>) -> ConsistencyReviewFreshness {
    match current {
        Some(v) => if v == reviewed {
            ConsistencyReviewFreshness::Fresh
        } else {
            ConsistencyReviewFreshness::Stale
        },
        None => ConsistencyReviewFreshness::Unverified,
    }
}

/// The freshness of a review: fresh when made for the current context
/// version, stale when made for another, unverified when the current version
/// is unknown.
pub fn review_freshness(current_context_version: Option<&str>, reviewed_version: &str) -> (r:
    ConsistencyReviewFreshness)
    ensures
        r == freshness_of(
            match current_context_version {
                Some(v) => Some(v@),
                None => None,
            },
            reviewed_version@,
        ),
{
    match current_context_version {
        Some(v) => if str_eq(v, reviewed_version) {
            ConsistencyReviewFreshness::Fresh
        } else {
            ConsistencyReviewFreshness::Stale
        },
        None => ConsistencyReviewFreshness::Unverified,
    }
}

/// How many findings block writing.
pub open spec fn blocker_count(fs: Seq<FindingView>) -> nat
    decreases fs.len(),
{
    if fs.len() == 0 {
        0
    } else {
        blocker_count(fs.drop_last()) + if fs.last().0 == AiConsistencySeverity::Blocker {
            1nat
        } else {
            0nat
        }
    }
}

/// A review as values: action, status, context version and the report's
/// verdict and findings.
pub type ReviewView = (AiAction, AiProposalStatus, Seq<char>, Option<(AiConsistencyVerdict, Seq<FindingView>)>);

pub open spec fn review_view(r: AdmissionReview) -> ReviewView {
    (
        r.action,
        r.status,
        r.context_version@,
        match r.consistency {
            Some(c) => Some((c.verdict, findings_view(c.findings@))),
            None => None,
        },
    )
}

pub open spec fn reviews_view(rs: Seq<AdmissionReview>) -> Seq<ReviewView> {
    rs.map_values(|r: AdmissionReview| review_view(r))
}

/// The first pending consistency check among the reviews.
pub open spec fn pending_check(rs: Seq<ReviewView>) -> Option<ReviewView>
    decreases rs.len(),
{
    if rs.len() == 0 {
        None
    } else if rs[0].0 == AiAction::ConsistencyCheck && rs[0].1 == AiProposalStatus::Pending {
        Some(rs[0])
    } else {
        pending_check(rs.drop_first())
    }
}

/// An admission as values: allowed, blocker count, reason, freshness.
pub type AdmissionView = (bool, nat, Option<Seq<char>>, ConsistencyReviewFreshness);

pub open spec fn admission_view(a: WritingAdmission) -> AdmissionView {
    (
        a.allowed,
        a.blocker_count as nat,
        match a.reason {
            Some(s) => Some(s@),
            None => None,
        },
        a.review_freshness,
    )
}

/// What the review report alone decides.
pub open spec fn report_admission(
    verdict: AiConsistencyVerdict,
    findings: Seq<FindingView>,
    policy: WritingReviewPolicy,
    freshness: ConsistencyReviewFreshness,
) -> AdmissionView {
    match verdict {
        AiConsistencyVerdict::Blocked => (
            false,
            blocker_count(findings),
            Some(
                "最近一次一致性审核发现 "@ + decimal(blocker_count(findings))
                    + " 个阻断问题，请先处理并关闭审核后再生成正文。"@,
            ),
            freshness,
        ),
        AiConsistencyVerdict::NeedsInput => (
            true,
            0,
            Some("最近一次一致性审核发现部分正式依据未记录或无法确认。未知项可以保留，不会阻断正文生成。"@),
            freshness,
        ),
        AiConsistencyVerdict::Unparsed => if policy == WritingReviewPolicy::Required {
            (false, 0, Some("当前作品要求审核结论可解析，请重新审核并确认报告格式。"@), freshness)
        } else {
            (true, 0, None, freshness)
        },
        _ => (true, 0, None, freshness),
    }
}

/// The admission decision for a chapter.
pub open spec fn admission(
    rs: Seq<ReviewView>,
    current: Option<Seq<char>>,
    policy: WritingReviewPolicy,
) -> AdmissionView {
    let required = policy == WritingReviewPolicy::Required;
    match pending_check(rs) {
        None => (
            !required,
            0,
            if required {
                Some("当前作品要求生成正文前完成一致性审核，请先运行审核并确认结果。"@)
            } else {
                None
            },
            ConsistencyReviewFreshness::Missing,
        ),
        Some(review) => {
            let freshness = freshness_of(current, review.2);
            if freshness == ConsistencyReviewFreshness::Stale {
                (
                    !required,
                    0,
                    Some(
                        if required {
                            "审核依据已经变化，当前作品要求重新审核通过后才能生成正文。"@
                        } else {
                            "审核依据已经变化，原审核结果已过期，不再参与正文生成准入。"@
                        },
                    ),
                    freshness,
                )
            } else if freshness == ConsistencyReviewFreshness::Unverified && required {
                (false, 0, Some("系统无法确认现有审核是否对应当前正文与设定，请重新审核后再生成正文。"@), freshness)
            } else {
                match review.3 {
                    None => (
                        !required,
                        0,
                        if required {
                            Some("现有审核没有可用的审核报告，请重新审核后再生成正文。"@)
                        } else {
                            None
                        },
                        ConsistencyReviewFreshness::Missing,
                    ),
                    Some(report) => {
                        let a = report_admission(report.0, report.1, policy, freshness);
                        if policy == WritingReviewPolicy::Advisory {
                            (
                                true,
                                a.1,
                                if !a.0 {
                                    Some("当前作品的一致性审核仅作建议，不阻止生成正文。"@)
                                } else {
                                    None
                                },
                                freshness,
                            )
                        } else {
                            a
                        }
                    },
                }
            }
        },
    }
}

fn count_blockers(report: &AiConsistencyReport) -> (r: usize)
    ensures
        r == blocker_count(findings_view(report.findings@)),
{
    let ghost fv = findings_view(report.findings@);
    let mut c: usize = 0;
    let mut i: usize = 0;
    assert(fv.take(0) =~= Seq::<FindingView>::empty());
    while i < report.findings.len()
        invariant
            i <= report.findings.len(),
            fv == findings_view(report.findings@),
            c == blocker_count(fv.take(i as int)),
            c <= i,
        decreases report.findings.len() - i,
    {
        assert(fv.take(i + 1).drop_last() =~= fv.take(i as int));
        if report.findings[i].severity == AiConsistencySeverity::Blocker {
            c = c + 1;
        }
        i = i + 1;
    }
    assert(fv.take(report.findings.len() as int) =~= fv);
    c
}

fn decision(allowed: bool, blocker_count: usize, reason: Option<&str>, freshness: ConsistencyReviewFreshness) -> (r: WritingAdmission)
    ensures
        r.allowed == allowed,
        r.blocker_count == blocker_count,
        r.review_freshness == freshness,
        match reason {
            Some(s) => r.reason is Some && r.reason.unwrap()@ == s@,
            None => r.reason is None,
        },
{
    WritingAdmission {
        allowed,
        blocker_count,
        reason: match reason {
            Some(s) => Some(String::from_str(s)),
            None => None,
        },
        review_freshness: freshness,
    }
}

/// Decides whether writing may start on a chapter from its first pending
/// consistency check. A missing, stale or unusable review blocks only a
/// policy that requires review; a blocked review blocks unless the policy is
/// advisory; a review that asks for input never blocks.
pub fn chapter_writing_admission(
    reviews: &Vec<AdmissionReview>,
    current_context_version: Option<&str>,
    policy: WritingReviewPolicy,
) -> (r: WritingAdmission)
    ensures
        admission_view(r) == admission(
            reviews_view(reviews@),
            match current_context_version {
                Some(v) => Some(v@),
                None => None,
            },
            policy,
        ),
{
    let ghost rv = reviews_view(reviews@);
    let required = policy == WritingReviewPolicy::Required;
    let mut i: usize = 0;
    assert(rv.skip(0) =~= rv);
    while i < reviews.len()
        invariant
            i <= reviews.len(),
            rv == reviews_view(reviews@),
            pending_check(rv) == pending_check(rv.skip(i as int)),
        ensures
            i <= reviews.len(),
            rv == reviews_view(reviews@),
            pending_check(rv) == pending_check(rv.skip(i as int)),
            i < reviews.len() ==> reviews@[i as int].action == AiAction::ConsistencyCheck
                && reviews@[i as int].status == AiProposalStatus::Pending,
        decreases reviews.len() - i,
    {
        assert(rv.skip(i as int)[0] == review_view(reviews@[i as int]));
        assert(rv.skip(i as int).drop_first() =~= rv.skip(i + 1));
        if reviews[i].action == AiAction::ConsistencyCheck && reviews[i].status == AiProposalStatus::Pending {
            break;
        }
        i = i + 1;
    }
    if i == reviews.len() {
        assert(rv.skip(i as int) =~= Seq::<ReviewView>::empty());
        let r = if required {
            decision(false, 0, Some("当前作品要求生成正文前完成一致性审核，请先运行审核并确认结果。"), ConsistencyReviewFreshness::Missing)
        } else {
            decision(true, 0, None, ConsistencyReviewFreshness::Missing)
        };
        return r;
    }
    let review = &reviews[i];
    assert(rv.skip(i as int)[0] == review_view(*review));
    assert(pending_check(rv) == Some(review_view(*review)));
    let freshness = review_freshness(current_context_version, review.context_version.as_str());
    if freshness == ConsistencyReviewFreshness::Stale {
        return if required {
            decision(false, 0, Some("审核依据已经变化，当前作品要求重新审核通过后才能生成正文。"), freshness)
        } else {
            decision(true, 0, Some("审核依据已经变化，原审核结果已过期，不再参与正文生成准入。"), freshness)
        };
    }
    if freshness == ConsistencyReviewFreshness::Unverified && required {
        return decision(false, 0, Some("系统无法确认现有审核是否对应当前正文与设定，请重新审核后再生成正文。"), freshness);
    }
    let report = match &review.consistency {
        Some(c) => c,
        None => {
            return if required {
                decision(false, 0, Some("现有审核没有可用的审核报告，请重新审核后再生成正文。"), ConsistencyReviewFreshness::Missing)
            } else {
                decision(true, 0, None, ConsistencyReviewFreshness::Missing)
            };
        },
    };
    let decided = match report.verdict {
        AiConsistencyVerdict::Blocked => {
            let n = count_blockers(report);
            let mut msg = chars_of("最近一次一致性审核发现 ");
            push_decimal(&mut msg, n as u128);
            extend_str(&mut msg, " 个阻断问题，请先处理并关闭审核后再生成正文。");
            WritingAdmission {
                allowed: false,
                blocker_count: n,
                reason: Some(string_of(&msg)),
                review_freshness: freshness,
            }
        },
        AiConsistencyVerdict::NeedsInput => decision(
            true,
            0,
            Some("最近一次一致性审核发现部分正式依据未记录或无法确认。未知项可以保留，不会阻断正文生成。"),
            freshness,
        ),
        AiConsistencyVerdict::Unparsed => if required {
            decision(false, 0, Some("当前作品要求审核结论可解析，请重新审核并确认报告格式。"), freshness)
        } else {
            decision(true, 0, None, freshness)
        },
        _ => decision(true, 0, None, freshness),
    };
    if policy == WritingReviewPolicy::Advisory {
        return if !decided.allowed {
            decision(true, decided.blocker_count, Some("当前作品的一致性审核仅作建议，不阻止生成正文。"), freshness)
        } else {
            decision(true, decided.blocker_count, None, freshness)
        };
    }
    decided
}

/// Under an advisory policy writing is always allowed.
pub proof fn advisory_policy_always_admits(rs: Seq<ReviewView>, current: Option<Seq<char>>)
    ensures
        admission(rs, current, WritingReviewPolicy::Advisory).0,
{
}

/// Whenever writing is refused, a reason is given.
pub proof fn refusals_carry_a_reason(
    rs: Seq<ReviewView>,
    current: Option<Seq<char>>,
    policy: WritingReviewPolicy,
)
    ensures
        !admission(rs, current, policy).0 ==> admission(rs, current, policy).2 is Some,
{
}

/// A policy that requires review refuses writing without a pending review.
pub proof fn required_policy_needs_a_review(rs: Seq<ReviewView>, current: Option<Seq<char>>)
    requires
        pending_check(rs) is None,
    ensures
        !admission(rs, current, WritingReviewPolicy::Required).0,
        admission(rs, current, WritingReviewPolicy::Required).3 == ConsistencyReviewFreshness::Missing,
{
}

/// A fresh review that found blockers refuses writing unless the policy is
/// advisory, and reports how many blockers there are.
pub proof fn fresh_blocked_review_refuses(
    rs: Seq<ReviewView>,
    version: Seq<char>,
    policy: WritingReviewPolicy,
)
    requires
        pending_check(rs) is Some,
        pending_check(rs).unwrap().2 == version,
        pending_check(rs).unwrap().3 is Some,
        pending_check(rs).unwrap().3.unwrap().0 == AiConsistencyVerdict::Blocked,
        policy != WritingReviewPolicy::Advisory,
    ensures
        !admission(rs, Some(version), policy).0,
        admission(rs, Some(version), policy).1 == blocker_count(pending_check(rs).unwrap().3.unwrap().1),
        admission(rs, Some(version), policy).3 == ConsistencyReviewFreshness::Fresh,
{
}

/// The stricter the policy, the fewer chapters are admitted: whatever a
/// required policy admits, the standard policy admits, and whatever the
/// standard policy admits, the advisory policy admits.
pub proof fn stricter_policies_admit_less(rs: Seq<ReviewView>, current: Option<Seq<char>>)
    ensures
        admission(rs, current, WritingReviewPolicy::Required).0 ==> admission(rs, current, WritingReviewPolicy::Standard).0,
        admission(rs, current, WritingReviewPolicy::Standard).0 ==> admission(rs, current, WritingReviewPolicy::Advisory).0,
{
}

/// A review made for another context version than the current one is stale,
/// and then only a policy that requires review refuses writing.
pub proof fn stale_review_blocks_only_required_policy(
    rs: Seq<ReviewView>,
    version: Seq<char>,
    policy: WritingReviewPolicy,
)
    requires
        pending_check(rs) is Some,
        pending_check(rs).unwrap().2 != version,
    ensures
        admission(rs, Some(version), policy).0 == (policy != WritingReviewPolicy::Required),
        admission(rs, Some(version), policy).3 == ConsistencyReviewFreshness::Stale,
        admission(rs, Some(version), policy).2 is Some,
{
}

/// A review whose context version cannot be checked refuses writing under a
/// policy that requires review.
pub proof fn unverified_review_refuses_required_policy(rs: Seq<ReviewView>)
    requires
        pending_check(rs) is Some,
    ensures
        !admission(rs, None, WritingReviewPolicy::Required).0,
        admission(rs, None, WritingReviewPolicy::Required).3 == ConsistencyReviewFreshness::Unverified,
{
}

/// A fresh review that passed, or that asks for input, never refuses
/// writing, whatever the policy.
pub proof fn fresh_passing_review_admits(rs: Seq<ReviewView>, version: Seq<char>, policy: WritingReviewPolicy)
    requires
        pending_check(rs) is Some,
        pending_check(rs).unwrap().2 == version,
        pending_check(rs).unwrap().3 is Some,
        pending_check(rs).unwrap().3.unwrap().0 == AiConsistencyVerdict::Pass || pending_check(rs).unwrap().3.unwrap().0
            == AiConsistencyVerdict::NeedsInput || pending_check(rs).unwrap().3.unwrap().0 == AiConsistencyVerdict::Review,
    ensures
        admission(rs, Some(version), policy).0,
        admission(rs, Some(version), policy).3 == ConsistencyReviewFreshness::Fresh,
{
}

} // verus!
