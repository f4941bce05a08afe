//! Checks of model output and the consistency review line format.
use vstd::prelude::*;
use crate::domain::AiAction;
use crate::ai::tasks::{
    AiConsistencyFinding, AiConsistencyReport, AiConsistencySeverity, AiConsistencyVerdict,
    AiOutputValidation,
};
use crate::text::{
    chars_of, contains, contains_str, ends_with, ends_with_str, extend_chars, extend_str, is_blank,
    join, join_chars, lines, lines_of, slice_chars, starts_with, starts_with_str, string_of, trim,
    trim_chars, views_of,
};

verus! {

/// The marker a model writes when the settings do not allow an answer.
pub open spec fn needs_input_marker() -> Seq<char> {
    "[上下文不足]"@
}

/// How many lines hold more than white space.
pub open spec fn paragraph_count(ls: Seq<Seq<char>>) -> nat
    decreases ls.len(),
{
    if ls.len() == 0 {
        0
    } else {
        paragraph_count(ls.drop_last()) + if trim(ls.last()).len() > 0 {
            1nat
        } else {
            0nat
        }
    }
}

/// Output that opens like a chat reply rather than text.
pub open spec fn chatty_opening(t: Seq<char>) -> bool {
    starts_with(t, "好的"@) || starts_with(t, "当然"@) || starts_with(t, "以下是"@) || starts_with(
        t,
        "我会"@,
    ) || starts_with(t, "下面是"@) || starts_with(t, "作为AI"@) || starts_with(t, "作为 AI"@)
}

/// Output that ends like unfinished text.
pub open spec fn unfinished_ending(t: Seq<char>) -> bool {
    ends_with(t, "..."@) || ends_with(t, "…"@) || ends_with(t, "（未完"@) || ends_with(t, "(未完"@)
}

/// Output that looks like a JSON object.
pub open spec fn json_shaped(t: Seq<char>) -> bool {
    t.len() > 0 && t[0] == '{' && t.last() == '}'
}

/// Appends `m` when `c` holds.
pub open spec fn note(ms: Seq<Seq<char>>, c: bool, m: Seq<char>) -> Seq<Seq<char>> {
    if c {
        ms.push(m)
    } else {
        ms
    }
}

/// The warnings about a non-empty output that did not ask for input.
pub open spec fn output_warnings(action: AiAction, t: Seq<char>) -> Seq<Seq<char>> {
    let m0 = note(seq![], t.len() < 20, "输出明显过短，建议检查是否被模型提前截断。"@);
    let m1 = note(m0, paragraph_count(lines(t)) == 0, "输出没有可识别的段落结构。"@);
    let m2 = note(m1, contains(t, "```"@), "正文候选包含 Markdown 代码围栏，应用前建议清理。"@);
    let m3 = note(m2, chatty_opening(t), "输出开头包含对话式说明，可能混入了模型元话语。"@);
    let m4 = note(m3, unfinished_ending(t), "输出结尾像未完成内容，建议续写或重新生成。"@);
    note(
        m4,
        json_shaped(t) && action != AiAction::Summarize,
        "正文候选看起来是 JSON 结构，与应用合同不一致。"@,
    )
}

/// The messages of an output check.
pub open spec fn output_messages(action: AiAction, t: Seq<char>) -> Seq<Seq<char>> {
    if contains(t, needs_input_marker()) {
        seq!["模型没有生成可用结果，要求先补齐正式设定。"@]
    } else if t.len() == 0 {
        seq!["输出为空，不能形成候选。"@]
    } else {
        output_warnings(action, t)
    }
}

/// The status of an output check.
pub open spec fn output_status(action: AiAction, t: Seq<char>) -> Seq<char> {
    if contains(t, needs_input_marker()) {
        "NEEDS_INPUT"@
    } else if t.len() == 0 {
        "INVALID"@
    } else if output_warnings(action, t).len() == 0 {
        "VALID"@
    } else {
        "WARNING"@
    }
}

/// `ceil(n / 4)`, saturated at `u32::MAX`.
pub open spec fn token_estimate(n: nat) -> u32 {
    let q = (n + 3) / 4;
    if q > u32::MAX {
        u32::MAX
    } else {
        q as u32
    }
}

fn count_paragraphs(ls: &Vec<Vec<char>>) -> (r: usize)
    ensures
        r == paragraph_count(views_of(ls@)),
{
    let mut c: usize = 0;
    let mut i: usize = 0;
    assert(views_of(ls@).take(0) =~= Seq::<Seq<char>>::empty());
    while i < ls.len()
        invariant
            i <= ls.len(),
            c == paragraph_count(views_of(ls@).take(i as int)),
            c <= i,
        decreases ls.len() - i,
    {
        let ghost pre = views_of(ls@).take(i + 1);
        assert(pre.drop_last() =~= views_of(ls@).take(i as int));
        assert(pre.last() == ls@[i as int]@);
        if !is_blank(&ls[i]) {
            c = c + 1;
        }
        i = i + 1;
    }
    assert(views_of(ls@).take(ls.len() as int) =~= views_of(ls@));
    c
}

fn push_message(ms: &mut Vec<String>, m: &str)
    ensures
        final(ms)@.map_values(|s: String| s@) == old(ms)@.map_values(|s: String| s@).push(m@),
{
    let ghost before = ms@.map_values(|s: String| s@);
    ms.push(String::from_str(m));
    assert(ms@.map_values(|s: String| s@) =~= before.push(m@));
}

/// Checks a model output: asking for input, empty, or warnings about length,
/// structure, code fences, chat openings, unfinished endings and JSON shape.
pub fn validate_ai_output(action: AiAction, output_text: &str) -> (r: AiOutputValidation)
    ensures
        r.status@ == output_status(action, trim(output_text@)),
        r.messages@.map_values(|s: String| s@) == output_messages(action, trim(output_text@)),
        r.character_count == trim(output_text@).len(),
        r.paragraph_count == paragraph_count(lines(trim(output_text@))),
        r.estimated_output_tokens == token_estimate(trim(output_text@).len()),
{
    let t = trim_chars(&chars_of(output_text));
    let needs_input = contains_str(&t, "[上下文不足]");
    let character_count = t.len();
    let ls = lines_of(&t);
    let paragraphs = count_paragraphs(&ls);
    let mut messages: Vec<String> = Vec::new();
    assert(messages@.map_values(|s: String| s@) =~= Seq::<Seq<char>>::empty());
    if needs_input {
        push_message(&mut messages, "模型没有生成可用结果，要求先补齐正式设定。");
    } else if t.len() == 0 {
        push_message(&mut messages, "输出为空，不能形成候选。");
    } else {
        if character_count < 20 {
            push_message(&mut messages, "输出明显过短，建议检查是否被模型提前截断。");
        }
        if paragraphs == 0 {
            push_message(&mut messages, "输出没有可识别的段落结构。");
        }
        if contains_str(&t, "```") {
            push_message(&mut messages, "正文候选包含 Markdown 代码围栏，应用前建议清理。");
        }
        if starts_with_str(&t, "好的") || starts_with_str(&t, "当然") || starts_with_str(&t, "以下是")
            || starts_with_str(&t, "我会") || starts_with_str(&t, "下面是") || starts_with_str(
            &t,
            "作为AI",
        ) || starts_with_str(&t, "作为 AI") {
            push_message(&mut messages, "输出开头包含对话式说明，可能混入了模型元话语。");
        }
        if ends_with_str(&t, "...") || ends_with_str(&t, "…") || ends_with_str(&t, "（未完")
            || ends_with_str(&t, "(未完") {
            push_message(&mut messages, "输出结尾像未完成内容，建议续写或重新生成。");
        }
        if t.len() > 0 && t[0] == '{' && t[t.len() - 1] == '}' && action != AiAction::Summarize {
            push_message(&mut messages, "正文候选看起来是 JSON 结构，与应用合同不一致。");
        }
    }
    let status = if needs_input {
        "NEEDS_INPUT"
    } else if t.len() == 0 {
        "INVALID"
    } else if messages.len() == 0 {
        "VALID"
    } else {
        "WARNING"
    };
    let q = character_count / 4 + if character_count % 4 > 0 {
        1
    } else {
        0
    };
    assert(q == (character_count + 3) / 4);
    let estimated: u32 = if q > 0xffff_ffff {
        0xffff_ffff
    } else {
        q as u32
    };
    AiOutputValidation {
        status: String::from_str(status),
        messages,
        character_count,
        paragraph_count: paragraphs,
        estimated_output_tokens: estimated,
    }
}

} // verus!

verus! {

/// Leading `-` and `*` removed.
pub open spec fn strip_bullets(s: Seq<char>) -> Seq<char>
    decreases s.len(),
{
    if s.len() > 0 && (s[0] == '-' || s[0] == '*') {
        strip_bullets(s.drop_first())
    } else {
        s
    }
}

/// Leading `:` and `：` removed.
pub open spec fn strip_colons(s: Seq<char>) -> Seq<char>
    decreases s.len(),
{
    if s.len() > 0 && (s[0] == ':' || s[0] == '：') {
        strip_colons(s.drop_first())
    } else {
        s
    }
}

/// `str::trim_start_matches` with a string: every leading copy of `p` removed.
pub open spec fn strip_repeated(s: Seq<char>, p: Seq<char>) -> Seq<char>
    decreases s.len(),
{
    if p.len() > 0 && starts_with(s, p) {
        strip_repeated(s.skip(p.len() as int), p)
    } else {
        s
    }
}

fn strip_bullets_of(v: &Vec<char>) -> (r: Vec<char>)
    ensures
        r@ == strip_bullets(v@),
{
    let mut i: usize = 0;
    assert(v@.skip(0) =~= v@);
    while i < v.len() && (v[i] == '-' || v[i] == '*')
        invariant
            i <= v.len(),
            strip_bullets(v@) == strip_bullets(v@.skip(i as int)),
        decreases v.len() - i,
    {
        assert(v@.skip(i as int).drop_first() =~= v@.skip(i + 1));
        i = i + 1;
    }
    let r = slice_chars(v, i, v.len());
    assert(r@ =~= v@.skip(i as int));
    r
}

fn strip_colons_of(v: &Vec<char>) -> (r: Vec<char>)
    ensures
        r@ == strip_colons(v@),
{
    let mut i: usize = 0;
    assert(v@.skip(0) =~= v@);
    while i < v.len() && (v[i] == ':' || v[i] == '：')
        invariant
            i <= v.len(),
            strip_colons(v@) == strip_colons(v@.skip(i as int)),
        decreases v.len() - i,
    {
        assert(v@.skip(i as int).drop_first() =~= v@.skip(i + 1));
        i = i + 1;
    }
    let r = slice_chars(v, i, v.len());
    assert(r@ =~= v@.skip(i as int));
    r
}

fn strip_repeated_of(v: &Vec<char>, p: &str) -> (r: Vec<char>)
    ensures
        r@ == strip_repeated(v@, p@),
{
    let pv = chars_of(p);
    let mut i: usize = 0;
    assert(v@.skip(0) =~= v@);
    while pv.len() > 0 && crate::text::matches_at(v, &pv, i)
        invariant
            i <= v.len(),
            pv@ == p@,
            strip_repeated(v@, p@) == strip_repeated(v@.skip(i as int), p@),
        decreases v.len() - i,
    {
        assert(starts_with(v@.skip(i as int), p@)) by {
            assert(v@.skip(i as int).subrange(0, p@.len() as int) =~= v@.subrange(
                i as int,
                i + p@.len(),
            ));
        };
        assert(v@.skip(i as int).skip(p@.len() as int) =~= v@.skip(i + p@.len()));
        i = i + pv.len();
    }
    assert(!(p@.len() > 0 && starts_with(v@.skip(i as int), p@))) by {
        if p@.len() > 0 && starts_with(v@.skip(i as int), p@) {
            assert(v@.skip(i as int).subrange(0, p@.len() as int) =~= v@.subrange(
                i as int,
                i + p@.len(),
            ));
        }
    };
    let r = slice_chars(v, i, v.len());
    assert(r@ =~= v@.skip(i as int));
    r
}

/// The severity named by a finding label.
pub open spec fn severity_of(label: Seq<char>) -> Option<AiConsistencySeverity> {
    if label == "阻断"@ || label == "阻断级"@ || label == "BLOCKER"@ || label == "blocker"@ {
        Some(AiConsistencySeverity::Blocker)
    } else if label == "严重"@ || label == "重要"@ || label == "MAJOR"@ || label == "major"@ {
        Some(AiConsistencySeverity::Major)
    } else if label == "一般"@ || label == "MINOR"@ || label == "minor"@ {
        Some(AiConsistencySeverity::Minor)
    } else if label == "提示"@ || label == "建议"@ || label == "INFO"@ || label == "info"@ {
        Some(AiConsistencySeverity::Info)
    } else {
        None
    }
}

fn severity_of_exec(label: &Vec<char>) -> (r: Option<AiConsistencySeverity>)
    ensures
        r == severity_of(label@),
{
    if crate::text::eq_str(label, "阻断") || crate::text::eq_str(label, "阻断级") || crate::text::eq_str(label, "BLOCKER") || crate::text::eq_str(
        label,
        "blocker",
    ) {
        Some(AiConsistencySeverity::Blocker)
    } else if crate::text::eq_str(label, "严重") || crate::text::eq_str(label, "重要") || crate::text::eq_str(label, "MAJOR") || crate::text::eq_str(
        label,
        "major",
    ) {
        Some(AiConsistencySeverity::Major)
    } else if crate::text::eq_str(label, "一般") || crate::text::eq_str(label, "MINOR") || crate::text::eq_str(label, "minor") {
        Some(AiConsistencySeverity::Minor)
    } else if crate::text::eq_str(label, "提示") || crate::text::eq_str(label, "建议") || crate::text::eq_str(label, "INFO") || crate::text::eq_str(
        label,
        "info",
    ) {
        Some(AiConsistencySeverity::Info)
    } else {
        None
    }
}

/// A finding line: `[label]` with a known severity, then the body.
pub open spec fn finding_line(line: Seq<char>) -> Option<(AiConsistencySeverity, Seq<char>)> {
    if line.len() == 0 || line[0] != '[' {
        None
    } else {
        let rest = line.skip(1);
        match crate::planning::blocks::first_index_of(rest, ']') {
            None => None,
            Some(e) => match severity_of(trim(rest.take(e))) {
                None => None,
                Some(sev) => Some((sev, trim(strip_colons(trim(rest.skip(e + 1)))))),
            },
        }
    }
}

/// `parse_consistency_finding_line`.
pub fn parse_consistency_finding_line(line: &Vec<char>) -> (r: Option<(AiConsistencySeverity, Vec<char>)>)
    ensures
        match r {
            Some((sev, body)) => finding_line(line@) == Some((sev, body@)),
            None => finding_line(line@) is None,
        },
{
    if line.len() == 0 || line[0] != '[' {
        return None;
    }
    let rest = slice_chars(line, 1, line.len());
    assert(rest@ =~= line@.skip(1));
    let e = match crate::planning::blocks::first_index_of_exec(&rest, ']') {
        Some(e) => e,
        None => return None,
    };
    let label_raw = slice_chars(&rest, 0, e);
    assert(label_raw@ =~= rest@.take(e as int));
    let label = trim_chars(&label_raw);
    let sev = match severity_of_exec(&label) {
        Some(s) => s,
        None => return None,
    };
    let after = slice_chars(&rest, e + 1, rest.len());
    assert(after@ =~= rest@.skip(e + 1));
    let body = trim_chars(&strip_colons_of(&trim_chars(&after)));
    Some((sev, body))
}

/// The pieces of `s` between occurrences of `c`, after the partial piece `cur`.
pub open spec fn split_from(s: Seq<char>, c: char, cur: Seq<char>) -> Seq<Seq<char>>
    decreases s.len(),
{
    if s.len() == 0 {
        seq![cur]
    } else if s[0] == c {
        seq![cur] + split_from(s.drop_first(), c, seq![])
    } else {
        split_from(s.drop_first(), c, cur.push(s[0]))
    }
}

/// `str::split` on a character.
pub open spec fn split_on(s: Seq<char>, c: char) -> Seq<Seq<char>> {
    split_from(s, c, seq![])
}

/// The fields of a finding body: split at `｜` (or `|`), each trimmed; a body
/// without separators is one field, or none when blank.
pub open spec fn finding_parts(body: Seq<char>) -> Seq<Seq<char>> {
    if body.contains('｜') {
        split_on(body, '｜').map_values(|p: Seq<char>| trim(p))
    } else if body.contains('|') {
        split_on(body, '|').map_values(|p: Seq<char>| trim(p))
    } else if trim(body).len() == 0 {
        seq![]
    } else {
        seq![trim(body)]
    }
}

fn split_trimmed(v: &Vec<char>, c: char) -> (r: Vec<Vec<char>>)
    ensures
        views_of(r@) == split_on(v@, c).map_values(|p: Seq<char>| trim(p)),
{
    let n = v.len();
    let mut raw: Vec<Vec<char>> = Vec::new();
    let mut cur: Vec<char> = Vec::new();
    let mut i: usize = 0;
    assert(v@.subrange(0, n as int) =~= v@);
    assert(views_of(raw@) =~= Seq::<Seq<char>>::empty());
    while i < n
        invariant
            i <= n == v.len(),
            split_on(v@, c) == views_of(raw@) + split_from(v@.subrange(i as int, n as int), c, cur@),
        decreases n - i,
    {
        let ghost rest = v@.subrange(i as int, n as int);
        assert(rest.drop_first() =~= v@.subrange(i + 1, n as int));
        if v[i] == c {
            let ghost before = views_of(raw@);
            let piece = cur;
            raw.push(piece);
            assert(views_of(raw@) =~= before.push(raw@.last()@));
            cur = Vec::new();
            assert(cur@ =~= Seq::<char>::empty());
            assert(before + (seq![raw@.last()@] + split_from(v@.subrange(i + 1, n as int), c, seq![]))
                =~= views_of(raw@) + split_from(v@.subrange(i + 1, n as int), c, seq![]));
        } else {
            cur.push(v[i]);
        }
        i = i + 1;
    }
    let ghost before = views_of(raw@);
    raw.push(cur);
    assert(views_of(raw@) =~= before.push(raw@.last()@));
    assert(split_on(v@, c) =~= views_of(raw@));
    let mut out: Vec<Vec<char>> = Vec::new();
    let mut k: usize = 0;
    while k < raw.len()
        invariant
            k <= raw.len(),
            out.len() == k,
            forall|j: int| 0 <= j < k ==> #[trigger] out@[j]@ == trim(raw@[j]@),
        decreases raw.len() - k,
    {
        out.push(trim_chars(&raw[k]));
        k = k + 1;
    }
    assert(views_of(out@) =~= views_of(raw@).map_values(|p: Seq<char>| trim(p)));
    out
}

fn contains_char(v: &Vec<char>, c: char) -> (r: bool)
    ensures
        r == v@.contains(c),
{
    let mut i: usize = 0;
    while i < v.len()
        invariant
            i <= v.len(),
            forall|j: int| 0 <= j < i ==> v@[j] != c,
        decreases v.len() - i,
    {
        if v[i] == c {
            assert(v@[i as int] == c);
            return true;
        }
        i = i + 1;
    }
    false
}

/// `split_consistency_finding`.
pub fn split_consistency_finding(body: &Vec<char>) -> (r: Vec<Vec<char>>)
    ensures
        views_of(r@) == finding_parts(body@),
{
    if contains_char(body, '｜') {
        split_trimmed(body, '｜')
    } else if contains_char(body, '|') {
        split_trimmed(body, '|')
    } else if is_blank(body) {
        let r: Vec<Vec<char>> = Vec::new();
        assert(views_of(r@) =~= finding_parts(body@));
        r
    } else {
        let mut r: Vec<Vec<char>> = Vec::new();
        r.push(trim_chars(body));
        assert(views_of(r@) =~= finding_parts(body@));
        r
    }
}

/// A finding as values: severity, problem, evidence and suggestion.
pub type FindingView = (AiConsistencySeverity, Seq<char>, Seq<char>, Seq<char>);

/// The view of a finding.
pub open spec fn finding_view(f: AiConsistencyFinding) -> FindingView {
    (f.severity, f.problem@, f.evidence@, f.suggestion@)
}

/// The views of findings.
pub open spec fn findings_view(v: Seq<AiConsistencyFinding>) -> Seq<FindingView> {
    v.map_values(|f: AiConsistencyFinding| finding_view(f))
}

/// The state of a report read line by line: summary, findings, warnings.
pub type ReportState = (Option<Seq<char>>, Seq<FindingView>, Seq<Seq<char>>);

/// A report line with surrounding space and leading bullets removed.
pub open spec fn clean_line(raw: Seq<char>) -> Seq<char> {
    trim(strip_bullets(trim(raw)))
}

/// The summary taken from a plain line: the verdict heading removed.
pub open spec fn summary_of(line: Seq<char>) -> Seq<char> {
    strip_repeated(strip_repeated(line, "审核结论："@), "审核结论:"@)
}

/// One line of a consistency review.
pub open spec fn report_step(st: ReportState, raw: Seq<char>) -> ReportState {
    let line = clean_line(raw);
    if line.len() == 0 {
        st
    } else {
        match finding_line(line) {
            None => if st.0 is None {
                (Some(summary_of(line)), st.1, st.2)
            } else {
                st
            },
            Some((sev, body)) => {
                let parts = finding_parts(body);
                if parts.len() == 0 {
                    (st.0, st.1, st.2.push("忽略缺少问题内容的审核行："@ + line))
                } else {
                    let w = if parts.len() < 3 {
                        st.2.push("问题缺少“依据｜建议”字段："@ + parts[0])
                    } else {
                        st.2
                    };
                    let evidence = if parts.len() > 1 {
                        parts[1]
                    } else {
                        seq![]
                    };
                    let suggestion = if parts.len() > 2 {
                        join(parts.skip(2), "｜"@)
                    } else {
                        seq![]
                    };
                    (st.0, st.1.push((sev, parts[0], evidence, suggestion)), w)
                }
            },
        }
    }
}

pub open spec fn report_fold(ls: Seq<Seq<char>>) -> ReportState
    decreases ls.len(),
{
    if ls.len() == 0 {
        (None, seq![], seq![])
    } else {
        report_step(report_fold(ls.drop_last()), ls.last())
    }
}

/// The first non-blank line, trimmed.
pub open spec fn first_nonblank(ls: Seq<Seq<char>>) -> Option<Seq<char>>
    decreases ls.len(),
{
    if ls.len() == 0 {
        None
    } else if trim(ls[0]).len() > 0 {
        Some(trim(ls[0]))
    } else {
        first_nonblank(ls.drop_first())
    }
}

/// The verdict from the findings and the summary.
pub open spec fn verdict_of(findings: Seq<FindingView>, summary: Option<Seq<char>>) -> AiConsistencyVerdict {
    if exists|i: int| 0 <= i < findings.len() && (#[trigger] findings[i]).0 == AiConsistencySeverity::Blocker {
        AiConsistencyVerdict::Blocked
    } else if findings.len() > 0 {
        AiConsistencyVerdict::Review
    } else if match summary {
        Some(s) => contains(s, "未发现冲突"@) || contains(s, "通过"@),
        None => false,
    } {
        AiConsistencyVerdict::Pass
    } else {
        AiConsistencyVerdict::Unparsed
    }
}

/// A consistency review read from its line format: one finding per
/// `[severity] problem｜evidence｜suggestion` line, the first other line as
/// summary, the verdict from the findings; a review that asks for input is
/// reported as such.
pub open spec fn line_report(text: Seq<char>) -> (AiConsistencyVerdict, Seq<char>, Seq<FindingView>, Seq<Seq<char>>) {
    let t = trim(text);
    if contains(t, needs_input_marker()) {
        (
            AiConsistencyVerdict::NeedsInput,
            match first_nonblank(lines(t)) {
                Some(l) => l,
                None => "正式设定不足，无法判断生成准入。"@,
            },
            seq![],
            seq![],
        )
    } else {
        let st = report_fold(lines(t));
        (
            verdict_of(st.1, st.0),
            match st.0 {
                Some(s) => s,
                None => "审核报告未提供明确结论。"@,
            },
            st.1,
            st.2,
        )
    }
}

/// The view of a report.
pub open spec fn report_view(r: AiConsistencyReport) -> (AiConsistencyVerdict, Seq<char>, Seq<FindingView>, Seq<Seq<char>>) {
    (
        r.verdict,
        r.summary@,
        findings_view(r.findings@),
        r.parse_warnings@.map_values(|s: String| s@),
    )
}

fn first_report_line_of(ls: &Vec<Vec<char>>) -> (r: Option<Vec<char>>)
    ensures
        match r {
            Some(l) => first_nonblank(views_of(ls@)) == Some(l@),
            None => first_nonblank(views_of(ls@)) is None,
        },
{
    let mut i: usize = 0;
    assert(views_of(ls@).skip(0) =~= views_of(ls@));
    while i < ls.len()
        invariant
            i <= ls.len(),
            first_nonblank(views_of(ls@)) == first_nonblank(views_of(ls@).skip(i as int)),
        decreases ls.len() - i,
    {
        let ghost rest = views_of(ls@).skip(i as int);
        assert(rest[0] == ls@[i as int]@);
        assert(rest.drop_first() =~= views_of(ls@).skip(i + 1));
        let t = trim_chars(&ls[i]);
        if t.len() > 0 {
            return Some(t);
        }
        i = i + 1;
    }
    assert(views_of(ls@).skip(i as int) =~= Seq::<Seq<char>>::empty());
    None
}

/// `first_report_line`: the first non-blank line of a text, trimmed.
pub fn first_report_line(output_text: &str) -> (r: Option<String>)
    ensures
        match r {
            Some(l) => first_nonblank(lines(output_text@)) == Some(l@),
            None => first_nonblank(lines(output_text@)) is None,
        },
{
    let ls = lines_of(&chars_of(output_text));
    match first_report_line_of(&ls) {
        Some(l) => Some(string_of(&l)),
        None => None,
    }
}

fn join_tail(parts: &Vec<Vec<char>>, start: usize, sep: &str) -> (r: Vec<char>)
    requires
        start <= parts.len(),
    ensures
        r@ == join(views_of(parts@).skip(start as int), sep@),
{
    let mut rest: Vec<Vec<char>> = Vec::new();
    let mut k: usize = start;
    assert(views_of(rest@) =~= views_of(parts@).subrange(start as int, start as int));
    while k < parts.len()
        invariant
            start <= k <= parts.len(),
            views_of(rest@) == views_of(parts@).subrange(start as int, k as int),
        decreases parts.len() - k,
    {
        let piece = slice_chars(&parts[k], 0, parts[k].len());
        assert(piece@ == views_of(parts@)[k as int]);
        let ghost before = views_of(rest@);
        rest.push(piece);
        assert(views_of(rest@) =~= before.push(piece@));
        assert(views_of(parts@).subrange(start as int, k + 1) =~= views_of(parts@).subrange(
            start as int,
            k as int,
        ).push(views_of(parts@)[k as int]));
        k = k + 1;
    }
    assert(views_of(parts@).subrange(start as int, parts.len() as int) =~= views_of(parts@).skip(
        start as int,
    ));
    join_chars(&rest, sep)
}

fn has_blocker(findings: &Vec<AiConsistencyFinding>) -> (r: bool)
    ensures
        r == exists|i: int|
            0 <= i < findings.len() && (#[trigger] findings_view(findings@)[i]).0 == AiConsistencySeverity::Blocker,
{
    let ghost fv = findings_view(findings@);
    let mut i: usize = 0;
    while i < findings.len()
        invariant
            i <= findings.len(),
            fv == findings_view(findings@),
            forall|j: int| 0 <= j < i ==> (#[trigger] fv[j]).0 != AiConsistencySeverity::Blocker,
        decreases findings.len() - i,
    {
        if findings[i].severity == AiConsistencySeverity::Blocker {
            assert(fv[i as int].0 == AiConsistencySeverity::Blocker);
            return true;
        }
        i = i + 1;
    }
    false
}

/// Reads a consistency review written in the line format. A review given as
/// a JSON object in the report's own shape is not read here: decoding that
/// object into a report is a serde decode, which stands outside this library
/// and is tried before this.
pub fn parse_consistency_report(output_text: &str) -> (r: AiConsistencyReport)
    ensures
        report_view(r) == line_report(output_text@),
{
    let t = trim_chars(&chars_of(output_text));
    let ls = lines_of(&t);
    if contains_str(&t, "[上下文不足]") {
        let summary = match first_report_line_of(&ls) {
            Some(l) => string_of(&l),
            None => String::from_str("正式设定不足，无法判断生成准入。"),
        };
        let r = AiConsistencyReport {
            verdict: AiConsistencyVerdict::NeedsInput,
            summary,
            findings: Vec::new(),
            parse_warnings: Vec::new(),
        };
        assert(report_view(r) =~= line_report(output_text@));
        return r;
    }
    let mut has_summary = false;
    let mut summary: Vec<char> = Vec::new();
    let mut findings: Vec<AiConsistencyFinding> = Vec::new();
    let mut warnings: Vec<String> = Vec::new();
    let mut i: usize = 0;
    assert(views_of(ls@).take(0) =~= Seq::<Seq<char>>::empty());
    assert(findings_view(findings@) =~= Seq::<FindingView>::empty());
    assert(warnings@.map_values(|s: String| s@) =~= Seq::<Seq<char>>::empty());
    while i < ls.len()
        invariant
            i <= ls.len(),
            (
                if has_summary {
                    Some(summary@)
                } else {
                    None
                },
                findings_view(findings@),
                warnings@.map_values(|s: String| s@),
            ) == report_fold(views_of(ls@).take(i as int)),
        decreases ls.len() - i,
    {
        let ghost pre = views_of(ls@).take(i + 1);
        assert(pre.drop_last() =~= views_of(ls@).take(i as int));
        assert(pre.last() == ls@[i as int]@);
        let line = trim_chars(&strip_bullets_of(&trim_chars(&ls[i])));
        let ghost st0 = report_fold(views_of(ls@).take(i as int));
        assert(line@ == clean_line(ls@[i as int]@));
        if line.len() > 0 {
            match parse_consistency_finding_line(&line) {
                None => {
                    if !has_summary {
                        let a = strip_repeated_of(&line, "审核结论：");
                        summary = strip_repeated_of(&a, "审核结论:");
                        has_summary = true;
                    }
                },
                Some((sev, body)) => {
                    let parts = split_consistency_finding(&body);
                    if parts.len() == 0 {
                        let mut w = chars_of("忽略缺少问题内容的审核行：");
                        extend_chars(&mut w, &line);
                        let ghost before = warnings@.map_values(|s: String| s@);
                        warnings.push(string_of(&w));
                        assert(warnings@.map_values(|s: String| s@) =~= before.push(w@));
                    } else {
                        if parts.len() < 3 {
                            let mut w = chars_of("问题缺少“依据｜建议”字段：");
                            extend_chars(&mut w, &parts[0]);
                            let ghost before = warnings@.map_values(|s: String| s@);
                            warnings.push(string_of(&w));
                            assert(warnings@.map_values(|s: String| s@) =~= before.push(w@));
                        }
                        let evidence = if parts.len() > 1 {
                            slice_chars(&parts[1], 0, parts[1].len())
                        } else {
                            Vec::new()
                        };
                        let suggestion = if parts.len() > 2 {
                            join_tail(&parts, 2, "｜")
                        } else {
                            Vec::new()
                        };
                        let f = AiConsistencyFinding {
                            severity: sev,
                            problem: string_of(&parts[0]),
                            evidence: string_of(&evidence),
                            suggestion: string_of(&suggestion),
                        };
                        let ghost pv = views_of(parts@);
                        assert(f.problem@ == pv[0]);
                        assert(f.evidence@ == (if pv.len() > 1 { pv[1] } else { Seq::<char>::empty() }));
                        assert(f.suggestion@ == (if pv.len() > 2 { join(pv.skip(2), "｜"@) } else { Seq::<char>::empty() }));
                        let ghost before = findings_view(findings@);
                        findings.push(f);
                        assert(findings_view(findings@) =~= before.push(finding_view(f)));
                        assert(findings_view(findings@) == report_step(st0, ls@[i as int]@).1);
                        assert(warnings@.map_values(|s: String| s@) == report_step(st0, ls@[i as int]@).2);
                    }
                },
            }
        }
        i = i + 1;
    }
    assert(views_of(ls@).take(ls.len() as int) =~= views_of(ls@));
    let blocked = has_blocker(&findings);
    let verdict = if blocked {
        AiConsistencyVerdict::Blocked
    } else if findings.len() > 0 {
        AiConsistencyVerdict::Review
    } else if has_summary && (contains_str(&summary, "未发现冲突") || contains_str(&summary, "通过")) {
        AiConsistencyVerdict::Pass
    } else {
        AiConsistencyVerdict::Unparsed
    };
    let summary_text = if has_summary {
        string_of(&summary)
    } else {
        String::from_str("审核报告未提供明确结论。")
    };
    let r = AiConsistencyReport { verdict, summary: summary_text, findings, parse_warnings: warnings };
    assert(report_view(r) =~= line_report(output_text@));
    r
}

/// `note` keeps what was noted and may add one more message.
proof fn lemma_note_keeps(ms: Seq<Seq<char>>, c: bool, m: Seq<char>, x: Seq<char>)
    ensures
        ms.contains(x) ==> note(ms, c, m).contains(x),
        c ==> note(ms, c, m).contains(m),
        note(ms, c, m).len() >= ms.len(),
{
    if c && ms.contains(x) {
        let k = choose|k: int| 0 <= k < ms.len() && ms[k] == x;
        assert(ms.push(m)[k] == x);
    }
    if c {
        assert(ms.push(m)[ms.len() as int] == m);
    }
}

/// An output that does not ask for input, is not empty and holds a Markdown
/// code fence is a warning, and its messages name the code fence.
pub proof fn code_fences_are_warned_about(action: AiAction, t: Seq<char>)
    requires
        !contains(t, needs_input_marker()),
        t.len() > 0,
        contains(t, "```"@),
    ensures
        output_status(action, t) == "WARNING"@,
        output_messages(action, t).contains("正文候选包含 Markdown 代码围栏，应用前建议清理。"@),
{
    let fence = "正文候选包含 Markdown 代码围栏，应用前建议清理。"@;
    let m0 = note(seq![], t.len() < 20, "输出明显过短，建议检查是否被模型提前截断。"@);
    let m1 = note(m0, paragraph_count(lines(t)) == 0, "输出没有可识别的段落结构。"@);
    let m2 = note(m1, contains(t, "```"@), fence);
    let m3 = note(m2, chatty_opening(t), "输出开头包含对话式说明，可能混入了模型元话语。"@);
    let m4 = note(m3, unfinished_ending(t), "输出结尾像未完成内容，建议续写或重新生成。"@);
    lemma_note_keeps(m1, contains(t, "```"@), fence, fence);
    lemma_note_keeps(m2, chatty_opening(t), "输出开头包含对话式说明，可能混入了模型元话语。"@, fence);
    lemma_note_keeps(m3, unfinished_ending(t), "输出结尾像未完成内容，建议续写或重新生成。"@, fence);
    lemma_note_keeps(
        m4,
        json_shaped(t) && action != AiAction::Summarize,
        "正文候选看起来是 JSON 结构，与应用合同不一致。"@,
        fence,
    );
    assert(output_warnings(action, t).contains(fence));
    assert(output_warnings(action, t).len() > 0);
}

/// A review that lists findings is never a pass: it is blocked when a
/// finding blocks, and otherwise it needs review.
pub proof fn findings_decide_the_verdict(text: Seq<char>)
    ensures
        line_report(text).2.len() > 0 ==> line_report(text).0 != AiConsistencyVerdict::Pass,
        line_report(text).2.len() > 0 && (exists|i: int|
            0 <= i < line_report(text).2.len() && (#[trigger] line_report(text).2[i]).0 == AiConsistencySeverity::Blocker)
            ==> line_report(text).0 == AiConsistencyVerdict::Blocked,
        line_report(text).2.len() > 0 && !(exists|i: int|
            0 <= i < line_report(text).2.len() && (#[trigger] line_report(text).2[i]).0 == AiConsistencySeverity::Blocker)
            ==> line_report(text).0 == AiConsistencyVerdict::Review,
{
}

/// For an output that does not ask for input and is not empty: each problem
/// found is named by its message, and the output is valid exactly when none
/// of them is found (shorter than twenty characters, no paragraph, a code
/// fence, a chat-like opening, an unfinished ending, or a JSON shape where
/// no summary was asked for).
pub proof fn output_problems_are_named(action: AiAction, t: Seq<char>)
    requires
        !contains(t, needs_input_marker()),
        t.len() > 0,
    ensures
        t.len() < 20 ==> output_messages(action, t).contains("输出明显过短，建议检查是否被模型提前截断。"@),
        paragraph_count(lines(t)) == 0 ==> output_messages(action, t).contains("输出没有可识别的段落结构。"@),
        chatty_opening(t) ==> output_messages(action, t).contains("输出开头包含对话式说明，可能混入了模型元话语。"@),
        unfinished_ending(t) ==> output_messages(action, t).contains("输出结尾像未完成内容，建议续写或重新生成。"@),
        json_shaped(t) && action != AiAction::Summarize ==> output_messages(action, t).contains(
            "正文候选看起来是 JSON 结构，与应用合同不一致。"@,
        ),
        (output_status(action, t) == "VALID"@) == !(t.len() < 20 || paragraph_count(lines(t)) == 0 || contains(
            t,
            "```"@,
        ) || chatty_opening(t) || unfinished_ending(t) || (json_shaped(t) && action != AiAction::Summarize)),
        output_status(action, t) == "VALID"@ || output_status(action, t) == "WARNING"@,
{
    let w0 = "输出明显过短，建议检查是否被模型提前截断。"@;
    let w1 = "输出没有可识别的段落结构。"@;
    let w2 = "正文候选包含 Markdown 代码围栏，应用前建议清理。"@;
    let w3 = "输出开头包含对话式说明，可能混入了模型元话语。"@;
    let w4 = "输出结尾像未完成内容，建议续写或重新生成。"@;
    let w5 = "正文候选看起来是 JSON 结构，与应用合同不一致。"@;
    let c0 = t.len() < 20;
    let c1 = paragraph_count(lines(t)) == 0;
    let c2 = contains(t, "```"@);
    let c3 = chatty_opening(t);
    let c4 = unfinished_ending(t);
    let c5 = json_shaped(t) && action != AiAction::Summarize;
    let m0 = note(seq![], c0, w0);
    let m1 = note(m0, c1, w1);
    let m2 = note(m1, c2, w2);
    let m3 = note(m2, c3, w3);
    let m4 = note(m3, c4, w4);
    let m5 = note(m4, c5, w5);
    assert(m5 == output_warnings(action, t));
    lemma_note_keeps(seq![], c0, w0, w0);
    lemma_note_keeps(m0, c1, w1, w0);
    lemma_note_keeps(m1, c2, w2, w0);
    lemma_note_keeps(m2, c3, w3, w0);
    lemma_note_keeps(m3, c4, w4, w0);
    lemma_note_keeps(m4, c5, w5, w0);
    lemma_note_keeps(m0, c1, w1, w1);
    lemma_note_keeps(m1, c2, w2, w1);
    lemma_note_keeps(m2, c3, w3, w1);
    lemma_note_keeps(m3, c4, w4, w1);
    lemma_note_keeps(m4, c5, w5, w1);
    lemma_note_keeps(m2, c3, w3, w3);
    lemma_note_keeps(m3, c4, w4, w3);
    lemma_note_keeps(m4, c5, w5, w3);
    lemma_note_keeps(m3, c4, w4, w4);
    lemma_note_keeps(m4, c5, w5, w4);
    lemma_note_keeps(m4, c5, w5, w5);
    lemma_note_keeps(m1, c2, w2, w2);
    lemma_note_keeps(m2, c3, w3, w2);
    lemma_note_keeps(m3, c4, w4, w2);
    lemma_note_keeps(m4, c5, w5, w2);
    reveal_strlit("VALID");
    reveal_strlit("WARNING");
    assert("VALID"@.len() == 5);
    assert("WARNING"@.len() == 7);
}

/// A review without findings that does not ask for input passes when its
/// summary says it passed or found no conflict, and is unparsed otherwise;
/// a review that asks for input has no findings.
pub proof fn verdict_without_findings(text: Seq<char>)
    ensures
        contains(trim(text), needs_input_marker()) ==> line_report(text).0 == AiConsistencyVerdict::NeedsInput
            && line_report(text).2.len() == 0,
        !contains(trim(text), needs_input_marker()) && line_report(text).2.len() == 0 ==> (line_report(text).0
            == AiConsistencyVerdict::Pass || line_report(text).0 == AiConsistencyVerdict::Unparsed),
        !contains(trim(text), needs_input_marker()) && line_report(text).2.len() == 0 && (contains(
            line_report(text).1,
            "通过"@,
        ) || contains(line_report(text).1, "未发现冲突"@)) && report_fold(lines(trim(text))).0 is Some
            ==> line_report(text).0 == AiConsistencyVerdict::Pass,
{
}

} // verus!
