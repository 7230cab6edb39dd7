//! Turn finalization: the proposed-plan artifact of a plan-mode answer, the
//! verification verdict, and the texts a finished, cancelled or exhausted
//! turn leaves behind.

use vstd::prelude::*;

use crate::text::{
    byte_len, byte_len_chars, chars_of, eq_ignore_ascii_case, eq_ignore_ascii_case_chars, is_ws,
    json_value_string, json_string_literal, lemma_byte_len_concat, slice_chars, string_of,
    trim, trim_chars,
};

verus! {

/// `needle` occurs in `hay` at `i`, ignoring ASCII case.
pub open spec fn ci_match_at(hay: Seq<char>, needle: Seq<char>, i: int) -> bool {
    0 <= i && i + needle.len() <= hay.len() && eq_ignore_ascii_case(
        hay.subrange(i, i + needle.len()),
        needle,
    )
}

/// The first position at or after `i` where `needle` occurs, ignoring
/// ASCII case.
pub open spec fn first_ci_match(hay: Seq<char>, needle: Seq<char>, i: int) -> Option<int>
    decreases hay.len() - i,
{
    if i < 0 || i + needle.len() > hay.len() {
        None
    } else if ci_match_at(hay, needle, i) {
        Some(i)
    } else {
        first_ci_match(hay, needle, i + 1)
    }
}

pub proof fn lemma_first_ci_match(hay: Seq<char>, needle: Seq<char>, i: int)
    requires
        0 <= i,
    ensures
        first_ci_match(hay, needle, i) matches Some(k) ==> i <= k && ci_match_at(hay, needle, k),
    decreases hay.len() - i,
{
    if i + needle.len() <= hay.len() && !ci_match_at(hay, needle, i) {
        lemma_first_ci_match(hay, needle, i + 1);
    }
}

/// Character index of the first occurrence of `needle` in `hay` at or
/// after `from`, ignoring ASCII case.
fn find_ci_chars(hay: &[char], needle: &[char], from: usize) -> (r: Option<usize>)
    requires
        from <= hay.len(),
    ensures
        match r {
            Some(k) => first_ci_match(hay@, needle@, from as int) == Some(k as int),
            None => first_ci_match(hay@, needle@, from as int) is None,
        },
{
    if needle.len() > hay.len() {
        return None;
    }
    let last = hay.len() - needle.len();
    let mut i: usize = from;
    while i <= last
        invariant
            from <= i,
            last == hay.len() - needle.len(),
            first_ci_match(hay@, needle@, from as int) == first_ci_match(hay@, needle@, i as int),
        decreases last + 1 - i,
    {
        let window = slice_chars(hay, i, i + needle.len());
        if eq_ignore_ascii_case_chars(window.as_slice(), needle) {
            return Some(i);
        }
        i = i + 1;
    }
    None
}

/// Byte offset of the first occurrence of `needle` in `haystack`, ignoring
/// ASCII case. Matching whole characters finds the same first occurrence as
/// matching bytes: a match of a UTF-8 needle starts on a character boundary.
pub fn find_ascii_case_insensitive(haystack: &str, needle: &str) -> (r: Option<usize>)
    requires
        needle@.len() > 0,
    ensures
        match first_ci_match(haystack@, needle@, 0) {
            Some(i) => r == Some(byte_len(haystack@.take(i)) as usize),
            None => r is None,
        },
{
    let hay = chars_of(haystack);
    let pattern = chars_of(needle);
    match find_ci_chars(hay.as_slice(), pattern.as_slice(), 0) {
        Some(i) => {
            proof {
                lemma_first_ci_match(haystack@, needle@, 0);
                crate::text::lemma_str_len_is_byte_len(haystack@);
                lemma_byte_len_concat(haystack@.take(i as int), haystack@.skip(i as int));
                assert(haystack@ =~= haystack@.take(i as int) + haystack@.skip(i as int));
            }
            let byte_count = haystack.as_bytes().len();
            assert(byte_count == byte_len(haystack@));
            let head = slice_chars(hay.as_slice(), 0, i);
            assert(head@ =~= haystack@.take(i as int));
            Some(byte_len_chars(head.as_slice()))
        },
        None => None,
    }
}

pub open spec fn plan_start_tag() -> Seq<char> {
    "<proposed_plan>"@
}

pub open spec fn plan_end_tag() -> Seq<char> {
    "</proposed_plan>"@
}

/// The trimmed text between the first `<proposed_plan>` and the first
/// `</proposed_plan>` after it (tags in any ASCII case), when not empty.
pub open spec fn proposed_plan_markdown(text: Seq<char>) -> Option<Seq<char>> {
    match first_ci_match(text, plan_start_tag(), 0) {
        None => None,
        Some(i) => {
            let start = i + plan_start_tag().len();
            match first_ci_match(text.skip(start), plan_end_tag(), 0) {
                None => None,
                Some(j) => {
                    let markdown = trim(text.subrange(start, start + j));
                    if markdown.len() == 0 {
                        None
                    } else {
                        Some(markdown)
                    }
                },
            }
        },
    }
}

/// `s` without the leading characters that satisfy `p`.
pub open spec fn strip_leading(s: Seq<char>, p: spec_fn(char) -> bool) -> Seq<char>
    decreases s.len(),
{
    if s.len() > 0 && p(s[0]) {
        strip_leading(s.drop_first(), p)
    } else {
        s
    }
}

/// `s` without the trailing characters that satisfy `p`.
pub open spec fn strip_trailing(s: Seq<char>, p: spec_fn(char) -> bool) -> Seq<char>
    decreases s.len(),
{
    if s.len() > 0 && p(s.last()) {
        strip_trailing(s.drop_last(), p)
    } else {
        s
    }
}

pub open spec fn is_numbering(c: char) -> bool {
    ('0' <= c && c <= '9') || c == '.' || c == ')' || is_ws(c)
}

pub open spec fn is_emphasis(c: char) -> bool {
    c == '*' || c == '`' || c == ':'
}

/// The title a line offers: trimmed, without leading `#`s and list
/// numbering, without `*`, `` ` `` and `:` at either end.
pub open spec fn line_title(line: Seq<char>) -> Seq<char> {
    let without_heading = trim(strip_leading(trim(line), |c: char| c == '#'));
    let without_number = trim(strip_leading(without_heading, |c: char| is_numbering(c)));
    strip_trailing(strip_leading(without_number, |c: char| is_emphasis(c)), |c: char| is_emphasis(c))
}

/// End of the line that starts at `i`.
pub open spec fn line_end(s: Seq<char>, i: int) -> int
    decreases s.len() - i,
{
    if i < 0 || i >= s.len() {
        s.len() as int
    } else if s[i] == '\n' {
        i
    } else {
        line_end(s, i + 1)
    }
}

pub proof fn lemma_line_end(s: Seq<char>, i: int)
    requires
        0 <= i <= s.len(),
    ensures
        i <= line_end(s, i) <= s.len(),
        line_end(s, i) < s.len() ==> s[line_end(s, i)] == '\n',
        forall|k: int| i <= k < line_end(s, i) ==> s[k] != '\n',
    decreases s.len() - i,
{
    if i < s.len() && s[i] != '\n' {
        lemma_line_end(s, i + 1);
    }
}

/// The first non-empty line title from the line that starts at `i` on.
pub open spec fn title_from(s: Seq<char>, i: int) -> Option<Seq<char>>
    decreases s.len() - i,
{
    if i < 0 || i > s.len() {
        None
    } else {
        let e = line_end(s, i);
        let t = line_title(s.subrange(i, e));
        if t.len() > 0 {
            Some(t)
        } else if e >= s.len() {
            None
        } else {
            proof {
                lemma_line_end(s, i);
            }
            title_from(s, e + 1)
        }
    }
}

/// The plan's title: the first line that offers one, at most 96
/// characters; "Proposed plan" when none does.
pub open spec fn plan_title(markdown: Seq<char>) -> Seq<char> {
    match title_from(markdown, 0) {
        Some(t) => if t.len() > 96 {
            t.take(96)
        } else {
            t
        },
        None => "Proposed plan"@,
    }
}

fn strip_leading_hashes(s: &[char]) -> (r: Vec<char>)
    ensures
        r@ == strip_leading(s@, |c: char| c == '#'),
{
    let mut i: usize = 0;
    assert(s@.skip(0) =~= s@);
    while i < s.len() && s[i] == '#'
        invariant
            i <= s.len(),
            strip_leading(s@, |c: char| c == '#') == strip_leading(s@.skip(i as int), |c: char| c == '#'),
        decreases s.len() - i,
    {
        assert(s@.skip(i as int).drop_first() =~= s@.skip(i + 1));
        i = i + 1;
    }
    let r = slice_chars(s, i, s.len());
    assert(r@ =~= s@.skip(i as int));
    r
}

fn strip_leading_numbering(s: &[char]) -> (r: Vec<char>)
    ensures
        r@ == strip_leading(s@, |c: char| is_numbering(c)),
{
    let mut i: usize = 0;
    assert(s@.skip(0) =~= s@);
    while i < s.len() && ((s[i] >= '0' && s[i] <= '9') || s[i] == '.' || s[i] == ')'
        || crate::text::char_is_whitespace(s[i]))
        invariant
            i <= s.len(),
            strip_leading(s@, |c: char| is_numbering(c)) == strip_leading(
                s@.skip(i as int),
                |c: char| is_numbering(c),
            ),
        decreases s.len() - i,
    {
        assert(s@.skip(i as int).drop_first() =~= s@.skip(i + 1));
        i = i + 1;
    }
    let r = slice_chars(s, i, s.len());
    assert(r@ =~= s@.skip(i as int));
    r
}

fn is_emphasis_exec(c: char) -> (b: bool)
    ensures
        b == is_emphasis(c),
{
    c == '*' || c == '`' || c == ':'
}

fn strip_emphasis(s: &[char]) -> (r: Vec<char>)
    ensures
        r@ == strip_trailing(strip_leading(s@, |c: char| is_emphasis(c)), |c: char| is_emphasis(c)),
{
    let mut i: usize = 0;
    assert(s@.skip(0) =~= s@);
    while i < s.len() && is_emphasis_exec(s[i])
        invariant
            i <= s.len(),
            strip_leading(s@, |c: char| is_emphasis(c)) == strip_leading(
                s@.skip(i as int),
                |c: char| is_emphasis(c),
            ),
        decreases s.len() - i,
    {
        assert(s@.skip(i as int).drop_first() =~= s@.skip(i + 1));
        i = i + 1;
    }
    let ghost lead = s@.skip(i as int);
    let mut j: usize = s.len();
    assert(lead.take(lead.len() as int) =~= lead);
    while j > i && is_emphasis_exec(s[j - 1])
        invariant
            i <= j <= s.len(),
            lead == s@.skip(i as int),
            strip_trailing(lead, |c: char| is_emphasis(c)) == strip_trailing(
                lead.take(j - i),
                |c: char| is_emphasis(c),
            ),
        decreases j,
    {
        assert(lead.take(j - i).last() == s@[j - 1]);
        assert(lead.take(j - i).drop_last() =~= lead.take(j - 1 - i));
        j = j - 1;
    }
    let r = slice_chars(s, i, j);
    assert(r@ =~= lead.take(j - i));
    r
}

fn line_title_exec(line: &[char]) -> (t: Vec<char>)
    ensures
        t@ == line_title(line@),
{
    let trimmed = trim_chars(line);
    let hashes = strip_leading_hashes(trimmed.as_slice());
    let without_heading = trim_chars(hashes.as_slice());
    let numbering = strip_leading_numbering(without_heading.as_slice());
    let without_number = trim_chars(numbering.as_slice());
    strip_emphasis(without_number.as_slice())
}

/// The title of a proposed plan.
pub fn proposed_plan_title(markdown: &str) -> (t: String)
    ensures
        t@ == plan_title(markdown@),
{
    let s = chars_of(markdown);
    let mut i: usize = 0;
    while i <= s.len()
        invariant
            s@ == markdown@,
            i <= s.len(),
            title_from(s@, 0) == title_from(s@, i as int),
        decreases s.len() + 1 - i,
    {
        let mut e: usize = i;
        while e < s.len() && s[e] != '\n'
            invariant
                i <= e <= s.len(),
                line_end(s@, i as int) == line_end(s@, e as int),
            decreases s.len() - e,
        {
            e = e + 1;
        }
        let line = slice_chars(s.as_slice(), i, e);
        let title = line_title_exec(line.as_slice());
        if title.len() > 0 {
            if title.len() > 96 {
                let short = slice_chars(title.as_slice(), 0, 96);
                assert(short@ =~= title@.take(96));
                return string_of(short.as_slice());
            }
            return string_of(title.as_slice());
        }
        if e >= s.len() {
            let mut r = String::new();
            r.append("Proposed plan");
            return r;
        }
        i = e + 1;
    }
    let mut r = String::new();
    r.append("Proposed plan");
    r
}

/// A plan-mode answer's plan, ready to be shown for approval.
#[derive(Debug, Clone, PartialEq, Eq)]
pub struct ProposedPlan {
    pub title: String,
    pub markdown: String,
}

impl ProposedPlan {
    pub open spec fn json_text(self) -> Seq<char> {
        "{\"kind\":\"proposedPlan\",\"markdown\":"@ + json_string_literal(self.markdown@)
            + ",\"mode\":\"plan\",\"title\":"@ + json_string_literal(self.title@)
            + ",\"version\":1}"@
    }

    /// The plan's artifact as compact JSON, keys in order.
    pub fn to_json_text(&self) -> (s: String)
        ensures
            s@ == self.json_text(),
    {
        let mut s = String::new();
        s.append("{\"kind\":\"proposedPlan\",\"markdown\":");
        let markdown = json_value_string(self.markdown.as_str());
        s.append(markdown.as_str());
        s.append(",\"mode\":\"plan\",\"title\":");
        let title = json_value_string(self.title.as_str());
        s.append(title.as_str());
        s.append(",\"version\":1}");
        s
    }
}

/// The proposed plan in a plan-mode answer, if it holds one.
pub fn extract_proposed_plan_artifact(final_text: &str) -> (r: Option<ProposedPlan>)
    ensures
        match proposed_plan_markdown(final_text@) {
            Some(markdown) => r matches Some(p) && p.markdown@ == markdown && p.title@ == plan_title(
                markdown,
            ),
            None => r is None,
        },
{
    let text = chars_of(final_text);
    let start_tag = chars_of("<proposed_plan>");
    let end_tag = chars_of("</proposed_plan>");
    let i = match find_ci_chars(text.as_slice(), start_tag.as_slice(), 0) {
        Some(i) => i,
        None => {
            return None;
        },
    };
    proof {
        lemma_first_ci_match(text@, start_tag@, 0);
    }
    let start = i + start_tag.len();
    let rest = slice_chars(text.as_slice(), start, text.len());
    assert(rest@ =~= text@.skip(start as int));
    let j = match find_ci_chars(rest.as_slice(), end_tag.as_slice(), 0) {
        Some(j) => j,
        None => {
            return None;
        },
    };
    proof {
        lemma_first_ci_match(rest@, end_tag@, 0);
    }
    let body = slice_chars(text.as_slice(), start, start + j);
    let markdown = trim_chars(body.as_slice());
    if markdown.len() == 0 {
        return None;
    }
    let markdown_text = string_of(markdown.as_slice());
    let title = proposed_plan_title(markdown_text.as_str());
    Some(ProposedPlan { title, markdown: markdown_text })
}

pub open spec fn opt_str(o: Option<&str>) -> Option<Seq<char>> {
    match o {
        Some(s) => Some(s@),
        None => None,
    }
}

fn is_status(status: Option<&str>, expected: &str) -> (b: bool)
    ensures
        b == (opt_str(status) == Some(expected@)),
{
    match status {
        Some(s) => {
            let a = chars_of(s);
            let e = chars_of(expected);
            crate::text::chars_eq(a.as_slice(), e.as_slice())
        },
        None => false,
    }
}

/// A verification artifact counts as passed only with status `passed`;
/// `overall_status` is its `overallStatus` field when that is a string.
pub fn verification_artifact_passed(overall_status: Option<&str>) -> (b: bool)
    ensures
        b == (opt_str(overall_status) == Some("passed"@)),
{
    is_status(overall_status, "passed")
}

/// The tone of a verification artifact's status line.
pub fn verification_artifact_tone(overall_status: Option<&str>) -> (s: &'static str)
    ensures
        s@ == if opt_str(overall_status) == Some("failed"@) {
            "error"@
        } else if opt_str(overall_status) == Some("passed"@) {
            "info"@
        } else {
            "warning"@
        },
{
    if is_status(overall_status, "failed") {
        "error"
    } else if is_status(overall_status, "passed") {
        "info"
    } else {
        "warning"
    }
}

/// The trace line of the final verification.
pub fn verification_trace_status(plan_mode: bool, overall_status: Option<&str>) -> (s: String)
    ensures
        s@ == if plan_mode {
            "Plan mode audit: read-only planning turn passed."@
        } else {
            "Evidence audit: "@ + (match opt_str(overall_status) {
                Some(t) => t,
                None => "pending"@,
            }) + "."@
        },
{
    let mut s = String::new();
    if plan_mode {
        s.append("Plan mode audit: read-only planning turn passed.");
        return s;
    }
    s.append("Evidence audit: ");
    match overall_status {
        Some(t) => s.append(t),
        None => s.append("pending"),
    }
    s.append(".");
    s
}

/// The answer only repeats the reasoning: no answer delta was streamed and
/// the trimmed answer equals the non-blank trimmed reasoning.
pub fn reasoning_was_promoted(answer_delta_seen: bool, final_text: &str, reasoning: Option<&str>) -> (b: bool)
    ensures
        b == (!answer_delta_seen && match opt_str(reasoning) {
            Some(r) => trim(r).len() > 0 && trim(final_text@) == trim(r),
            None => false,
        }),
{
    if answer_delta_seen {
        return false;
    }
    match reasoning {
        Some(r) => {
            let rc = chars_of(r);
            let rt = trim_chars(rc.as_slice());
            let ac = chars_of(final_text);
            let at = trim_chars(ac.as_slice());
            rt.len() > 0 && crate::text::chars_eq(at.as_slice(), rt.as_slice())
        },
        None => false,
    }
}

pub const CANCELLED_NOTE: &'static str = "\n\n*[Request cancelled by user]*";

pub const MAX_ITERATIONS_NOTE: &'static str = "\n\n*[Note: I used all available tool calls. The answer above may be incomplete.]*";

/// The final text of a cancelled turn: what was streamed, with a note, or a
/// plain notice when nothing was.
pub fn cancelled_turn_text(accumulated: &str) -> (s: String)
    ensures
        s@ == if accumulated@.len() == 0 {
            "Request cancelled by user."@
        } else {
            accumulated@ + CANCELLED_NOTE@
        },
{
    let mut s = String::new();
    if accumulated.is_empty() {
        s.append("Request cancelled by user.");
    } else {
        s.append(accumulated);
        s.append(CANCELLED_NOTE);
    }
    s
}

/// The final text of a turn that ran out of iterations: what was written,
/// with a note when there is any.
pub fn max_iterations_text(final_content: &str) -> (s: String)
    ensures
        s@ == if final_content@.len() == 0 {
            Seq::<char>::empty()
        } else {
            final_content@ + MAX_ITERATIONS_NOTE@
        },
{
    let mut s = String::new();
    if !final_content.is_empty() {
        s.append(final_content);
        s.append(MAX_ITERATIONS_NOTE);
    }
    s
}

/// The result recorded for a tool call that a cancellation interrupted.
pub fn interrupted_tool_result(tool_name: &str) -> (s: String)
    ensures
        s@ == "Error: tool '"@ + tool_name@ + "' was interrupted (cancelled by user)."@,
{
    let mut s = String::new();
    s.append("Error: tool '");
    s.append(tool_name);
    s.append("' was interrupted (cancelled by user).");
    s
}

proof fn lemma_title_from_nonempty(s: Seq<char>, i: int)
    ensures
        title_from(s, i) matches Some(t) ==> t.len() > 0,
    decreases s.len() - i,
{
    if 0 <= i <= s.len() {
        lemma_line_end(s, i);
        let e = line_end(s, i);
        if line_title(s.subrange(i, e)).len() == 0 && e < s.len() {
            lemma_title_from_nonempty(s, e + 1);
        }
    }
}

/// A proposed plan always has a title, of at most 96 characters.
pub proof fn law_plan_title_is_short_and_present(markdown: Seq<char>)
    ensures
        0 < plan_title(markdown).len() <= 96,
{
    reveal_strlit("Proposed plan");
    lemma_title_from_nonempty(markdown, 0);
}

} // verus!
