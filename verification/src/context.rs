//! Context management: budgets for the system prompt, UTF-8-safe truncation,
//! the recap of evicted turns, and the per-segment breakdown of prompt
//! tokens. Token estimates come from the model's tokenizer and are taken as
//! given numbers here.

use vstd::prelude::*;

use crate::llm::{messages_view, Message, MessageView, Role, ToolDefinition};
use crate::text::{
    byte_len, byte_len_at_most, chars_are_blank, chars_of, is_blank, join_chars, join_with,
    lemma_byte_len_concat, lemma_byte_len_push, string_of, trim, trim_chars, vec_views, width_of,
};

verus! {

pub const CHARS_PER_TOKEN_ESTIMATE: usize = 4;

pub const SYSTEM_PROMPT_CONTEXT_FRACTION: usize = 4;

pub const MIN_SYSTEM_PROMPT_CHARS: usize = 16_000;

pub const MAX_SYSTEM_PROMPT_CHARS: usize = 256_000;

pub const MIN_SKILL_PROMPT_CHARS: usize = 8_000;

pub const MAX_SKILL_PROMPT_CHARS: usize = 64_000;

pub const MAX_RECAP_CHARS: usize = 800;

/// Number of leading characters of `s` whose start offsets are within `max`
/// bytes, scanning from character `i` (the characters' start offsets taken
/// while they are at most `max`, as `char_indices().take_while(..).last()`).
pub open spec fn fitting_chars_from(s: Seq<char>, max: nat, i: nat) -> nat
    decreases s.len() - i,
{
    if i + 1 < s.len() && byte_len(s.take((i + 1) as int)) <= max {
        fitting_chars_from(s, max, i + 1)
    } else {
        i
    }
}

/// Index of the last occurrence of `c` in `s`.
pub open spec fn last_index_of(s: Seq<char>, c: char) -> Option<int>
    decreases s.len(),
{
    if s.len() == 0 {
        None
    } else if s.last() == c {
        Some(s.len() - 1)
    } else {
        last_index_of(s.drop_last(), c)
    }
}

proof fn lemma_last_index_is(s: Seq<char>, c: char, j: int)
    requires
        0 <= j < s.len(),
        s[j] == c,
        forall|l: int| j < l < s.len() ==> s[l] != c,
    ensures
        last_index_of(s, c) == Some(j),
    decreases s.len(),
{
    if s.last() != c {
        assert(j != s.len() - 1);
        assert forall|l: int| j < l < s.drop_last().len() implies s.drop_last()[l] != c by {
            assert(s.drop_last()[l] == s[l]);
        }
        lemma_last_index_is(s.drop_last(), c, j);
    } else {
        if j < s.len() - 1 {
            assert(s[s.len() - 1] != c);
        }
    }
}

proof fn lemma_last_index_absent(s: Seq<char>, c: char)
    requires
        forall|l: int| 0 <= l < s.len() ==> s[l] != c,
    ensures
        last_index_of(s, c) is None,
    decreases s.len(),
{
    if s.len() > 0 {
        assert(s[s.len() - 1] != c);
        assert forall|l: int| 0 <= l < s.drop_last().len() implies s.drop_last()[l] != c by {
            assert(s.drop_last()[l] == s[l]);
        }
        lemma_last_index_absent(s.drop_last(), c);
    }
}

proof fn lemma_byte_len_prefix_mono(s: Seq<char>, m: int, k: int)
    requires
        0 <= m <= k <= s.len(),
    ensures
        byte_len(s.take(m)) <= byte_len(s.take(k)),
{
    lemma_byte_len_concat(s.take(m), s.subrange(m, k));
    assert(s.take(k) =~= s.take(m) + s.subrange(m, k));
}

proof fn lemma_fitting_is(s: Seq<char>, max: nat, i: int, k: int)
    requires
        0 <= i <= k < s.len(),
        byte_len(s.take(k)) <= max,
        k + 1 < s.len() ==> byte_len(s.take(k + 1)) > max,
    ensures
        fitting_chars_from(s, max, i as nat) == k,
    decreases k - i,
{
    if i < k {
        lemma_byte_len_prefix_mono(s, i + 1, k);
        lemma_fitting_is(s, max, i + 1, k);
    }
}

proof fn lemma_last_index_bounds(s: Seq<char>, c: char)
    ensures
        last_index_of(s, c) matches Some(j) ==> 0 <= j < s.len(),
    decreases s.len(),
{
    if s.len() > 0 && s.last() != c {
        lemma_last_index_bounds(s.drop_last(), c);
    }
}

fn last_index(s: &[char], c: char) -> (r: Option<usize>)
    ensures
        match r {
            Some(j) => last_index_of(s@, c) == Some(j as int) && j < s.len(),
            None => last_index_of(s@, c) is None,
        },
{
    let mut k: usize = s.len();
    assert(s@.take(s.len() as int) =~= s@);
    while k > 0
        invariant
            k <= s.len(),
            last_index_of(s@, c) == last_index_of(s@.take(k as int), c),
        decreases k,
    {
        assert(s@.take(k as int).drop_last() =~= s@.take(k - 1));
        if s[k - 1] == c {
            return Some(k - 1);
        }
        k = k - 1;
    }
    None
}


/// How many leading characters of `s` start within `max` bytes.
fn fitting_chars(s: &[char], max: usize) -> (k: usize)
    ensures
        k == fitting_chars_from(s@, max as nat, 0),
        k <= s.len(),
        s.len() > 0 ==> k < s.len(),
{
    let mut i: usize = 0;
    let mut bytes: usize = 0;
    while i + 1 < s.len()
        invariant
            i < s.len() || s.len() == 0,
            i <= s.len(),
            bytes == byte_len(s@.take(i as int)),
            bytes <= max,
            fitting_chars_from(s@, max as nat, 0) == fitting_chars_from(s@, max as nat, i as nat),
        decreases s.len() - i,
    {
        let w = width_of(s[i]);
        proof {
            lemma_byte_len_push(s@.take(i as int), s@[i as int]);
            assert(s@.take(i + 1) =~= s@.take(i as int).push(s@[i as int]));
        }
        if w > max - bytes {
            return i;
        }
        bytes = bytes + w;
        i = i + 1;
    }
    i
}

/// Byte length of `s`, or `cap` when it is at least `cap`.
fn byte_len_capped(s: &[char], cap: usize) -> (n: usize)
    ensures
        n == if byte_len(s@) < cap {
            byte_len(s@)
        } else {
            cap as nat
        },
{
    if cap == 0 {
        return 0;
    }
    let mut n: usize = 0;
    let mut i: usize = 0;
    while i < s.len()
        invariant
            i <= s.len(),
            n == byte_len(s@.take(i as int)),
            n < cap,
        decreases s.len() - i,
    {
        let w = width_of(s[i]);
        proof {
            lemma_byte_len_push(s@.take(i as int), s@[i as int]);
            assert(s@.take(i + 1) =~= s@.take(i as int).push(s@[i as int]));
        }
        if w >= cap - n {
            proof {
                lemma_byte_len_concat(s@.take(i + 1), s@.skip(i + 1));
                assert(s@ =~= s@.take(i + 1) + s@.skip(i + 1));
            }
            return cap;
        }
        n = n + w;
        i = i + 1;
    }
    assert(s@.take(i as int) =~= s@);
    n
}


pub open spec fn min_nat(a: nat, b: nat) -> nat {
    if a <= b {
        a
    } else {
        b
    }
}

/// `text` cut to at most `max_chars` bytes on a character boundary, at the
/// last line break or space before the cut when there is one, with `marker`
/// appended; when not even the marker fits, the marker's first `max_chars`
/// characters.
pub open spec fn capped_text(text: Seq<char>, max_chars: nat, marker: Seq<char>) -> Seq<char> {
    if byte_len(text) <= max_chars {
        text
    } else if max_chars == 0 {
        Seq::empty()
    } else {
        let marker_budget = min_nat(byte_len(marker), max_chars);
        let content_limit = (max_chars - marker_budget) as nat;
        if content_limit == 0 {
            marker.take(min_nat(max_chars, marker.len()) as int)
        } else {
            let k = fitting_chars_from(text, content_limit, 0);
            let prefix = text.take(k as int);
            let cut = match last_index_of(prefix, '\n') {
                Some(j) => j,
                None => match last_index_of(prefix, ' ') {
                    Some(j) => j,
                    None => k as int,
                },
            };
            text.take(cut) + marker
        }
    }
}

/// Caps a text to a byte budget, UTF-8 safely.
pub fn cap_text_to_chars(text: String, max_chars: usize, marker: &str) -> (r: String)
    ensures
        r@ == capped_text(text@, max_chars as nat, marker@),
{
    let chars = chars_of(text.as_str());
    if byte_len_at_most(chars.as_slice(), max_chars) {
        return text;
    }
    if max_chars == 0 {
        return String::new();
    }
    let marker_chars = chars_of(marker);
    let marker_budget = byte_len_capped(marker_chars.as_slice(), max_chars);
    let content_limit = max_chars - marker_budget;
    if content_limit == 0 {
        let n = if max_chars < marker_chars.len() {
            max_chars
        } else {
            marker_chars.len()
        };
        let head = crate::text::slice_chars(marker_chars.as_slice(), 0, n);
        return string_of(head.as_slice());
    }
    let k = fitting_chars(chars.as_slice(), content_limit);
    let prefix = crate::text::slice_chars(chars.as_slice(), 0, k);
    proof {
        lemma_last_index_bounds(prefix@, '\n');
        lemma_last_index_bounds(prefix@, ' ');
    }
    let cut = match last_index(prefix.as_slice(), '\n') {
        Some(j) => j,
        None => match last_index(prefix.as_slice(), ' ') {
            Some(j) => j,
            None => k,
        },
    };
    let mut out = crate::text::slice_chars(chars.as_slice(), 0, cut);
    crate::text::extend_chars(&mut out, marker_chars.as_slice());
    assert(chars@.subrange(0, cut as int) =~= chars@.take(cut as int));
    assert(prefix@ =~= chars@.take(k as int));
    string_of(out.as_slice())
}

pub const TRUNCATED_MARKER: &'static str = "\n...[truncated]";

/// Caps a system prompt to `MAX_SYSTEM_PROMPT_CHARS` bytes.
pub fn cap_system_prompt(text: String) -> (r: String)
    ensures
        r@ == capped_text(text@, MAX_SYSTEM_PROMPT_CHARS as nat, TRUNCATED_MARKER@),
{
    cap_text_to_chars(text, MAX_SYSTEM_PROMPT_CHARS, TRUNCATED_MARKER)
}

/// `s` with every line break turned into a space.
pub open spec fn newlines_to_spaces(s: Seq<char>) -> Seq<char> {
    s.map_values(|c: char| if c == '\n' {
        ' '
    } else {
        c
    })
}

/// `text` on one line, trimmed, and cut to `max_chars` bytes at the last
/// space before the cut (or at the cut), with `...` appended when cut.
pub open spec fn truncated_text(text: Seq<char>, max_chars: nat) -> Seq<char> {
    let clean = trim(newlines_to_spaces(text));
    if byte_len(clean) <= max_chars {
        clean
    } else {
        let k = fitting_chars_from(clean, max_chars, 0);
        let prefix = clean.take(k as int);
        let cut = match last_index_of(prefix, ' ') {
            Some(j) => j,
            None => k as int,
        };
        clean.take(cut) + "..."@
    }
}

/// Truncates text to a byte budget on a word boundary, UTF-8 safely.
pub fn truncate_text(text: &str, max_chars: usize) -> (r: String)
    ensures
        r@ == truncated_text(text@, max_chars as nat),
{
    let chars = chars_of(text);
    let mut one_line: Vec<char> = Vec::new();
    let mut i: usize = 0;
    while i < chars.len()
        invariant
            i <= chars.len(),
            chars@ == text@,
            one_line@ == newlines_to_spaces(chars@.take(i as int)),
        decreases chars.len() - i,
    {
        let c = chars[i];
        one_line.push(
            if c == '\n' {
                ' '
            } else {
                c
            },
        );
        assert(one_line@ =~= newlines_to_spaces(chars@.take(i + 1)));
        i = i + 1;
    }
    assert(chars@.take(chars.len() as int) =~= chars@);
    let clean = trim_chars(one_line.as_slice());
    if byte_len_at_most(clean.as_slice(), max_chars) {
        return string_of(clean.as_slice());
    }
    let k = fitting_chars(clean.as_slice(), max_chars);
    let prefix = crate::text::slice_chars(clean.as_slice(), 0, k);
    proof {
        lemma_last_index_bounds(prefix@, ' ');
    }
    let cut = match last_index(prefix.as_slice(), ' ') {
        Some(j) => j,
        None => k,
    };
    let mut out = crate::text::slice_chars(clean.as_slice(), 0, cut);
    let dots = chars_of("...");
    crate::text::extend_chars(&mut out, dots.as_slice());
    assert(clean@.subrange(0, cut as int) =~= clean@.take(cut as int));
    assert(prefix@ =~= clean@.take(k as int));
    string_of(out.as_slice())
}

/// The recap line of one evicted message, if it gets one: user turns (or
/// their images) and plain assistant answers; tool-call steps, tool results
/// and system text are skipped.
pub open spec fn recap_line(m: MessageView) -> Option<Seq<char>> {
    match m.role {
        Role::User => if is_blank(m.content) {
            if m.has_images {
                Some("- User asked: "@ + "[image]"@)
            } else {
                None
            }
        } else {
            Some(
                "- User asked: "@ + (if m.has_images {
                    "[image] "@
                } else {
                    Seq::empty()
                }) + truncated_text(m.content, 100),
            )
        },
        Role::Assistant => if m.tool_calls matches Some(calls) && calls.len() > 0 {
            None
        } else if is_blank(m.content) {
            None
        } else {
            Some("- You answered: "@ + truncated_text(m.content, 80))
        },
        _ => None,
    }
}

/// Recap lines of `ms[i..]`, given the bytes already used; lines stop once
/// the recap reaches `MAX_RECAP_CHARS` bytes.
pub open spec fn recap_lines_from(ms: Seq<MessageView>, i: int, used: nat) -> Seq<Seq<char>>
    decreases ms.len() - i,
{
    if i < 0 || i >= ms.len() || used >= MAX_RECAP_CHARS {
        Seq::empty()
    } else {
        match recap_line(ms[i]) {
            Some(l) => seq![l] + recap_lines_from(ms, i + 1, used + byte_len(l)),
            None => recap_lines_from(ms, i + 1, used),
        }
    }
}

pub const RECAP_HEADER: &'static str = "## Earlier conversation context (summarized)\nThese topics were discussed earlier but trimmed for context space:\n";

/// The recap of evicted messages (empty when no message gets a line).
pub open spec fn evicted_recap(ms: Seq<MessageView>) -> Seq<char> {
    let lines = recap_lines_from(ms, 0, 0);
    if lines.len() == 0 {
        Seq::empty()
    } else {
        RECAP_HEADER@ + join_with(lines, "\n"@)
    }
}

fn recap_line_of(m: &Message) -> (r: Option<Vec<char>>)
    ensures
        match r {
            Some(l) => recap_line(m@) == Some(l@),
            None => recap_line(m@) is None,
        },
{
    let content = chars_of(m.content.as_str());
    match m.role {
        Role::User => {
            let mut line = String::new();
            line.append("- User asked: ");
            if chars_are_blank(content.as_slice()) {
                if m.has_images {
                    line.append("[image]");
                    return Some(chars_of(line.as_str()));
                }
                return None;
            }
            if m.has_images {
                line.append("[image] ");
            }
            let t = truncate_text(m.content.as_str(), 100);
            line.append(t.as_str());
            proof {
                if !m.has_images {
                    assert(line@ =~= "- User asked: "@ + Seq::<char>::empty() + truncated_text(
                        m.content@,
                        100,
                    ));
                }
            }
            Some(chars_of(line.as_str()))
        },
        Role::Assistant => {
            let has_calls = match &m.tool_calls {
                Some(calls) => calls.len() > 0,
                None => false,
            };
            if has_calls {
                return None;
            }
            if chars_are_blank(content.as_slice()) {
                return None;
            }
            let mut line = String::new();
            line.append("- You answered: ");
            let t = truncate_text(m.content.as_str(), 80);
            line.append(t.as_str());
            Some(chars_of(line.as_str()))
        },
        _ => None,
    }
}

/// An extractive recap of evicted messages: a line per user turn and per
/// plain assistant answer, each truncated, until about 800 bytes are used.
pub fn build_evicted_recap_from_messages(evicted: &[Message]) -> (r: String)
    ensures
        r@ == evicted_recap(messages_view(evicted@)),
{
    let ghost ms = messages_view(evicted@);
    let mut lines: Vec<Vec<char>> = Vec::new();
    let mut used: usize = 0;
    let ghost mut used_total: nat = 0;
    let mut i: usize = 0;
    while i < evicted.len()
        invariant
            i <= evicted.len(),
            ms == messages_view(evicted@),
            used as nat == min_nat(used_total, MAX_RECAP_CHARS as nat),
            vec_views(lines@) + recap_lines_from(ms, i as int, used_total) == recap_lines_from(
                ms,
                0,
                0,
            ),
        decreases evicted.len() - i,
    {
        if used >= MAX_RECAP_CHARS {
            proof {
                assert(recap_lines_from(ms, i as int, used_total) =~= Seq::<Seq<char>>::empty());
                assert(vec_views(lines@) =~= recap_lines_from(ms, 0, 0));
            }
            let ghost all = recap_lines_from(ms, 0, 0);
            assert(vec_views(lines@) + recap_lines_from(ms, evicted.len() as int, used_total)
                =~= all);
            i = evicted.len();
        } else {
            assert(ms[i as int] == evicted@[i as int]@);
            match recap_line_of(&evicted[i]) {
                Some(line) => {
                    let n = byte_len_capped(line.as_slice(), MAX_RECAP_CHARS);
                    let ghost before = vec_views(lines@);
                    proof {
                        assert(before + recap_lines_from(ms, i as int, used_total) =~= before
                            + seq![line@] + recap_lines_from(
                            ms,
                            i + 1,
                            used_total + byte_len(line@),
                        ));
                        used_total = used_total + byte_len(line@);
                    }
                    lines.push(line);
                    assert(vec_views(lines@) =~= before.push(line@));
                    used = if n >= MAX_RECAP_CHARS - used {
                        MAX_RECAP_CHARS
                    } else {
                        used + n
                    };
                },
                None => {},
            }
            i = i + 1;
        }
    }
    assert(recap_lines_from(ms, i as int, used_total) =~= Seq::<Seq<char>>::empty());
    assert(vec_views(lines@) =~= recap_lines_from(ms, 0, 0));
    if lines.len() == 0 {
        return String::new();
    }
    let sep = chars_of("\n");
    let joined = join_chars(&lines, sep.as_slice());
    let mut r = String::new();
    r.append(RECAP_HEADER);
    let body = string_of(joined.as_slice());
    r.append(body.as_str());
    r
}

pub open spec fn sat_mul(a: nat, b: nat) -> nat {
    if a * b > usize::MAX {
        usize::MAX as nat
    } else {
        a * b
    }
}

fn sat_mul_usize(a: usize, b: usize) -> (r: usize)
    requires
        b > 0,
    ensures
        r == sat_mul(a as nat, b as nat),
{
    if a > usize::MAX / b {
        proof {
            assert(a * b > usize::MAX) by (nonlinear_arith)
                requires
                    a > usize::MAX / b,
                    b > 0,
            ;
        }
        usize::MAX
    } else {
        proof {
            assert(a * b <= usize::MAX) by (nonlinear_arith)
                requires
                    a <= usize::MAX / b,
                    b > 0,
            ;
        }
        a * b
    }
}

/// The system prompt's byte budget: a quarter of the bytes left for the
/// prompt (about four per token) after the response reserve, kept within
/// 16 000..256 000 and never above what is left; when nothing is left, the
/// smaller of 16 000 and the whole context.
pub open spec fn system_prompt_budget(effective_context_tokens: u32, reserved_for_response: u32) -> nat {
    let available_tokens: nat = if effective_context_tokens >= reserved_for_response {
        (effective_context_tokens - reserved_for_response) as nat
    } else {
        0
    };
    if available_tokens == 0 {
        min_nat(
            MIN_SYSTEM_PROMPT_CHARS as nat,
            sat_mul(effective_context_tokens as nat, CHARS_PER_TOKEN_ESTIMATE as nat),
        )
    } else {
        let available_chars = sat_mul(available_tokens, CHARS_PER_TOKEN_ESTIMATE as nat);
        let quarter = available_chars / (SYSTEM_PROMPT_CONTEXT_FRACTION as nat);
        let target = min_nat(
            if quarter >= MIN_SYSTEM_PROMPT_CHARS {
                quarter
            } else {
                MIN_SYSTEM_PROMPT_CHARS as nat
            },
            MAX_SYSTEM_PROMPT_CHARS as nat,
        );
        min_nat(target, available_chars)
    }
}

pub fn system_prompt_char_budget(effective_context_tokens: u32, reserved_for_response: u32) -> (r:
    usize)
    ensures
        r == system_prompt_budget(effective_context_tokens, reserved_for_response),
{
    let available_tokens = effective_context_tokens.saturating_sub(reserved_for_response) as usize;
    if available_tokens == 0 {
        let all = sat_mul_usize(effective_context_tokens as usize, CHARS_PER_TOKEN_ESTIMATE);
        return if MIN_SYSTEM_PROMPT_CHARS <= all {
            MIN_SYSTEM_PROMPT_CHARS
        } else {
            all
        };
    }
    let available_chars = sat_mul_usize(available_tokens, CHARS_PER_TOKEN_ESTIMATE);
    let quarter = available_chars / SYSTEM_PROMPT_CONTEXT_FRACTION;
    let floor = if quarter >= MIN_SYSTEM_PROMPT_CHARS {
        quarter
    } else {
        MIN_SYSTEM_PROMPT_CHARS
    };
    let target = if floor <= MAX_SYSTEM_PROMPT_CHARS {
        floor
    } else {
        MAX_SYSTEM_PROMPT_CHARS
    };
    if target <= available_chars {
        target
    } else {
        available_chars
    }
}

/// The skill index's byte budget: one percent of the context's bytes, kept
/// within 8 000..64 000 and at most half the system prompt budget.
pub open spec fn skill_prompt_budget(context_window_tokens: u32, system_prompt_budget: nat) -> nat {
    let one_percent = sat_mul(context_window_tokens as nat, CHARS_PER_TOKEN_ESTIMATE as nat) / 100;
    let floor = if one_percent >= MIN_SKILL_PROMPT_CHARS {
        one_percent
    } else {
        MIN_SKILL_PROMPT_CHARS as nat
    };
    min_nat(min_nat(floor, MAX_SKILL_PROMPT_CHARS as nat), system_prompt_budget / 2)
}

pub fn skill_prompt_char_budget(context_window_tokens: u32, system_prompt_budget: usize) -> (r: usize)
    ensures
        r == skill_prompt_budget(context_window_tokens, system_prompt_budget as nat),
{
    let one_percent = sat_mul_usize(context_window_tokens as usize, CHARS_PER_TOKEN_ESTIMATE) / 100;
    let floor = if one_percent >= MIN_SKILL_PROMPT_CHARS {
        one_percent
    } else {
        MIN_SKILL_PROMPT_CHARS
    };
    let capped = if floor <= MAX_SKILL_PROMPT_CHARS {
        floor
    } else {
        MAX_SKILL_PROMPT_CHARS
    };
    let half = system_prompt_budget / 2;
    if capped <= half {
        capped
    } else {
        half
    }
}

pub const SKILLS_TRUNCATED_BASE_MARKER: &'static str = "\n...[system prompt truncated before skills]";

pub const SKILLS_TRUNCATED_MARKER: &'static str = "\n...[skills truncated]";

/// The system prompt within `max_chars` bytes: the skill index keeps its
/// room (up to the whole budget) and the base prompt is cut before it.
pub open spec fn assembled_prompt(base: Seq<char>, skills: Seq<char>, max_chars: nat) -> Seq<char> {
    if skills.len() == 0 {
        capped_text(base, max_chars, TRUNCATED_MARKER@)
    } else {
        let skill_budget = min_nat(byte_len(skills), max_chars);
        let base_budget = (max_chars - skill_budget) as nat;
        let prompt = capped_text(base, base_budget, SKILLS_TRUNCATED_BASE_MARKER@);
        if byte_len(prompt) < max_chars {
            prompt + capped_text(
                skills,
                (max_chars - byte_len(prompt)) as nat,
                SKILLS_TRUNCATED_MARKER@,
            )
        } else {
            prompt
        }
    }
}

pub fn assemble_system_prompt(base_prompt: String, skills_section: String, max_chars: usize) -> (r:
    String)
    ensures
        r@ == assembled_prompt(base_prompt@, skills_section@, max_chars as nat),
{
    let skill_chars = chars_of(skills_section.as_str());
    if skill_chars.len() == 0 {
        return cap_text_to_chars(base_prompt, max_chars, TRUNCATED_MARKER);
    }
    let skill_budget = byte_len_capped(skill_chars.as_slice(), max_chars);
    let skill_budget = if skill_budget < max_chars {
        skill_budget
    } else {
        max_chars
    };
    let base_budget = max_chars - skill_budget;
    let mut prompt = cap_text_to_chars(base_prompt, base_budget, SKILLS_TRUNCATED_BASE_MARKER);
    let prompt_chars = chars_of(prompt.as_str());
    let used = byte_len_capped(prompt_chars.as_slice(), max_chars);
    if used < max_chars {
        let rest = cap_text_to_chars(skills_section, max_chars - used, SKILLS_TRUNCATED_MARKER);
        prompt.append(rest.as_str());
    }
    prompt
}

/// Token contribution of one kind of context in a model request.
#[derive(Debug, Clone, PartialEq, Eq)]
pub struct ContextUsageSegment {
    pub kind: String,
    pub tokens: u32,
}

/// Breakdown of the prompt tokens of a model request.
#[derive(Debug, Clone, PartialEq, Eq)]
pub struct ContextUsageBreakdown {
    pub total_tokens: u32,
    pub segments: Vec<ContextUsageSegment>,
}

/// Segment kinds, numbered in the order of their names.
pub open spec fn kind_name(k: int) -> Seq<char> {
    if k == 0 {
        "conversation"@
    } else if k == 1 {
        "mcp"@
    } else if k == 2 {
        "overhead"@
    } else if k == 3 {
        "prompts"@
    } else if k == 4 {
        "toolResults"@
    } else {
        "tools"@
    }
}

fn kind_name_str(k: usize) -> (s: &'static str)
    requires
        k < 6,
    ensures
        s@ == kind_name(k as int),
{
    match k {
        0 => "conversation",
        1 => "mcp",
        2 => "overhead",
        3 => "prompts",
        4 => "toolResults",
        _ => "tools",
    }
}

pub const KIND_CONVERSATION: usize = 0;

pub const KIND_MCP: usize = 1;

pub const KIND_OVERHEAD: usize = 2;

pub const KIND_PROMPTS: usize = 3;

pub const KIND_TOOL_RESULTS: usize = 4;

pub const KIND_TOOLS: usize = 5;

/// The order segments are reported in.
pub open spec fn display_order() -> Seq<int> {
    seq![3int, 0int, 4int, 5int, 1int, 2int]
}

pub open spec fn message_kind(role: Role) -> int {
    match role {
        Role::System => KIND_PROMPTS as int,
        Role::User | Role::Assistant => KIND_CONVERSATION as int,
        Role::Tool => KIND_TOOL_RESULTS as int,
    }
}

/// MCP tools are named `mcp_tool` or `mcp__…`.
pub open spec fn is_mcp_tool_name(name: Seq<char>) -> bool {
    name == "mcp_tool"@ || crate::text::starts_with(name, "mcp__"@)
}

pub open spec fn tool_kind(name: Seq<char>) -> int {
    if is_mcp_tool_name(name) {
        KIND_MCP as int
    } else {
        KIND_TOOLS as int
    }
}

pub open spec fn zero_counts() -> Seq<nat> {
    seq![0nat, 0nat, 0nat, 0nat, 0nat, 0nat]
}

pub open spec fn add_count(c: Seq<nat>, k: int, t: nat) -> Seq<nat> {
    c.update(k, c[k] + t)
}

/// Per-kind token counts of the first `n` messages.
pub open spec fn message_counts(ms: Seq<MessageView>, tokens: Seq<u32>, n: nat) -> Seq<nat>
    decreases n,
{
    if n == 0 {
        zero_counts()
    } else {
        add_count(
            message_counts(ms, tokens, (n - 1) as nat),
            message_kind(ms[n - 1].role),
            tokens[n - 1] as nat,
        )
    }
}

/// A tool definition's tokens: its text's tokens plus ten for the framing.
pub open spec fn tool_definition_tokens(text_tokens: u32) -> nat {
    (text_tokens + 10) as nat
}

/// Per-kind token counts after the first `n` tool definitions are added to `base`.
pub open spec fn tool_counts(base: Seq<nat>, tools: Seq<ToolDefinition>, text_tokens: Seq<u32>, n: nat) -> Seq<nat>
    decreases n,
{
    if n == 0 {
        base
    } else {
        add_count(
            tool_counts(base, tools, text_tokens, (n - 1) as nat),
            tool_kind(tools[n - 1].name@),
            tool_definition_tokens(text_tokens[n - 1]),
        )
    }
}

pub open spec fn estimated_counts(
    ms: Seq<MessageView>,
    message_tokens: Seq<u32>,
    tools: Seq<ToolDefinition>,
    tool_text_tokens: Seq<u32>,
) -> Seq<nat> {
    tool_counts(
        message_counts(ms, message_tokens, ms.len()),
        tools,
        tool_text_tokens,
        tools.len(),
    )
}

pub open spec fn sum6(c: Seq<nat>) -> nat {
    c[0] + c[1] + c[2] + c[3] + c[4] + c[5]
}

/// The last kind with the most tokens.
pub open spec fn largest_kind_upto(c: Seq<nat>, n: int) -> int
    decreases n,
{
    if n <= 1 {
        0
    } else {
        let best = largest_kind_upto(c, n - 1);
        if c[n - 1] >= c[best] {
            n - 1
        } else {
            best
        }
    }
}

proof fn lemma_largest_kind_range(c: Seq<nat>, n: int)
    requires
        n >= 1,
    ensures
        0 <= largest_kind_upto(c, n) < n,
    decreases n,
{
    if n > 1 {
        lemma_largest_kind_range(c, n - 1);
    }
}

/// Per-kind counts reconciled with the provider's count: scaled down
/// proportionally (the rounding remainder going to the largest kind) when the
/// estimate is over, topped up as overhead when it is under.
pub open spec fn reconciled_counts(c: Seq<nat>, actual: nat) -> Seq<nat> {
    let est = sum6(c);
    if actual > 0 && est > actual {
        let scaled = c.map_values(|t: nat| t * actual / est);
        let largest = largest_kind_upto(c, 6);
        add_count(scaled, largest, (actual - sum6(scaled)) as nat)
    } else if actual > est {
        add_count(c, KIND_OVERHEAD as int, (actual - est) as nat)
    } else {
        c
    }
}

/// The reported segments: the kinds with tokens, in display order.
pub open spec fn reported_segments(c: Seq<nat>, k: nat) -> Seq<(Seq<char>, nat)>
    decreases k,
{
    if k == 0 {
        Seq::empty()
    } else {
        let prev = reported_segments(c, (k - 1) as nat);
        let kind = display_order()[k - 1];
        if c[kind] > 0 {
            prev.push((kind_name(kind), c[kind]))
        } else {
            prev
        }
    }
}

pub open spec fn breakdown_total(c: Seq<nat>, actual: Option<u32>) -> nat {
    match actual {
        Some(a) if a > 0 => a as nat,
        _ => sum6(c),
    }
}

pub open spec fn segment_views(v: Seq<ContextUsageSegment>) -> Seq<(Seq<char>, nat)> {
    v.map_values(|s: ContextUsageSegment| (s.kind@, s.tokens as nat))
}

pub open spec fn actual_count(actual: Option<u32>) -> nat {
    match actual {
        Some(a) => a as nat,
        None => 0,
    }
}

proof fn lemma_sum6_add(c: Seq<nat>, k: int, t: nat)
    requires
        c.len() == 6,
        0 <= k < 6,
    ensures
        add_count(c, k, t).len() == 6,
        sum6(add_count(c, k, t)) == sum6(c) + t,
{
}

proof fn lemma_message_counts(ms: Seq<MessageView>, tokens: Seq<u32>, n: nat, m: nat)
    requires
        n <= m,
    ensures
        message_counts(ms, tokens, n).len() == 6,
        sum6(message_counts(ms, tokens, n)) <= sum6(message_counts(ms, tokens, m)),
    decreases m,
{
    if m > 0 {
        if n < m {
            lemma_message_counts(ms, tokens, n, (m - 1) as nat);
        } else if n > 0 {
            lemma_message_counts(ms, tokens, (n - 1) as nat, (n - 1) as nat);
        }
        lemma_message_counts(ms, tokens, (m - 1) as nat, (m - 1) as nat);
        lemma_sum6_add(
            message_counts(ms, tokens, (m - 1) as nat),
            message_kind(ms[m - 1].role),
            tokens[m - 1] as nat,
        );
    }
}

proof fn lemma_tool_counts(
    base: Seq<nat>,
    tools: Seq<ToolDefinition>,
    text_tokens: Seq<u32>,
    n: nat,
    m: nat,
)
    requires
        base.len() == 6,
        n <= m,
    ensures
        tool_counts(base, tools, text_tokens, n).len() == 6,
        sum6(base) <= sum6(tool_counts(base, tools, text_tokens, n)),
        sum6(tool_counts(base, tools, text_tokens, n)) <= sum6(
            tool_counts(base, tools, text_tokens, m),
        ),
    decreases m,
{
    if m > 0 {
        if n < m {
            lemma_tool_counts(base, tools, text_tokens, n, (m - 1) as nat);
        } else if n > 0 {
            lemma_tool_counts(base, tools, text_tokens, (n - 1) as nat, (n - 1) as nat);
        }
        lemma_tool_counts(base, tools, text_tokens, (m - 1) as nat, (m - 1) as nat);
        lemma_sum6_add(
            tool_counts(base, tools, text_tokens, (m - 1) as nat),
            tool_kind(tools[m - 1].name@),
            tool_definition_tokens(text_tokens[m - 1]),
        );
    }
}

fn is_mcp_tool_definition(tool: &ToolDefinition) -> (b: bool)
    ensures
        b == is_mcp_tool_name(tool.name@),
{
    let name = chars_of(tool.name.as_str());
    let exact = chars_of("mcp_tool");
    let prefix = chars_of("mcp__");
    crate::text::chars_eq(name.as_slice(), exact.as_slice()) || crate::text::starts_with_chars(
        name.as_slice(),
        prefix.as_slice(),
    )
}

proof fn lemma_scaled_sum_bound(c: Seq<nat>, actual: nat, est: nat)
    requires
        c.len() == 6,
        est == sum6(c),
        est > 0,
    ensures
        sum6(c.map_values(|t: nat| t * actual / est)) <= actual,
{
    let s = c.map_values(|t: nat| t * actual / est);
    assert forall|k: int| 0 <= k < 6 implies #[trigger] s[k] * est <= c[k] * actual by {
        let x = c[k] * actual;
        assert(s[k] == x / est);
        assert((x / est) * est <= x) by (nonlinear_arith)
            requires
                est > 0,
        ;
    }
    let s0 = s[0];
    let s1 = s[1];
    let s2 = s[2];
    let s3 = s[3];
    let s4 = s[4];
    let s5 = s[5];
    assert(s0 * est <= c[0] * actual);
    assert(s1 * est <= c[1] * actual);
    assert(s2 * est <= c[2] * actual);
    assert(s3 * est <= c[3] * actual);
    assert(s4 * est <= c[4] * actual);
    assert(s5 * est <= c[5] * actual);
    assert((s0 + s1 + s2 + s3 + s4 + s5) * est <= (c[0] + c[1] + c[2] + c[3] + c[4] + c[5])
        * actual) by (nonlinear_arith)
        requires
            s0 * est <= c[0] * actual,
            s1 * est <= c[1] * actual,
            s2 * est <= c[2] * actual,
            s3 * est <= c[3] * actual,
            s4 * est <= c[4] * actual,
            s5 * est <= c[5] * actual,
    ;
    assert((s0 + s1 + s2 + s3 + s4 + s5) <= actual) by (nonlinear_arith)
        requires
            (s0 + s1 + s2 + s3 + s4 + s5) * est <= est * actual,
            est > 0,
    ;
}

/// Breaks the prompt tokens of a request down by kind: system prompts,
/// conversation, tool results, tool definitions, MCP tool definitions, and
/// unexplained overhead. `message_tokens[i]` is the model's token estimate
/// for `messages[i]`; `tool_text_tokens[j]` is its estimate for the text
/// `"{name} {description} {parameters}"` of `tools[j]`. When the provider
/// reported the prompt's actual token count, the breakdown is reconciled to it.
pub fn estimate_context_usage_breakdown_for_model(
    messages: &[Message],
    message_tokens: &[u32],
    tools: &[ToolDefinition],
    tool_text_tokens: &[u32],
    actual_prompt_tokens: Option<u32>,
) -> (r: ContextUsageBreakdown)
    requires
        message_tokens.len() == messages.len(),
        tool_text_tokens.len() == tools.len(),
        sum6(estimated_counts(messages_view(messages@), message_tokens@, tools@, tool_text_tokens@))
            <= u32::MAX,
    ensures
        ({
            let c = estimated_counts(
                messages_view(messages@),
                message_tokens@,
                tools@,
                tool_text_tokens@,
            );
            &&& r.total_tokens == breakdown_total(c, actual_prompt_tokens)
            &&& segment_views(r.segments@) == reported_segments(
                reconciled_counts(c, actual_count(actual_prompt_tokens)),
                6,
            )
        }),
{
    let ghost ms = messages_view(messages@);
    let ghost full = estimated_counts(ms, message_tokens@, tools@, tool_text_tokens@);
    let mut counts: Vec<u32> = vec![0u32, 0u32, 0u32, 0u32, 0u32, 0u32];
    let mut i: usize = 0;
    while i < messages.len()
        invariant
            i <= messages.len(),
            ms == messages_view(messages@),
            message_tokens.len() == messages.len(),
            tool_text_tokens.len() == tools.len(),
            full == estimated_counts(ms, message_tokens@, tools@, tool_text_tokens@),
            sum6(full) <= u32::MAX,
            counts@.len() == 6,
            forall|k: int|
                0 <= k < 6 ==> counts@[k] as nat == #[trigger] message_counts(
                    ms,
                    message_tokens@,
                    i as nat,
                )[k],
        decreases messages.len() - i,
    {
        proof {
            lemma_message_counts(ms, message_tokens@, (i + 1) as nat, ms.len());
            lemma_message_counts(ms, message_tokens@, i as nat, i as nat);
            lemma_message_counts(ms, message_tokens@, ms.len(), ms.len());
            lemma_tool_counts(
                message_counts(ms, message_tokens@, ms.len()),
                tools@,
                tool_text_tokens@,
                tools@.len(),
                tools@.len(),
            );
            lemma_message_counts(ms, message_tokens@, ms.len(), ms.len());
            assert(ms[i as int].role == messages@[i as int].role);
        }
        let k: usize = match messages[i].role {
            Role::System => KIND_PROMPTS,
            Role::User | Role::Assistant => KIND_CONVERSATION,
            Role::Tool => KIND_TOOL_RESULTS,
        };
        let updated = counts[k] + message_tokens[i];
        counts.set(k, updated);
        i = i + 1;
    }
    let ghost base = message_counts(ms, message_tokens@, ms.len());
    let mut j: usize = 0;
    while j < tools.len()
        invariant
            j <= tools.len(),
            tool_text_tokens.len() == tools.len(),
            base == message_counts(ms, message_tokens@, ms.len()),
            full == tool_counts(base, tools@, tool_text_tokens@, tools@.len()),
            sum6(full) <= u32::MAX,
            counts@.len() == 6,
            forall|k: int|
                0 <= k < 6 ==> counts@[k] as nat == #[trigger] tool_counts(
                    base,
                    tools@,
                    tool_text_tokens@,
                    j as nat,
                )[k],
        decreases tools.len() - j,
    {
        proof {
            lemma_message_counts(ms, message_tokens@, ms.len(), ms.len());
            lemma_tool_counts(base, tools@, tool_text_tokens@, (j + 1) as nat, tools@.len());
            lemma_tool_counts(base, tools@, tool_text_tokens@, j as nat, j as nat);
        }
        let k: usize = if is_mcp_tool_definition(&tools[j]) {
            KIND_MCP
        } else {
            KIND_TOOLS
        };
        let updated = counts[k] + tool_text_tokens[j] + 10;
        counts.set(k, updated);
        j = j + 1;
    }
    let ghost c = full;
    proof {
        lemma_message_counts(ms, message_tokens@, ms.len(), ms.len());
        lemma_tool_counts(base, tools@, tool_text_tokens@, tools@.len(), tools@.len());
        assert(counts@[0] as nat == c[0]);
        assert(counts@[1] as nat == c[1]);
        assert(counts@[2] as nat == c[2]);
        assert(counts@[3] as nat == c[3]);
        assert(counts@[4] as nat == c[4]);
        assert(counts@[5] as nat == c[5]);
    }
    let estimated_total: u32 = counts[0] + counts[1] + counts[2] + counts[3] + counts[4]
        + counts[5];
    let actual_total: u32 = match actual_prompt_tokens {
        Some(a) => a,
        None => 0,
    };
    let total_tokens = if actual_total > 0 {
        actual_total
    } else {
        estimated_total
    };
    let ghost rec = reconciled_counts(c, actual_total as nat);
    if actual_total > 0 && estimated_total > actual_total {
        let mut largest: usize = 0;
        let mut k: usize = 1;
        while k < 6
            invariant
                1 <= k <= 6,
                counts@.len() == 6,
                largest < k,
                largest as int == largest_kind_upto(c, k as int),
                forall|q: int| 0 <= q < 6 ==> counts@[q] as nat == c[q],
            decreases 6 - k,
        {
            if counts[k] >= counts[largest] {
                largest = k;
            }
            k = k + 1;
        }
        let ghost scaled = c.map_values(|t: nat| t * (actual_total as nat) / (
        estimated_total as nat));
        proof {
            lemma_scaled_sum_bound(c, actual_total as nat, estimated_total as nat);
        }
        let mut scaled_total: u32 = 0;
        let mut q: usize = 0;
        while q < 6
            invariant
                q <= 6,
                counts@.len() == 6,
                c.len() == 6,
                estimated_total as nat == sum6(c),
                estimated_total > actual_total,
                actual_total > 0,
                sum6(scaled) <= actual_total,
                scaled == c.map_values(|t: nat| t * (actual_total as nat) / (
                estimated_total as nat)),
                forall|p: int| 0 <= p < q ==> counts@[p] as nat == scaled[p],
                forall|p: int| q <= p < 6 ==> counts@[p] as nat == c[p],
                scaled_total as nat == (if q > 0 { scaled[0] } else { 0 }) + (if q > 1 {
                    scaled[1]
                } else {
                    0
                }) + (if q > 2 { scaled[2] } else { 0 }) + (if q > 3 { scaled[3] } else { 0 }) + (
                if q > 4 { scaled[4] } else { 0 }) + (if q > 5 { scaled[5] } else { 0 }),
            decreases 6 - q,
        {
            let t = counts[q] as u64;
            proof {
                assert(t * (actual_total as u64) <= u64::MAX) by (nonlinear_arith)
                    requires
                        t <= u32::MAX,
                        actual_total <= u32::MAX,
                ;
                assert(scaled[q as int] == c[q as int] * (actual_total as nat) / (
                estimated_total as nat));
            }
            let v: u64 = t * (actual_total as u64) / (estimated_total as u64);
            proof {
                assert(v as nat == scaled[q as int]);
                assert(scaled[q as int] <= sum6(scaled));
            }
            counts.set(q, v as u32);
            scaled_total = scaled_total + v as u32;
            q = q + 1;
        }
        let remainder = actual_total - scaled_total;
        if remainder > 0 {
            let updated = counts[largest] + remainder;
            counts.set(largest, updated);
        }
        proof {
            assert(counts@.map_values(|t: u32| t as nat) =~= rec);
        }
    } else if actual_total > estimated_total {
        let updated = counts[KIND_OVERHEAD] + (actual_total - estimated_total);
        counts.set(KIND_OVERHEAD, updated);
        proof {
            assert(counts@.map_values(|t: u32| t as nat) =~= rec);
        }
    } else {
        proof {
            assert(counts@.map_values(|t: u32| t as nat) =~= rec);
        }
    }
    let order: Vec<usize> = vec![3usize, 0usize, 4usize, 5usize, 1usize, 2usize];
    let mut segments: Vec<ContextUsageSegment> = Vec::new();
    let mut n: usize = 0;
    while n < 6
        invariant
            n <= 6,
            counts@.len() == 6,
            order@ == seq![3usize, 0usize, 4usize, 5usize, 1usize, 2usize],
            counts@.map_values(|t: u32| t as nat) == rec,
            segment_views(segments@) == reported_segments(rec, n as nat),
        decreases 6 - n,
    {
        let kind = order[n];
        let tokens = counts[kind];
        proof {
            assert(display_order()[n as int] == kind as int);
            assert(rec[kind as int] == tokens as nat);
        }
        if tokens > 0 {
            let ghost before = segment_views(segments@);
            let segment = ContextUsageSegment {
                kind: String::from_str(kind_name_str(kind)),
                tokens,
            };
            segments.push(segment);
            assert(segment_views(segments@) =~= before.push((kind_name(kind as int), tokens as nat)));
        }
        n = n + 1;
    }
    ContextUsageBreakdown { total_tokens, segments }
}

pub open spec fn segments_sum(s: Seq<(Seq<char>, nat)>) -> nat
    decreases s.len(),
{
    if s.len() == 0 {
        0
    } else {
        segments_sum(s.drop_last()) + s.last().1
    }
}

proof fn lemma_reported_sum(c: Seq<nat>, k: nat)
    requires
        c.len() == 6,
        k <= 6,
    ensures
        segments_sum(reported_segments(c, k)) == (if k > 0 {
            c[3]
        } else {
            0
        }) + (if k > 1 {
            c[0]
        } else {
            0
        }) + (if k > 2 {
            c[4]
        } else {
            0
        }) + (if k > 3 {
            c[5]
        } else {
            0
        }) + (if k > 4 {
            c[1]
        } else {
            0
        }) + (if k > 5 {
            c[2]
        } else {
            0
        }),
    decreases k,
{
    if k > 0 {
        lemma_reported_sum(c, (k - 1) as nat);
        let prev = reported_segments(c, (k - 1) as nat);
        let kind = display_order()[k - 1];
        if c[kind] > 0 {
            assert(prev.push((kind_name(kind), c[kind])).drop_last() =~= prev);
        }
    }
}

/// The reported segments add up to the breakdown's total: estimated when the
/// provider reported nothing, reconciled to the provider's count otherwise.
pub proof fn law_breakdown_segments_add_up_to_the_total(c: Seq<nat>, actual: Option<u32>)
    requires
        c.len() == 6,
    ensures
        segments_sum(reported_segments(reconciled_counts(c, actual_count(actual)), 6))
            == breakdown_total(c, actual),
{
    let a = actual_count(actual);
    let rec = reconciled_counts(c, a);
    let est = sum6(c);
    if a > 0 && est > a {
        lemma_scaled_sum_bound(c, a, est);
        lemma_largest_kind_range(c, 6);
        let scaled = c.map_values(|t: nat| t * a / est);
        lemma_sum6_add(scaled, largest_kind_upto(c, 6), (a - sum6(scaled)) as nat);
    } else if a > est {
        lemma_sum6_add(c, KIND_OVERHEAD as int, (a - est) as nat);
    }
    assert(rec.len() == 6);
    lemma_reported_sum(rec, 6);
}

proof fn lemma_kind_names_distinct(a: int, b: int)
    requires
        0 <= a < 6,
        0 <= b < 6,
        a != b,
    ensures
        kind_name(a) != kind_name(b),
{
    reveal_strlit("conversation");
    reveal_strlit("mcp");
    reveal_strlit("overhead");
    reveal_strlit("prompts");
    reveal_strlit("toolResults");
    reveal_strlit("tools");
    assert(kind_name(a).len() != kind_name(b).len());
}

/// Each reported segment is a kind of `display_order()[..k]` with tokens,
/// each such kind is reported, and no kind twice.
proof fn lemma_reported_segments_shape(c: Seq<nat>, k: nat)
    requires
        c.len() == 6,
        k <= 6,
    ensures
        forall|i: int|
            0 <= i < reported_segments(c, k).len() ==> (#[trigger] reported_segments(c, k)[i]).1 > 0
                && exists|m: int|
                0 <= m < k && reported_segments(c, k)[i] == (
                    kind_name(display_order()[m]),
                    c[display_order()[m]],
                ),
        forall|i: int, j: int|
            0 <= i < j < reported_segments(c, k).len() ==> (#[trigger] reported_segments(c, k)[i]).0
                != (#[trigger] reported_segments(c, k)[j]).0,
        forall|m: int|
            0 <= m < k && c[display_order()[m]] > 0 ==> exists|i: int|
                0 <= i < reported_segments(c, k).len() && (#[trigger] reported_segments(c, k)[i]).0
                    == kind_name(display_order()[m]),
    decreases k,
{
    if k > 0 {
        lemma_reported_segments_shape(c, (k - 1) as nat);
        let prev = reported_segments(c, (k - 1) as nat);
        let kind = display_order()[k - 1];
        if c[kind] > 0 {
            let cur = prev.push((kind_name(kind), c[kind]));
            assert forall|i: int, j: int| 0 <= i < j < cur.len() implies (#[trigger] cur[i]).0
                != (#[trigger] cur[j]).0 by {
                if j == cur.len() - 1 {
                    let m = choose|m: int|
                        0 <= m < k - 1 && prev[i] == (
                            kind_name(display_order()[m]),
                            c[display_order()[m]],
                        );
                    lemma_kind_names_distinct(display_order()[m], kind);
                } else {
                    assert(cur[i] == prev[i] && cur[j] == prev[j]);
                }
            }
            assert forall|i: int| 0 <= i < cur.len() implies (#[trigger] cur[i]).1 > 0
                && exists|m: int|
                0 <= m < k && cur[i] == (kind_name(display_order()[m]), c[display_order()[m]]) by {
                if i == cur.len() - 1 {
                    assert(cur[i] == (kind_name(display_order()[k - 1]), c[display_order()[k - 1]]));
                } else {
                    assert(cur[i] == prev[i]);
                }
            }
            assert forall|m: int| 0 <= m < k && c[display_order()[m]] > 0 implies exists|i: int|
                0 <= i < cur.len() && (#[trigger] cur[i]).0 == kind_name(display_order()[m]) by {
                if m == k - 1 {
                    assert(cur[cur.len() - 1].0 == kind_name(display_order()[m]));
                } else {
                    let i = choose|i: int|
                        0 <= i < prev.len() && (#[trigger] prev[i]).0 == kind_name(display_order()[m]);
                    assert(cur[i] == prev[i]);
                }
            }
        }
    }
}

/// The reported segments name distinct kinds, each with tokens, and every
/// kind with tokens is reported.
pub proof fn law_segments_are_distinct_kinds_with_tokens(c: Seq<nat>)
    requires
        c.len() == 6,
    ensures
        forall|i: int|
            0 <= i < reported_segments(c, 6).len() ==> (#[trigger] reported_segments(c, 6)[i]).1 > 0,
        forall|i: int, j: int|
            0 <= i < j < reported_segments(c, 6).len() ==> (#[trigger] reported_segments(c, 6)[i]).0
                != (#[trigger] reported_segments(c, 6)[j]).0,
        forall|k: int|
            0 <= k < 6 && c[k] > 0 ==> exists|i: int|
                0 <= i < reported_segments(c, 6).len() && (#[trigger] reported_segments(c, 6)[i]).0
                    == kind_name(k),
{
    lemma_reported_segments_shape(c, 6);
    assert forall|k: int| 0 <= k < 6 && c[k] > 0 implies exists|i: int|
        0 <= i < reported_segments(c, 6).len() && (#[trigger] reported_segments(c, 6)[i]).0
            == kind_name(k) by {
        let m = if k == 3 {
            0int
        } else if k == 0 {
            1int
        } else if k == 4 {
            2int
        } else if k == 5 {
            3int
        } else if k == 1 {
            4int
        } else {
            5int
        };
        assert(display_order()[m] == k);
    }
}

proof fn lemma_messages_never_count_as_mcp(ms: Seq<MessageView>, tokens: Seq<u32>, n: nat)
    ensures
        message_counts(ms, tokens, n).len() == 6,
        message_counts(ms, tokens, n)[KIND_MCP as int] == 0,
        message_counts(ms, tokens, n)[KIND_OVERHEAD as int] == 0,
    decreases n,
{
    if n > 0 {
        lemma_messages_never_count_as_mcp(ms, tokens, (n - 1) as nat);
    }
}

proof fn lemma_mcp_count(base: Seq<nat>, tools: Seq<ToolDefinition>, text_tokens: Seq<u32>, n: nat)
    requires
        base.len() == 6,
        n <= tools.len(),
    ensures
        tool_counts(base, tools, text_tokens, n).len() == 6,
        (tool_counts(base, tools, text_tokens, n)[KIND_MCP as int] > 0) <==> (base[KIND_MCP as int]
            > 0 || exists|i: int| 0 <= i < n && is_mcp_tool_name(#[trigger] tools[i].name@)),
        tool_counts(base, tools, text_tokens, n)[KIND_OVERHEAD as int] == base[KIND_OVERHEAD as int],
    decreases n,
{
    if n > 0 {
        lemma_mcp_count(base, tools, text_tokens, (n - 1) as nat);
        if exists|i: int| 0 <= i < n - 1 && is_mcp_tool_name(#[trigger] tools[i].name@) {
            let i = choose|i: int| 0 <= i < n - 1 && is_mcp_tool_name(#[trigger] tools[i].name@);
            assert(0 <= i < n && is_mcp_tool_name(tools[i].name@));
        }
    }
}

proof fn lemma_named_segment(c: Seq<nat>, k: int)
    requires
        c.len() == 6,
        0 <= k < 6,
    ensures
        (exists|i: int|
            0 <= i < reported_segments(c, 6).len() && (#[trigger] reported_segments(c, 6)[i]).0
                == kind_name(k)) <==> c[k] > 0,
{
    law_segments_are_distinct_kinds_with_tokens(c);
    lemma_reported_segments_shape(c, 6);
    let segs = reported_segments(c, 6);
    if exists|i: int| 0 <= i < segs.len() && (#[trigger] segs[i]).0 == kind_name(k) {
        let i = choose|i: int| 0 <= i < segs.len() && (#[trigger] segs[i]).0 == kind_name(k);
        let m = choose|m: int|
            0 <= m < 6 && segs[i] == (kind_name(display_order()[m]), c[display_order()[m]]);
        if display_order()[m] != k {
            lemma_kind_names_distinct(display_order()[m], k);
        }
    }
}

/// Without a provider count the breakdown reports no overhead, and reports
/// an `mcp` segment exactly when some tool is an MCP tool.
pub proof fn law_mcp_segment_iff_mcp_tool(
    ms: Seq<MessageView>,
    message_tokens: Seq<u32>,
    tools: Seq<ToolDefinition>,
    tool_text_tokens: Seq<u32>,
    actual: Option<u32>,
)
    requires
        actual_count(actual) == 0,
    ensures
        ({
            let segs = reported_segments(
                reconciled_counts(
                    estimated_counts(ms, message_tokens, tools, tool_text_tokens),
                    actual_count(actual),
                ),
                6,
            );
            &&& (exists|i: int| 0 <= i < segs.len() && (#[trigger] segs[i]).0 == kind_name(
                KIND_MCP as int,
            )) <==> (exists|t: int| 0 <= t < tools.len() && is_mcp_tool_name(#[trigger] tools[t].name@))
            &&& !exists|i: int| 0 <= i < segs.len() && (#[trigger] segs[i]).0 == kind_name(
                KIND_OVERHEAD as int,
            )
        }),
{
    let c = estimated_counts(ms, message_tokens, tools, tool_text_tokens);
    lemma_messages_never_count_as_mcp(ms, message_tokens, ms.len());
    lemma_mcp_count(message_counts(ms, message_tokens, ms.len()), tools, tool_text_tokens, tools.len());
    assert(reconciled_counts(c, 0) == c);
    lemma_named_segment(c, KIND_MCP as int);
    lemma_named_segment(c, KIND_OVERHEAD as int);
}

/// Tokens of a request's tool definitions.
pub open spec fn tool_tokens_total(text_tokens: Seq<u32>) -> nat
    decreases text_tokens.len(),
{
    if text_tokens.len() == 0 {
        0
    } else {
        tool_tokens_total(text_tokens.drop_last()) + tool_definition_tokens(text_tokens.last())
    }
}

proof fn lemma_tool_tokens_total_prefix(ts: Seq<u32>, i: int)
    requires
        0 <= i <= ts.len(),
    ensures
        tool_tokens_total(ts.take(i)) <= tool_tokens_total(ts),
    decreases ts.len() - i,
{
    if i < ts.len() {
        lemma_tool_tokens_total_prefix(ts, i + 1);
        assert(ts.take(i + 1).drop_last() =~= ts.take(i));
    } else {
        assert(ts.take(i) =~= ts);
    }
}

/// Tool tokens add up over lists: the tokens of two tool lists together
/// are the tokens of each, summed, and each definition costs at least ten.
pub proof fn law_tool_tokens_add_up(a: Seq<u32>, b: Seq<u32>)
    ensures
        tool_tokens_total(a + b) == tool_tokens_total(a) + tool_tokens_total(b),
        tool_tokens_total(a) >= 10 * a.len(),
    decreases b.len(), a.len(),
{
    if b.len() > 0 {
        law_tool_tokens_add_up(a, b.drop_last());
        assert((a + b).drop_last() =~= a + b.drop_last());
    } else {
        assert(a + b =~= a);
        if a.len() > 0 {
            law_tool_tokens_add_up(a.drop_last(), b);
        }
    }
}

/// Tokens occupied by tool definitions in a request, with the default
/// model's estimate for each definition's text.
pub fn estimate_tool_tokens(tool_text_tokens: &[u32]) -> (n: u32)
    requires
        tool_tokens_total(tool_text_tokens@) <= u32::MAX,
    ensures
        n == tool_tokens_total(tool_text_tokens@),
{
    estimate_tool_tokens_for_model(tool_text_tokens)
}

/// Tokens occupied by tool definitions in a request, given the model's
/// estimate for each definition's text: each definition costs its text's
/// tokens plus ten.
pub fn estimate_tool_tokens_for_model(tool_text_tokens: &[u32]) -> (n: u32)
    requires
        tool_tokens_total(tool_text_tokens@) <= u32::MAX,
    ensures
        n == tool_tokens_total(tool_text_tokens@),
{
    let mut total: u32 = 0;
    let mut i: usize = 0;
    while i < tool_text_tokens.len()
        invariant
            i <= tool_text_tokens.len(),
            tool_tokens_total(tool_text_tokens@) <= u32::MAX,
            total == tool_tokens_total(tool_text_tokens@.take(i as int)),
        decreases tool_text_tokens.len() - i,
    {
        proof {
            assert(tool_text_tokens@.take(i + 1).drop_last() =~= tool_text_tokens@.take(i as int));
            lemma_tool_tokens_total_prefix(tool_text_tokens@, i + 1);
        }
        total = total + tool_text_tokens[i] + 10;
        i = i + 1;
    }
    assert(tool_text_tokens@.take(i as int) =~= tool_text_tokens@);
    total
}

/// When a text is over its byte budget and the budget leaves room for content
/// beside the marker, the result is a prefix of the text followed by the
/// marker. With `k` the number of characters that fit (the longest prefix
/// within the budget less the marker's bytes), the prefix ends at the last
/// line break among those `k` characters, else at the last space among them,
/// else it is all `k` of them: a text without line breaks or spaces keeps its
/// longest fitting prefix.
pub proof fn law_capped_text_cuts_at_the_last_break_that_fits(
    text: Seq<char>,
    max_chars: nat,
    marker: Seq<char>,
    k: int,
)
    requires
        byte_len(text) > max_chars,
        byte_len(marker) < max_chars,
        0 <= k < text.len(),
        byte_len(text.take(k)) <= max_chars - byte_len(marker),
        max_chars - byte_len(marker) < byte_len(text.take(k + 1)),
    ensures
        (forall|l: int| 0 <= l < k ==> text[l] != '\n' && text[l] != ' ') ==> capped_text(
            text,
            max_chars,
            marker,
        ) == text.take(k) + marker,
        forall|j: int|
            0 <= j < k && #[trigger] text[j] == '\n' && (forall|l: int|
                j < l < k ==> text[l] != '\n') ==> capped_text(text, max_chars, marker)
                == text.take(j) + marker,
        forall|j: int|
            0 <= j < k && #[trigger] text[j] == ' ' && (forall|l: int|
                0 <= l < k ==> text[l] != '\n') && (forall|l: int| j < l < k ==> text[l] != ' ')
                ==> capped_text(text, max_chars, marker) == text.take(j) + marker,
        byte_len(capped_text(text, max_chars, marker)) <= max_chars,
{
    let limit = (max_chars - byte_len(marker)) as nat;
    assert(min_nat(byte_len(marker), max_chars) == byte_len(marker));
    lemma_fitting_is(text, limit, 0, k);
    let prefix = text.take(k);
    lemma_last_index_bounds(prefix, '\n');
    lemma_last_index_bounds(prefix, ' ');
    let cut = match last_index_of(prefix, '\n') {
        Some(j) => j,
        None => match last_index_of(prefix, ' ') {
            Some(j) => j,
            None => k,
        },
    };
    assert(capped_text(text, max_chars, marker) == text.take(cut) + marker);
    lemma_byte_len_prefix_mono(text, cut, k);
    lemma_byte_len_concat(text.take(cut), marker);
    if forall|l: int| 0 <= l < k ==> text[l] != '\n' && text[l] != ' ' {
        assert forall|l: int| 0 <= l < prefix.len() implies prefix[l] != '\n' by {
            assert(prefix[l] == text[l]);
        }
        assert forall|l: int| 0 <= l < prefix.len() implies prefix[l] != ' ' by {
            assert(prefix[l] == text[l]);
        }
        lemma_last_index_absent(prefix, '\n');
        lemma_last_index_absent(prefix, ' ');
    }
    assert forall|j: int|
        0 <= j < k && #[trigger] text[j] == '\n' && (forall|l: int| j < l < k ==> text[l] != '\n')
            implies capped_text(text, max_chars, marker) == text.take(j) + marker by {
        assert forall|l: int| j < l < prefix.len() implies prefix[l] != '\n' by {
            assert(prefix[l] == text[l]);
        }
        lemma_last_index_is(prefix, '\n', j);
    }
    assert forall|j: int|
        0 <= j < k && #[trigger] text[j] == ' ' && (forall|l: int| 0 <= l < k ==> text[l] != '\n')
            && (forall|l: int| j < l < k ==> text[l] != ' ') implies capped_text(
            text,
            max_chars,
            marker,
        ) == text.take(j) + marker by {
        assert forall|l: int| 0 <= l < prefix.len() implies prefix[l] != '\n' by {
            assert(prefix[l] == text[l]);
        }
        assert forall|l: int| j < l < prefix.len() implies prefix[l] != ' ' by {
            assert(prefix[l] == text[l]);
        }
        lemma_last_index_absent(prefix, '\n');
        lemma_last_index_is(prefix, ' ', j);
    }
}

/// A text within its byte budget is kept whole.
pub proof fn law_text_within_budget_is_kept(text: Seq<char>, max_chars: nat, marker: Seq<char>)
    requires
        byte_len(text) <= max_chars,
    ensures
        capped_text(text, max_chars, marker) == text,
{
}

} // verus!
