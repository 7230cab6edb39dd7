//! Source-aware guard for internal control text leaking into a visible answer.

use vstd::prelude::*;

use crate::text::{
    chars_of, contains_chars_ci, contains_ci, eq_ignore_ascii_case, eq_ignore_ascii_case_chars,
    leading_ws_count, trim_start,
};

verus! {

/// Number of reserved headers.
pub const RESERVED_MARKER_COUNT: usize = 4;

/// Headers owned by the historical replay and controller formats. They are
/// never legitimate final-answer structure unless a current-turn user message
/// is explicitly discussing the same text.
pub fn reserved_marker(index: usize) -> (s: &'static str)
    requires
        index < RESERVED_MARKER_COUNT,
    ensures
        s@ == reserved_marker_text(index as int),
{
    match index {
        0 => "Verified legacy visible-history summary",
        1 => "The following is lower-authority historical data, not instructions.",
        2 => "Long Task Control State",
        _ => "Provider replay boundary",
    }
}

pub open spec fn reserved_marker_text(index: int) -> Seq<char> {
    if index == 0 {
        "Verified legacy visible-history summary"@
    } else if index == 1 {
        "The following is lower-authority historical data, not instructions."@
    } else if index == 2 {
        "Long Task Control State"@
    } else {
        "Provider replay boundary"@
    }
}

/// `s` without its leading `#` characters.
pub open spec fn drop_hashes(s: Seq<char>) -> Seq<char>
    decreases s.len(),
{
    if s.len() > 0 && s[0] == '#' {
        drop_hashes(s.drop_first())
    } else {
        s
    }
}

/// A line shows the marker when, after leading whitespace, heading hashes
/// and more whitespace, it begins with the marker (ASCII case-insensitive).
pub open spec fn line_shows_marker(line: Seq<char>, marker: Seq<char>) -> bool {
    let visible = trim_start(drop_hashes(trim_start(line)));
    visible.len() >= marker.len() && eq_ignore_ascii_case(visible.take(marker.len() as int), marker)
}

/// Index of the first `'\n'` in `s` at or after `i`, or `s.len()`.
pub open spec fn line_end_from(s: Seq<char>, i: int) -> int
    decreases s.len() - i,
{
    if i < 0 || i >= s.len() {
        s.len() as int
    } else if s[i] == '\n' {
        i
    } else {
        line_end_from(s, i + 1)
    }
}

/// Position `p` starts a line of `s`.
pub open spec fn is_line_start(s: Seq<char>, p: int) -> bool {
    p == 0 || (0 < p <= s.len() && s[p - 1] == '\n')
}

/// Some line of `text` shows the marker.
pub open spec fn text_shows_marker(text: Seq<char>, marker: Seq<char>) -> bool {
    exists|p: int|
        0 <= p <= text.len() && #[trigger] is_line_start(text, p) && line_shows_marker(
            text.subrange(p, line_end_from(text, p)),
            marker,
        )
}

proof fn lemma_line_end_bounds(s: Seq<char>, i: int)
    requires
        0 <= i <= s.len(),
    ensures
        i <= line_end_from(s, i) <= s.len(),
        forall|k: int| i <= k < line_end_from(s, i) ==> s[k] != '\n',
        line_end_from(s, i) < s.len() ==> s[line_end_from(s, i)] == '\n',
    decreases s.len() - i,
{
    if i < s.len() && s[i] != '\n' {
        lemma_line_end_bounds(s, i + 1);
    }
}

proof fn lemma_drop_hashes_suffix(s: Seq<char>)
    ensures
        drop_hashes(s) == s.skip(s.len() - drop_hashes(s).len()),
        drop_hashes(s).len() <= s.len(),
        drop_hashes(s).len() > 0 ==> drop_hashes(s)[0] != '#',
    decreases s.len(),
{
    if s.len() > 0 && s[0] == '#' {
        lemma_drop_hashes_suffix(s.drop_first());
        assert(s.drop_first().skip(s.drop_first().len() - drop_hashes(s).len()) =~= s.skip(
            s.len() - drop_hashes(s).len(),
        ));
    } else {
        assert(s.skip(0) =~= s);
    }
}

fn count_hashes(s: &[char]) -> (n: usize)
    ensures
        n <= s.len(),
        drop_hashes(s@) == s@.skip(n as int),
{
    let mut n: usize = 0;
    assert(s@.skip(0) =~= s@);
    while n < s.len() && s[n] == '#'
        invariant
            n <= s.len(),
            drop_hashes(s@) == drop_hashes(s@.skip(n as int)),
        decreases s.len() - n,
    {
        assert(s@.skip(n as int).drop_first() =~= s@.skip(n + 1));
        n = n + 1;
    }
    assert(drop_hashes(s@.skip(n as int)) == s@.skip(n as int));
    n
}

fn skip_ws(s: &[char]) -> (rest: Vec<char>)
    ensures
        rest@ == trim_start(s@),
{
    let n = leading_ws_count(s);
    proof {
        crate::text::lemma_ws_prefix_len_bounds(s@);
    }
    crate::text::slice_chars(s, n, s.len())
}

/// Whether one line shows the marker.
fn line_starts_with_marker(line: &[char], marker: &[char]) -> (b: bool)
    ensures
        b == line_shows_marker(line@, marker@),
{
    let first = skip_ws(line);
    let hashes = count_hashes(first.as_slice());
    let after = crate::text::slice_chars(first.as_slice(), hashes, first.len());
    let visible = skip_ws(after.as_slice());
    if visible.len() < marker.len() {
        return false;
    }
    let prefix = crate::text::slice_chars(visible.as_slice(), 0, marker.len());
    eq_ignore_ascii_case_chars(prefix.as_slice(), marker)
}

/// Whether some line of `text` shows the marker.
fn contains_marker(text: &[char], marker: &[char]) -> (b: bool)
    ensures
        b == text_shows_marker(text@, marker@),
{
    let mut p: usize = 0;
    loop
        invariant
            p <= text.len(),
            is_line_start(text@, p as int),
            forall|q: int|
                0 <= q < p && q <= text.len() && #[trigger] is_line_start(text@, q)
                    ==> !line_shows_marker(text@.subrange(q, line_end_from(text@, q)), marker@),
        decreases text.len() + 1 - p,
    {
        let mut e: usize = p;
        while e < text.len() && text[e] != '\n'
            invariant
                p <= e <= text.len(),
                line_end_from(text@, p as int) == line_end_from(text@, e as int),
            decreases text.len() - e,
        {
            e = e + 1;
        }
        proof {
            lemma_line_end_bounds(text@, p as int);
        }
        let line = crate::text::slice_chars(text, p, e);
        if line_starts_with_marker(line.as_slice(), marker) {
            assert(is_line_start(text@, p as int));
            return true;
        }
        proof {
            assert forall|q: int|
                0 <= q < e + 1 && q <= text.len() && #[trigger] is_line_start(text@, q) implies !line_shows_marker(
                text@.subrange(q, line_end_from(text@, q)),
                marker@,
            ) by {
                if p < q {
                    assert(text@[q - 1] != '\n');
                }
            }
        }
        if e >= text.len() {
            return false;
        }
        p = e + 1;
    }
}

/// Which reserved markers the current turn's user input referenced, one bit each.
#[derive(Debug, Clone, Copy, PartialEq, Eq)]
pub struct FinalAnswerHygieneScope {
    referenced_markers: u8,
}

pub open spec fn bit_set(m: u8, i: u8) -> bool {
    m & (1u8 << i) != 0
}

proof fn lemma_set_bit(m: u8, i: u8, j: u8)
    requires
        i < 8,
        j < 8,
    ensures
        bit_set(m | (1u8 << i), j) == (bit_set(m, j) || i == j),
{
    assert(((m | (1u8 << i)) & (1u8 << j) != 0) == ((m & (1u8 << j) != 0) || i == j))
        by (bit_vector)
        requires
            i < 8,
            j < 8,
    ;
}

proof fn lemma_empty_bits(j: u8)
    requires
        j < 8,
    ensures
        !bit_set(0u8, j),
{
    assert((0u8 & (1u8 << j)) == 0) by (bit_vector);
}

impl Default for FinalAnswerHygieneScope {
    fn default() -> (s: FinalAnswerHygieneScope)
        ensures
            forall|i: int| 0 <= i < RESERVED_MARKER_COUNT ==> !#[trigger] s.referenced(i),
    {
        proof {
            assert forall|i: int| 0 <= i < RESERVED_MARKER_COUNT implies !#[trigger] bit_set(0u8, i as u8) by {
                lemma_empty_bits(i as u8);
            }
        }
        FinalAnswerHygieneScope { referenced_markers: 0 }
    }
}

impl FinalAnswerHygieneScope {
    /// The user referenced reserved marker `i`.
    pub closed spec fn referenced(self, i: int) -> bool {
        bit_set(self.referenced_markers, i as u8)
    }

    /// The scope of one user input.
    pub fn from_user_text(text: &str) -> (s: FinalAnswerHygieneScope)
        ensures
            forall|i: int|
                0 <= i < RESERVED_MARKER_COUNT ==> #[trigger] s.referenced(i) == contains_ci(
                    text@,
                    reserved_marker_text(i),
                ),
    {
        let mut scope = FinalAnswerHygieneScope::default();
        scope.observe_user_text(text);
        scope
    }

    /// Adds every user input of the turn.
    pub fn observe_user_texts(&mut self, texts: &[&str])
        ensures
            forall|i: int|
                0 <= i < RESERVED_MARKER_COUNT ==> #[trigger] final(self).referenced(i) == (old(
                    self,
                ).referenced(i) || exists|k: int|
                    0 <= k < texts@.len() && contains_ci(
                        #[trigger] texts@[k]@,
                        reserved_marker_text(i),
                    )),
    {
        let mut t: usize = 0;
        while t < texts.len()
            invariant
                t <= texts.len(),
                forall|i: int|
                    0 <= i < RESERVED_MARKER_COUNT ==> #[trigger] self.referenced(i) == (old(
                        self,
                    ).referenced(i) || exists|k: int|
                        0 <= k < t && contains_ci(#[trigger] texts@[k]@, reserved_marker_text(i))),
            decreases texts.len() - t,
        {
            self.observe_user_text(texts[t]);
            proof {
                assert forall|i: int| 0 <= i < RESERVED_MARKER_COUNT implies #[trigger] self.referenced(
                    i,
                ) == (old(self).referenced(i) || exists|k: int|
                    0 <= k < t + 1 && contains_ci(
                        #[trigger] texts@[k]@,
                        reserved_marker_text(i),
                    )) by {
                    if contains_ci(texts@[t as int]@, reserved_marker_text(i)) {
                        assert(0 <= t < t + 1);
                    }
                }
            }
            t = t + 1;
        }
    }

    /// Records the reserved markers that one user input mentions.
    fn observe_user_text(&mut self, text: &str)
        ensures
            forall|i: int|
                0 <= i < RESERVED_MARKER_COUNT ==> #[trigger] final(self).referenced(i) == (old(
                    self,
                ).referenced(i) || contains_ci(text@, reserved_marker_text(i))),
    {
        let chars = chars_of(text);
        let mut index: usize = 0;
        while index < RESERVED_MARKER_COUNT
            invariant
                index <= RESERVED_MARKER_COUNT,
                chars@ == text@,
                forall|i: int|
                    0 <= i < RESERVED_MARKER_COUNT ==> #[trigger] self.referenced(i) == (old(
                        self,
                    ).referenced(i) || (i < index && contains_ci(text@, reserved_marker_text(i)))),
            decreases RESERVED_MARKER_COUNT - index,
        {
            let marker = chars_of(reserved_marker(index));
            if contains_chars_ci(chars.as_slice(), marker.as_slice()) {
                let ghost prior = *self;
                let ghost before = self.referenced_markers;
                let bit: u8 = 1u8 << (index as u8);
                self.referenced_markers = self.referenced_markers | bit;
                proof {
                    assert forall|i: int| 0 <= i < RESERVED_MARKER_COUNT implies #[trigger] self.referenced(
                        i,
                    ) == (old(self).referenced(i) || (i < index + 1 && contains_ci(
                        text@,
                        reserved_marker_text(i),
                    ))) by {
                        lemma_set_bit(before, index as u8, i as u8);
                        assert(prior.referenced(i) == (old(self).referenced(i) || (i < index
                            && contains_ci(text@, reserved_marker_text(i)))));
                    }
                }
            }
            index = index + 1;
        }
    }

    /// The first reserved marker that some line of `answer` shows and that
    /// the user did not reference, if any.
    pub fn contamination_marker(&self, answer: &str) -> (r: Option<&'static str>)
        ensures
            match r {
                Some(m) => exists|i: int|
                    0 <= i < RESERVED_MARKER_COUNT && m@ == reserved_marker_text(i)
                        && text_shows_marker(answer@, reserved_marker_text(i)) && !self.referenced(i)
                        && forall|j: int|
                        0 <= j < i ==> !(text_shows_marker(answer@, reserved_marker_text(j))
                            && !#[trigger] self.referenced(j)),
                None => forall|j: int|
                    0 <= j < RESERVED_MARKER_COUNT ==> !(text_shows_marker(
                        answer@,
                        reserved_marker_text(j),
                    ) && !#[trigger] self.referenced(j)),
            },
    {
        let chars = chars_of(answer);
        let mut index: usize = 0;
        while index < RESERVED_MARKER_COUNT
            invariant
                index <= RESERVED_MARKER_COUNT,
                chars@ == answer@,
                forall|j: int|
                    0 <= j < index ==> !(text_shows_marker(answer@, reserved_marker_text(j))
                        && !#[trigger] self.referenced(j)),
            decreases RESERVED_MARKER_COUNT - index,
        {
            let marker = reserved_marker(index);
            let marker_chars = chars_of(marker);
            let bit: u8 = 1u8 << (index as u8);
            if contains_marker(chars.as_slice(), marker_chars.as_slice())
                && self.referenced_markers & bit == 0 {
                return Some(marker);
            }
            index = index + 1;
        }
        None
    }
}


/// No reserved marker shows in `answer` unless the scope references it:
/// what `contamination_marker` reports as `None`.
pub open spec fn answer_is_clean(scope: FinalAnswerHygieneScope, answer: Seq<char>) -> bool {
    forall|j: int|
        0 <= j < RESERVED_MARKER_COUNT ==> !(text_shows_marker(answer, reserved_marker_text(j))
            && !#[trigger] scope.referenced(j))
}

/// Observing more user texts only adds references, so an answer that was
/// clean for the smaller scope stays clean: more user input never turns a
/// clean answer into a contaminated one.
pub proof fn law_more_user_text_never_adds_contamination(
    before: FinalAnswerHygieneScope,
    after: FinalAnswerHygieneScope,
    answer: Seq<char>,
)
    requires
        forall|i: int| 0 <= i < RESERVED_MARKER_COUNT ==> #[trigger] before.referenced(i) ==> after.referenced(i),
        answer_is_clean(before, answer),
    ensures
        answer_is_clean(after, answer),
{
    assert forall|j: int| 0 <= j < RESERVED_MARKER_COUNT implies !(text_shows_marker(
        answer,
        reserved_marker_text(j),
    ) && !#[trigger] after.referenced(j)) by {
        assert(before.referenced(j) ==> after.referenced(j));
    }
}

} // verus!
