//! Direct dispatch: clear, unambiguous commands ("list sources", "ls <dir>",
//! "list files in <source>") that are answered by one tool call without
//! asking the model. Anything vague or conversational falls through.

use vstd::prelude::*;

use crate::events::ToolRunStatus;
use crate::llm::{Message, Role};
use crate::stream_recovery::{to_lowercase, unicode_lowercase};
use crate::text::{json_string_literal, chars_of, contains_chars, contains_seq, ends_with, string_of, trim, trim_chars};

verus! {

/// The tool call a direct command maps to.
#[derive(Debug, Clone, PartialEq, Eq)]
pub struct DirectDispatch {
    pub tool_name: String,
    pub arguments: String,
}

/// A source the user can name: its id and root path.
#[derive(Debug, Clone, PartialEq, Eq)]
pub struct SourceRef {
    pub id: String,
    pub root_path: String,
}

/// What a user message asks for, before any source lookup.
#[derive(Debug, Clone, PartialEq, Eq)]
pub enum DirectRequest {
    Dispatch(DirectDispatch),
    /// Documents of the source with this name (or id, or path fragment).
    SourceDocuments(String),
    NotDirect,
}

/// `serde_json::to_string` of a string: its JSON string literal. Serializing
/// a `str` into the `Vec` that `to_string` writes to cannot fail, so the
/// result is always `Some`.
#[verifier::external_body]
fn json_quote(s: &str) -> (r: Option<String>)
    ensures
        r is Some,
        r.unwrap()@ == json_string_literal(s@),
{
    serde_json::to_string(s).ok()
}

/// `s` without the prefix, if it starts with it.
pub open spec fn strip_prefix(s: Seq<char>, p: Seq<char>) -> Option<Seq<char>> {
    if s.len() >= p.len() && s.take(p.len() as int) == p {
        Some(s.skip(p.len() as int))
    } else {
        None
    }
}

/// `s` without the suffix, if it ends with it.
pub open spec fn strip_suffix(s: Seq<char>, p: Seq<char>) -> Option<Seq<char>> {
    if s.len() >= p.len() && s.skip(s.len() - p.len()) == p {
        Some(s.take(s.len() - p.len()))
    } else {
        None
    }
}

pub open spec fn or_self(o: Option<Seq<char>>, s: Seq<char>) -> Seq<char> {
    match o {
        Some(t) => t,
        None => s,
    }
}

/// Sentence-ending punctuation dropped from the end of a command.
pub open spec fn is_end_punct(c: char) -> bool {
    c == '.' || c == '?' || c == '!' || c == '\u{3002}' || c == '\u{ff1f}' || c == '\u{ff01}'
}

/// `s` without trailing sentence-ending punctuation.
pub open spec fn trim_end_punct(s: Seq<char>) -> Seq<char>
    decreases s.len(),
{
    if s.len() > 0 && is_end_punct(s.last()) {
        trim_end_punct(s.drop_last())
    } else {
        s
    }
}

/// `s` without the character `c` repeated at either end.
pub open spec fn trim_char(s: Seq<char>, c: char) -> Seq<char>
    decreases s.len(),
{
    if s.len() > 0 && s[0] == c {
        trim_char(s.drop_first(), c)
    } else if s.len() > 0 && s.last() == c {
        trim_char(s.drop_last(), c)
    } else {
        s
    }
}

/// The command text: lower-cased, trimmed, without trailing punctuation and
/// without one polite "please"/"can you"/"could you"/"请".
pub open spec fn normalized_command(text: Seq<char>) -> Seq<char> {
    let q = trim(trim_end_punct(unicode_lowercase(trim(text))));
    let q = or_self(strip_prefix(q, "please "@), q);
    let q = or_self(strip_prefix(q, "can you "@), q);
    let q = or_self(strip_prefix(q, "could you "@), q);
    let q = or_self(strip_suffix(q, " please"@), q);
    or_self(strip_prefix(q, "\u{8BF7}"@), q)
}

pub open spec fn list_sources_phrase(i: int) -> Seq<char> {
    if i == 0 {
        "list sources"@
    } else if i == 1 {
        "list my sources"@
    } else if i == 2 {
        "show sources"@
    } else if i == 3 {
        "show my sources"@
    } else if i == 4 {
        "show all sources"@
    } else if i == 5 {
        "what sources do i have"@
    } else if i == 6 {
        "what are my sources"@
    } else if i == 7 {
        "\u{663E}\u{793A}\u{6570}\u{636E}\u{6E90}"@
    } else if i == 8 {
        "\u{5217}\u{51FA}\u{6570}\u{636E}\u{6E90}"@
    } else if i == 9 {
        "\u{67E5}\u{770B}\u{6570}\u{636E}\u{6E90}"@
    } else if i == 10 {
        "\u{6570}\u{636E}\u{6E90}\u{5217}\u{8868}"@
    } else if i == 11 {
        "\u{30BD}\u{30FC}\u{30B9}\u{4E00}\u{89A7}"@
    } else {
        "\u{30BD}\u{30FC}\u{30B9}\u{3092}\u{8868}\u{793A}"@
    }
}

pub const LIST_SOURCES_COUNT: usize = 13;

fn list_sources_phrase_str(i: usize) -> (s: &'static str)
    requires
        i < LIST_SOURCES_COUNT,
    ensures
        s@ == list_sources_phrase(i as int),
{
    match i {
        0 => "list sources",
        1 => "list my sources",
        2 => "show sources",
        3 => "show my sources",
        4 => "show all sources",
        5 => "what sources do i have",
        6 => "what are my sources",
        7 => "\u{663E}\u{793A}\u{6570}\u{636E}\u{6E90}",
        8 => "\u{5217}\u{51FA}\u{6570}\u{636E}\u{6E90}",
        9 => "\u{67E5}\u{770B}\u{6570}\u{636E}\u{6E90}",
        10 => "\u{6570}\u{636E}\u{6E90}\u{5217}\u{8868}",
        11 => "\u{30BD}\u{30FC}\u{30B9}\u{4E00}\u{89A7}",
        _ => "\u{30BD}\u{30FC}\u{30B9}\u{3092}\u{8868}\u{793A}",
    }
}

pub open spec fn list_playbooks_phrase(i: int) -> Seq<char> {
    if i == 0 {
        "list playbooks"@
    } else if i == 1 {
        "list my playbooks"@
    } else if i == 2 {
        "show playbooks"@
    } else if i == 3 {
        "show my playbooks"@
    } else if i == 4 {
        "what playbooks do i have"@
    } else if i == 5 {
        "what are my playbooks"@
    } else if i == 6 {
        "\u{663E}\u{793A}\u{5267}\u{672C}"@
    } else if i == 7 {
        "\u{5217}\u{51FA}\u{5267}\u{672C}"@
    } else if i == 8 {
        "\u{67E5}\u{770B}\u{5267}\u{672C}"@
    } else if i == 9 {
        "\u{5267}\u{672C}\u{5217}\u{8868}"@
    } else {
        "\u{30D7}\u{30EC}\u{30A4}\u{30D6}\u{30C3}\u{30AF}\u{4E00}\u{89A7}"@
    }
}

pub const LIST_PLAYBOOKS_COUNT: usize = 11;

fn list_playbooks_phrase_str(i: usize) -> (s: &'static str)
    requires
        i < LIST_PLAYBOOKS_COUNT,
    ensures
        s@ == list_playbooks_phrase(i as int),
{
    match i {
        0 => "list playbooks",
        1 => "list my playbooks",
        2 => "show playbooks",
        3 => "show my playbooks",
        4 => "what playbooks do i have",
        5 => "what are my playbooks",
        6 => "\u{663E}\u{793A}\u{5267}\u{672C}",
        7 => "\u{5217}\u{51FA}\u{5267}\u{672C}",
        8 => "\u{67E5}\u{770B}\u{5267}\u{672C}",
        9 => "\u{5267}\u{672C}\u{5217}\u{8868}",
        _ => "\u{30D7}\u{30EC}\u{30A4}\u{30D6}\u{30C3}\u{30AF}\u{4E00}\u{89A7}",
    }
}

/// The argument after a directory command.
pub open spec fn directory_argument(q: Seq<char>) -> Option<Seq<char>> {
    if strip_prefix(q, "ls "@) is Some {
        strip_prefix(q, "ls "@)
    } else if strip_prefix(q, "dir "@) is Some {
        strip_prefix(q, "dir "@)
    } else if strip_prefix(q, "browse "@) is Some {
        strip_prefix(q, "browse "@)
    } else if strip_prefix(q, "list directory "@) is Some {
        strip_prefix(q, "list directory "@)
    } else {
        strip_prefix(q, "list dir "@)
    }
}

/// The source named by a "files in <source>" command.
pub open spec fn source_argument(q: Seq<char>) -> Option<Seq<char>> {
    if strip_prefix(q, "list files in "@) is Some {
        strip_prefix(q, "list files in "@)
    } else if strip_prefix(q, "show files in "@) is Some {
        strip_prefix(q, "show files in "@)
    } else if strip_prefix(q, "list documents in "@) is Some {
        strip_prefix(q, "list documents in "@)
    } else if strip_prefix(q, "show documents in "@) is Some {
        strip_prefix(q, "show documents in "@)
    } else if strip_suffix(q, "\u{91CC}\u{7684}\u{6587}\u{4EF6}"@) is Some {
        strip_suffix(q, "\u{91CC}\u{7684}\u{6587}\u{4EF6}"@)
    } else {
        strip_suffix(q, "\u{306E}\u{30D5}\u{30A1}\u{30A4}\u{30EB}"@)
    }
}

/// An argument trimmed of whitespace and of surrounding quotes.
pub open spec fn clean_argument(a: Seq<char>) -> Seq<char> {
    trim_char(trim_char(trim(a), '"'), '\'')
}

/// The classification of a command, given what serde_json makes of a
/// directory argument.
pub open spec fn classify_spec(text: Seq<char>) -> DirectRequestView {
    let q = normalized_command(text);
    if exists|i: int| 0 <= i < LIST_SOURCES_COUNT && q == #[trigger] list_sources_phrase(i) {
        DirectRequestView::ListSources
    } else if exists|i: int|
        0 <= i < LIST_PLAYBOOKS_COUNT && q == #[trigger] list_playbooks_phrase(i) {
        DirectRequestView::ListPlaybooks
    } else {
        let dir = match directory_argument(q) {
            Some(a) => clean_argument(a),
            None => Seq::empty(),
        };
        let src = match source_argument(q) {
            Some(a) => clean_argument(a),
            None => Seq::empty(),
        };
        if dir.len() > 0 {
            DirectRequestView::ListDirectory(dir)
        } else if src.len() > 0 {
            DirectRequestView::SourceDocuments(src)
        } else {
            DirectRequestView::NotDirect
        }
    }
}

/// What a command asks for, abstractly.
pub enum DirectRequestView {
    ListSources,
    ListPlaybooks,
    ListDirectory(Seq<char>),
    SourceDocuments(Seq<char>),
    NotDirect,
}

fn strip_prefix_chars(s: &[char], p: &str) -> (r: Option<Vec<char>>)
    ensures
        match r {
            Some(t) => strip_prefix(s@, p@) == Some(t@),
            None => strip_prefix(s@, p@) is None,
        },
{
    let pc = chars_of(p);
    if pc.len() <= s.len() && crate::text::starts_with_chars(s, pc.as_slice()) {
        assert(s@.take(pc.len() as int) =~= s@.subrange(0, pc.len() as int));
        let t = crate::text::slice_chars(s, pc.len(), s.len());
        assert(t@ =~= s@.skip(pc.len() as int));
        Some(t)
    } else {
        proof {
            if s@.len() >= pc@.len() && s@.take(pc@.len() as int) == pc@ {
                assert(s@.subrange(0, pc@.len() as int) =~= s@.take(pc@.len() as int));
            }
        }
        None
    }
}

fn strip_suffix_chars(s: &[char], p: &str) -> (r: Option<Vec<char>>)
    ensures
        match r {
            Some(t) => strip_suffix(s@, p@) == Some(t@),
            None => strip_suffix(s@, p@) is None,
        },
{
    let pc = chars_of(p);
    if pc.len() <= s.len() {
        let start = s.len() - pc.len();
        if crate::text::matches_at(s, pc.as_slice(), start) {
            assert(s@.skip(start as int) =~= s@.subrange(start as int, start + pc.len()));
            let t = crate::text::slice_chars(s, 0, start);
            assert(t@ =~= s@.take(start as int));
            return Some(t);
        }
        proof {
            if s@.skip(start as int) == pc@ {
                assert(s@.subrange(start as int, start + pc.len()) =~= s@.skip(start as int));
            }
        }
    }
    None
}

fn or_self_chars(o: Option<Vec<char>>, s: Vec<char>) -> (r: Vec<char>)
    ensures
        r@ == or_self(
            match o {
                Some(t) => Some(t@),
                None => None,
            },
            s@,
        ),
{
    match o {
        Some(t) => t,
        None => s,
    }
}

fn trim_end_punct_chars(s: &[char]) -> (r: Vec<char>)
    ensures
        r@ == trim_end_punct(s@),
{
    let mut k: usize = s.len();
    assert(s@.take(s.len() as int) =~= s@);
    while k > 0 && (s[k - 1] == '.' || s[k - 1] == '?' || s[k - 1] == '!' || s[k - 1] == '\u{3002}'
        || s[k - 1] == '\u{ff1f}' || s[k - 1] == '\u{ff01}')
        invariant
            k <= s.len(),
            trim_end_punct(s@) == trim_end_punct(s@.take(k as int)),
        decreases k,
    {
        assert(s@.take(k as int).drop_last() =~= s@.take(k - 1));
        k = k - 1;
    }
    crate::text::slice_chars(s, 0, k)
}

fn trim_char_chars(s: &[char], c: char) -> (r: Vec<char>)
    ensures
        r@ == trim_char(s@, c),
{
    let mut a: usize = 0;
    let mut b: usize = s.len();
    assert(s@.subrange(0, s.len() as int) =~= s@);
    while a < b && s[a] == c
        invariant
            a <= b <= s.len(),
            b == s.len(),
            trim_char(s@, c) == trim_char(s@.subrange(a as int, b as int), c),
        decreases b - a,
    {
        assert(s@.subrange(a as int, b as int).drop_first() =~= s@.subrange(a + 1, b as int));
        a = a + 1;
    }
    while a < b && s[b - 1] == c
        invariant
            a <= b <= s.len(),
            trim_char(s@, c) == trim_char(s@.subrange(a as int, b as int), c),
            a < b ==> s@[a as int] != c,
        decreases b - a,
    {
        assert(s@.subrange(a as int, b as int).drop_last() =~= s@.subrange(a as int, b - 1));
        a = a;
        b = b - 1;
    }
    crate::text::slice_chars(s, a, b)
}

/// The normalized command text.
pub fn normalize_command(user_text: &str) -> (r: Vec<char>)
    ensures
        r@ == normalized_command(user_text@),
{
    let chars = chars_of(user_text);
    let t = trim_chars(chars.as_slice());
    let ts = string_of(t.as_slice());
    let lowered = to_lowercase(ts.as_str());
    let lc = chars_of(lowered.as_str());
    let np = trim_end_punct_chars(lc.as_slice());
    let q = trim_chars(np.as_slice());
    let q = or_self_chars(strip_prefix_chars(q.as_slice(), "please "), q);
    let q = or_self_chars(strip_prefix_chars(q.as_slice(), "can you "), q);
    let q = or_self_chars(strip_prefix_chars(q.as_slice(), "could you "), q);
    let q = or_self_chars(strip_suffix_chars(q.as_slice(), " please"), q);
    let qq = strip_prefix_chars(q.as_slice(), "\u{8BF7}");
    or_self_chars(qq, q)
}

fn in_list_sources(q: &[char]) -> (b: bool)
    ensures
        b == exists|i: int| 0 <= i < LIST_SOURCES_COUNT && q@ == #[trigger] list_sources_phrase(i),
{
    let mut i: usize = 0;
    while i < LIST_SOURCES_COUNT
        invariant
            i <= LIST_SOURCES_COUNT,
            forall|k: int| 0 <= k < i ==> q@ != #[trigger] list_sources_phrase(k),
        decreases LIST_SOURCES_COUNT - i,
    {
        let p = chars_of(list_sources_phrase_str(i));
        if crate::text::chars_eq(q, p.as_slice()) {
            return true;
        }
        i = i + 1;
    }
    false
}

fn in_list_playbooks(q: &[char]) -> (b: bool)
    ensures
        b == exists|i: int|
            0 <= i < LIST_PLAYBOOKS_COUNT && q@ == #[trigger] list_playbooks_phrase(i),
{
    let mut i: usize = 0;
    while i < LIST_PLAYBOOKS_COUNT
        invariant
            i <= LIST_PLAYBOOKS_COUNT,
            forall|k: int| 0 <= k < i ==> q@ != #[trigger] list_playbooks_phrase(k),
        decreases LIST_PLAYBOOKS_COUNT - i,
    {
        let p = chars_of(list_playbooks_phrase_str(i));
        if crate::text::chars_eq(q, p.as_slice()) {
            return true;
        }
        i = i + 1;
    }
    false
}

fn first_prefix(q: &[char], prefixes: &Vec<&'static str>) -> (r: Option<Vec<char>>)
    ensures
        match r {
            Some(t) => exists|i: int|
                0 <= i < prefixes.len() && strip_prefix(q@, prefixes@[i]@) == Some(t@) && forall|
                    k: int,
                | 0 <= k < i ==> strip_prefix(q@, #[trigger] prefixes@[k]@) is None,
            None => forall|k: int|
                0 <= k < prefixes.len() ==> strip_prefix(q@, #[trigger] prefixes@[k]@) is None,
        },
{
    let mut i: usize = 0;
    while i < prefixes.len()
        invariant
            i <= prefixes.len(),
            forall|k: int| 0 <= k < i ==> strip_prefix(q@, #[trigger] prefixes@[k]@) is None,
        decreases prefixes.len() - i,
    {
        match strip_prefix_chars(q, prefixes[i]) {
            Some(t) => {
                return Some(t);
            },
            None => {},
        }
        i = i + 1;
    }
    None
}

fn clean_argument_chars(a: &[char]) -> (r: Vec<char>)
    ensures
        r@ == clean_argument(a@),
{
    let t = trim_chars(a);
    let u = trim_char_chars(t.as_slice(), '"');
    trim_char_chars(u.as_slice(), '\'')
}

fn directory_argument_chars(q: &[char]) -> (r: Option<Vec<char>>)
    ensures
        match r {
            Some(t) => directory_argument(q@) == Some(t@),
            None => directory_argument(q@) is None,
        },
{
    let prefixes: Vec<&'static str> = vec!["ls ", "dir ", "browse ", "list directory ", "list dir "];
    let r = first_prefix(q, &prefixes);
    proof {
        assert(prefixes@[0]@ == "ls "@);
        assert(prefixes@[1]@ == "dir "@);
        assert(prefixes@[2]@ == "browse "@);
        assert(prefixes@[3]@ == "list directory "@);
        assert(prefixes@[4]@ == "list dir "@);
    }
    r
}

fn source_argument_chars(q: &[char]) -> (r: Option<Vec<char>>)
    ensures
        match r {
            Some(t) => source_argument(q@) == Some(t@),
            None => source_argument(q@) is None,
        },
{
    let prefixes: Vec<&'static str> = vec![
        "list files in ",
        "show files in ",
        "list documents in ",
        "show documents in ",
    ];
    let r = first_prefix(q, &prefixes);
    proof {
        assert(prefixes@[0]@ == "list files in "@);
        assert(prefixes@[1]@ == "show files in "@);
        assert(prefixes@[2]@ == "list documents in "@);
        assert(prefixes@[3]@ == "show documents in "@);
    }
    match r {
        Some(t) => Some(t),
        None => match strip_suffix_chars(q, "\u{91CC}\u{7684}\u{6587}\u{4EF6}") {
            Some(t) => Some(t),
            None => strip_suffix_chars(q, "\u{306E}\u{30D5}\u{30A1}\u{30A4}\u{30EB}"),
        },
    }
}

pub open spec fn dispatch_view(d: DirectDispatch) -> (Seq<char>, Seq<char>) {
    (d.tool_name@, d.arguments@)
}

/// What a direct request turns into, given serde_json's text for the
/// directory argument.
pub open spec fn request_matches(r: DirectRequest, text: Seq<char>) -> bool {
    match classify_spec(text) {
        DirectRequestView::ListSources => r matches DirectRequest::Dispatch(d) && dispatch_view(d)
            == ("list_sources"@, "{}"@),
        DirectRequestView::ListPlaybooks => r matches DirectRequest::Dispatch(d) && dispatch_view(d)
            == ("manage_playbook"@, "{\"action\":\"list\"}"@),
        DirectRequestView::ListDirectory(path) => r matches DirectRequest::Dispatch(d)
            && d.tool_name@ == "list_dir"@ && d.arguments@ == "{\"path\":"@ + json_string_literal(path)
            + "}"@,
        DirectRequestView::SourceDocuments(name) => r matches DirectRequest::SourceDocuments(n)
            && n@ == name,
        DirectRequestView::NotDirect => r matches DirectRequest::NotDirect,
    }
}

/// Classifies a user message as a direct command, if it is one.
pub fn classify_direct_request(user_text: &str) -> (r: DirectRequest)
    ensures
        request_matches(r, user_text@),
{
    let q = normalize_command(user_text);
    if in_list_sources(q.as_slice()) {
        return DirectRequest::Dispatch(
            DirectDispatch {
                tool_name: String::from_str("list_sources"),
                arguments: String::from_str("{}"),
            },
        );
    }
    if in_list_playbooks(q.as_slice()) {
        return DirectRequest::Dispatch(
            DirectDispatch {
                tool_name: String::from_str("manage_playbook"),
                arguments: String::from_str("{\"action\":\"list\"}"),
            },
        );
    }
    match directory_argument_chars(q.as_slice()) {
        Some(raw) => {
            let path = clean_argument_chars(raw.as_slice());
            if path.len() > 0 {
                assert(classify_spec(user_text@) == DirectRequestView::ListDirectory(path@));
                let path_text = string_of(path.as_slice());
                let mut arguments = String::new();
                arguments.append("{\"path\":");
                let ghost head = arguments@;
                let quoted_path = json_quote(path_text.as_str());
                match &quoted_path {
                    Some(escaped) => arguments.append(escaped.as_str()),
                    None => {
                        arguments.append("\"");
                        arguments.append(path_text.as_str());
                        arguments.append("\"");
                    },
                }
                arguments.append("}");
                proof {
                    assert(arguments@ =~= "{\"path\":"@ + json_string_literal(path@) + "}"@);
                }
                return DirectRequest::Dispatch(
                    DirectDispatch { tool_name: String::from_str("list_dir"), arguments },
                );
            }
        },
        None => {},
    }
    match source_argument_chars(q.as_slice()) {
        Some(raw) => {
            let name = clean_argument_chars(raw.as_slice());
            if name.len() > 0 {
                return DirectRequest::SourceDocuments(string_of(name.as_slice()));
            }
        },
        None => {},
    }
    DirectRequest::NotDirect
}

/// A source matches a name when the name is its id or occurs in its root
/// path (compared in lower case).
pub open spec fn source_matches(s: SourceRef, name: Seq<char>) -> bool {
    let root = unicode_lowercase(s.root_path@);
    let lower = unicode_lowercase(name);
    s.id@ == name || ends_with(root, lower) || contains_seq(root, lower)
}

/// The sources that match the name, in order.
pub open spec fn matching_sources(sources: Seq<SourceRef>, name: Seq<char>) -> Seq<SourceRef>
    decreases sources.len(),
{
    if sources.len() == 0 {
        Seq::empty()
    } else {
        let prev = matching_sources(sources.drop_last(), name);
        if source_matches(sources.last(), name) {
            prev.push(sources.last())
        } else {
            prev
        }
    }
}

/// The `list_documents` call for the one source that matches the name;
/// none when no source or several do.
pub fn dispatch_for_source(source_name: &str, sources: &[SourceRef]) -> (r: Option<DirectDispatch>)
    ensures
        match r {
            Some(d) => matching_sources(sources@, source_name@).len() == 1 && d.tool_name@
                == "list_documents"@ && {
                let id = matching_sources(sources@, source_name@)[0].id@;
                d.arguments@ == "{\"source_id\":"@ + json_string_literal(id) + "}"@
            },
            None => matching_sources(sources@, source_name@).len() != 1,
        },
{
    let lowered = to_lowercase(source_name);
    let name_lower = chars_of(lowered.as_str());
    let name_chars = chars_of(source_name);
    let mut found: Option<usize> = None;
    let mut count: usize = 0;
    let mut i: usize = 0;
    while i < sources.len()
        invariant
            i <= sources.len(),
            name_lower@ == unicode_lowercase(source_name@),
            name_chars@ == source_name@,
            count as nat == matching_sources(sources@.take(i as int), source_name@).len(),
            count <= i,
            match found {
                Some(k) => k < i && count >= 1 && matching_sources(
                    sources@.take(i as int),
                    source_name@,
                )[0] == sources@[k as int],
                None => count == 0,
            },
        decreases sources.len() - i,
    {
        let s = &sources[i];
        let root = to_lowercase(s.root_path.as_str());
        let root_chars = chars_of(root.as_str());
        let id_chars = chars_of(s.id.as_str());
        let tail_match = name_lower.len() <= root_chars.len() && crate::text::matches_at(
            root_chars.as_slice(),
            name_lower.as_slice(),
            root_chars.len() - name_lower.len(),
        );
        let is_match = crate::text::chars_eq(id_chars.as_slice(), name_chars.as_slice())
            || tail_match || contains_chars(root_chars.as_slice(), name_lower.as_slice());
        proof {
            assert(sources@.take(i + 1).drop_last() =~= sources@.take(i as int));
            assert(sources@.take(i + 1).last() == sources@[i as int]);
            assert(is_match == source_matches(sources@[i as int], source_name@));
        }
        if is_match {
            if found.is_none() {
                found = Some(i);
            }
            count = count + 1;
        }
        i = i + 1;
    }
    assert(sources@.take(sources.len() as int) =~= sources@);
    if count != 1 {
        return None;
    }
    match found {
        Some(k) => {
            let mut arguments = String::new();
            arguments.append("{\"source_id\":");
            match json_quote(sources[k].id.as_str()) {
                Some(id) => arguments.append(id.as_str()),
                None => {},
            }
            arguments.append("}");
            Some(
                DirectDispatch { tool_name: String::from_str("list_documents"), arguments },
            )
        },
        None => None,
    }
}

/// The `list_documents` call for the one source that matches `name`; none
/// when no source or several do.
pub open spec fn source_dispatch_spec(sources: Seq<SourceRef>, name: Seq<char>) -> Option<
    (Seq<char>, Seq<char>),
> {
    let ms = matching_sources(sources, name);
    if ms.len() == 1 {
        Some(("list_documents"@, "{\"source_id\":"@ + json_string_literal(ms[0].id@) + "}"@))
    } else {
        None
    }
}

/// The tool call (name, arguments) a user message is answered with, if any.
pub open spec fn direct_dispatch_spec(text: Seq<char>, sources: Seq<SourceRef>) -> Option<
    (Seq<char>, Seq<char>),
> {
    match classify_spec(text) {
        DirectRequestView::ListSources => Some(("list_sources"@, "{}"@)),
        DirectRequestView::ListPlaybooks => Some(("manage_playbook"@, "{\"action\":\"list\"}"@)),
        DirectRequestView::ListDirectory(path) => Some(
            ("list_dir"@, "{\"path\":"@ + json_string_literal(path) + "}"@),
        ),
        DirectRequestView::SourceDocuments(name) => source_dispatch_spec(sources, name),
        DirectRequestView::NotDirect => None,
    }
}

pub open spec fn opt_dispatch_view(r: Option<DirectDispatch>) -> Option<(Seq<char>, Seq<char>)> {
    match r {
        Some(d) => Some(dispatch_view(d)),
        None => None,
    }
}

/// Matches a user message against the direct-dispatch commands, resolving a
/// source name against `sources`.
pub fn match_direct_pattern(user_text: &str, sources: &[SourceRef]) -> (r: Option<DirectDispatch>)
    ensures
        opt_dispatch_view(r) == direct_dispatch_spec(user_text@, sources@),
{
    match classify_direct_request(user_text) {
        DirectRequest::Dispatch(d) => Some(d),
        DirectRequest::SourceDocuments(name) => dispatch_for_source(name.as_str(), sources),
        DirectRequest::NotDirect => None,
    }
}


/// The direct dispatch of a turn: none for empty text, otherwise the
/// matched command, if any.
pub fn direct_dispatch_plan(user_text: &str, sources: &[SourceRef]) -> (r: Option<DirectDispatch>)
    ensures
        user_text@.len() == 0 ==> r is None,
        user_text@.len() > 0 ==> opt_dispatch_view(r) == direct_dispatch_spec(user_text@, sources@),
{
    if user_text.unicode_len() == 0 {
        return None;
    }
    match_direct_pattern(user_text, sources)
}

/// How a direct dispatch ended.
#[derive(Debug)]
pub enum DirectDispatchOutcome {
    /// The text matched no command.
    NotMatched,
    /// The tool ran and failed: the turn falls through to the model.
    ExecutedButFailed,
    /// The tool's output answers the turn.
    Completed(Message),
}

/// The finished run of a directly dispatched tool, as the event stream
/// reports it.
#[derive(Debug, Clone, PartialEq, Eq)]
pub struct DirectToolRun {
    pub status: ToolRunStatus,
    pub content: String,
    pub is_error: bool,
}

/// What a dispatched tool's result means: a successful result completes
/// the turn with its content as the answer; a result flagged as an error,
/// or a tool that could not run (`{tool} failed: {error}`), is reported as
/// a failed run and the turn falls through to the model.
pub fn direct_dispatch_result(tool_name: &str, result: Result<(String, bool), String>) -> (r: (
    DirectToolRun,
    DirectDispatchOutcome,
))
    ensures
        match result {
            Ok((content, false)) => {
                &&& r.0.status == ToolRunStatus::Completed
                &&& r.0.content@ == content@
                &&& !r.0.is_error
                &&& r.1 matches DirectDispatchOutcome::Completed(m) && m@ == crate::llm::text_message(
                    Role::Assistant,
                    content@,
                )
            },
            Ok((content, true)) => {
                &&& r.0.status == ToolRunStatus::Failed
                &&& r.0.content@ == content@
                &&& r.0.is_error
                &&& r.1 is ExecutedButFailed
            },
            Err(e) => {
                &&& r.0.status == ToolRunStatus::Failed
                &&& r.0.content@ == tool_name@ + " failed: "@ + e@
                &&& r.0.is_error
                &&& r.1 is ExecutedButFailed
            },
        },
{
    match result {
        Ok((content, is_error)) => {
            if is_error {
                (
                    DirectToolRun { status: ToolRunStatus::Failed, content, is_error: true },
                    DirectDispatchOutcome::ExecutedButFailed,
                )
            } else {
                let answer = Message::text(Role::Assistant, content.clone());
                (
                    DirectToolRun { status: ToolRunStatus::Completed, content, is_error: false },
                    DirectDispatchOutcome::Completed(answer),
                )
            }
        },
        Err(e) => {
            let mut content = String::new();
            content.append(tool_name);
            content.append(" failed: ");
            content.append(e.as_str());
            (
                DirectToolRun { status: ToolRunStatus::Failed, content, is_error: true },
                DirectDispatchOutcome::ExecutedButFailed,
            )
        },
    }
}

} // verus!
