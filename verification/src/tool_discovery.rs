//! Deferred tool discovery: activating the tools that a `tool_search`
//! result names, within the bounds of the visible tool surface.

use vstd::prelude::*;

use crate::agent::{is_tool_merge, merge_tool_definitions, tool_names};
use crate::llm::{duplicate_tools, opt_view, tools_view, ToolDefinition, ToolDefinitionView};
use crate::text::chars_of;

verus! {

/// What a `tool_search` result did to the visible tools.
#[derive(Debug, Clone, PartialEq, Eq)]
pub struct ToolSearchActivation {
    pub activated: Vec<String>,
    pub already_available: Vec<String>,
    pub unknown: Vec<String>,
    pub capacity_limited: Vec<String>,
    pub evicted: Vec<String>,
}

pub open spec fn names_view(v: Seq<String>) -> Seq<Seq<char>> {
    v.map_values(|s: String| s@)
}

/// Mathematical form of a [`ToolSearchActivation`].
pub struct ActivationView {
    pub activated: Seq<Seq<char>>,
    pub already_available: Seq<Seq<char>>,
    pub unknown: Seq<Seq<char>>,
    pub capacity_limited: Seq<Seq<char>>,
    pub evicted: Seq<Seq<char>>,
}

impl View for ToolSearchActivation {
    type V = ActivationView;

    open spec fn view(&self) -> ActivationView {
        ActivationView {
            activated: names_view(self.activated@),
            already_available: names_view(self.already_available@),
            unknown: names_view(self.unknown@),
            capacity_limited: names_view(self.capacity_limited@),
            evicted: names_view(self.evicted@),
        }
    }
}

pub open spec fn no_activation() -> ActivationView {
    ActivationView {
        activated: Seq::empty(),
        already_available: Seq::empty(),
        unknown: Seq::empty(),
        capacity_limited: Seq::empty(),
        evicted: Seq::empty(),
    }
}

impl ToolSearchActivation {
    pub fn new() -> (a: ToolSearchActivation)
        ensures
            a@ == no_activation(),
    {
        let a = ToolSearchActivation {
            activated: Vec::new(),
            already_available: Vec::new(),
            unknown: Vec::new(),
            capacity_limited: Vec::new(),
            evicted: Vec::new(),
        };
        assert(a@.activated =~= Seq::<Seq<char>>::empty());
        assert(a@.already_available =~= Seq::<Seq<char>>::empty());
        assert(a@.unknown =~= Seq::<Seq<char>>::empty());
        assert(a@.capacity_limited =~= Seq::<Seq<char>>::empty());
        assert(a@.evicted =~= Seq::<Seq<char>>::empty());
        a
    }

    /// Whether any tool became visible.
    pub fn has_changes(&self) -> (b: bool)
        ensures
            b == (self@.activated.len() > 0),
    {
        self.activated.len() > 0
    }
}

impl Default for ToolSearchActivation {
    fn default() -> (a: ToolSearchActivation)
        ensures
            a@ == no_activation(),
    {
        ToolSearchActivation::new()
    }
}

/// The parts of a tool result's artifacts that discovery reads.
#[derive(Debug)]
pub struct ToolSearchArtifacts {
    /// The `kind` field, when it is a string.
    pub kind: Option<String>,
    /// The `matches` field, when it is an array: each item's `name` when it
    /// is a string.
    pub matches: Option<Vec<Option<String>>>,
    /// The nested `artifacts` field, when there is one.
    pub nested: Option<Box<ToolSearchArtifacts>>,
}

pub open spec fn is_search_results(a: ToolSearchArtifacts) -> bool {
    opt_view(a.kind) == Some("toolSearchResults"@)
}

/// The artifacts that hold the search results: the value itself or its
/// nested `artifacts`, whichever is of kind `toolSearchResults` first.
pub open spec fn search_payload(artifacts: Option<ToolSearchArtifacts>) -> Option<ToolSearchArtifacts> {
    match artifacts {
        None => None,
        Some(a) => if is_search_results(a) {
            Some(a)
        } else {
            match a.nested {
                Some(n) => if is_search_results(*n) {
                    Some(*n)
                } else {
                    None
                },
                None => None,
            }
        },
    }
}

pub open spec fn match_names(items: Seq<Option<String>>) -> Seq<Option<Seq<char>>> {
    items.map_values(|o: Option<String>| opt_view(o))
}

/// The names a search result lists, item by item; `None` without results.
pub open spec fn search_matches(artifacts: Option<ToolSearchArtifacts>) -> Option<Seq<Option<Seq<char>>>> {
    match search_payload(artifacts) {
        Some(p) => match p.matches {
            Some(items) => Some(match_names(items@)),
            None => None,
        },
        None => None,
    }
}

pub open spec fn deref_opt(o: Option<&ToolSearchArtifacts>) -> Option<ToolSearchArtifacts> {
    match o {
        Some(a) => Some(*a),
        None => None,
    }
}

fn is_search_results_exec(a: &ToolSearchArtifacts) -> (b: bool)
    ensures
        b == is_search_results(*a),
{
    match &a.kind {
        Some(kind) => {
            let k = chars_of(kind.as_str());
            let expected = chars_of("toolSearchResults");
            crate::text::chars_eq(k.as_slice(), expected.as_slice())
        },
        None => false,
    }
}

/// The search results within a tool result's artifacts.
pub fn tool_search_payload(artifacts: Option<&ToolSearchArtifacts>) -> (r: Option<&ToolSearchArtifacts>)
    ensures
        deref_opt(r) == search_payload(deref_opt(artifacts)),
{
    let value = match artifacts {
        Some(a) => a,
        None => {
            return None;
        },
    };
    if is_search_results_exec(value) {
        return Some(value);
    }
    match &value.nested {
        Some(nested) => {
            if is_search_results_exec(nested) {
                Some(&**nested)
            } else {
                None
            }
        },
        None => None,
    }
}

/// A tool that can be made visible: its definition, whether it is a core
/// tool, and the model's token estimate for its definition.
#[derive(Debug, Clone)]
pub struct RegisteredTool {
    pub definition: ToolDefinition,
    pub core: bool,
    pub definition_tokens: u32,
}

pub struct RegisteredToolView {
    pub definition: ToolDefinitionView,
    pub core: bool,
    pub definition_tokens: u32,
}

impl View for RegisteredTool {
    type V = RegisteredToolView;

    open spec fn view(&self) -> RegisteredToolView {
        RegisteredToolView {
            definition: self.definition@,
            core: self.core,
            definition_tokens: self.definition_tokens,
        }
    }
}

/// The tools that discovery may activate.
#[derive(Debug, Clone)]
pub struct ToolCatalog {
    pub tools: Vec<RegisteredTool>,
}

pub open spec fn catalog_view(tools: Seq<RegisteredTool>) -> Seq<RegisteredToolView> {
    tools.map_values(|t: RegisteredTool| t@)
}

/// The first tool of the catalog with this name.
pub open spec fn registered(tools: Seq<RegisteredToolView>, name: Seq<char>) -> Option<RegisteredToolView>
    decreases tools.len(),
{
    if tools.len() == 0 {
        None
    } else if tools[0].definition.name == name {
        Some(tools[0])
    } else {
        registered(tools.drop_first(), name)
    }
}

impl ToolCatalog {
    /// Index of the first tool with this name.
    pub fn find(&self, name: &String) -> (r: Option<usize>)
        ensures
            match r {
                Some(i) => i < self.tools@.len() && registered(catalog_view(self.tools@), name@)
                    == Some(self.tools@[i as int]@),
                None => registered(catalog_view(self.tools@), name@) is None,
            },
    {
        let ghost all = catalog_view(self.tools@);
        let mut i: usize = 0;
        assert(all.skip(0) =~= all);
        while i < self.tools.len()
            invariant
                i <= self.tools.len(),
                all == catalog_view(self.tools@),
                registered(all, name@) == registered(all.skip(i as int), name@),
            decreases self.tools.len() - i,
        {
            assert(all.skip(i as int)[0] == self.tools@[i as int]@);
            assert(all.skip(i as int).drop_first() =~= all.skip(i + 1));
            if self.tools[i].definition.name == *name {
                return Some(i);
            }
            i = i + 1;
        }
        None
    }
}

pub open spec fn sat_add(a: u32, b: u32) -> u32 {
    if a + b > u32::MAX {
        u32::MAX
    } else {
        (a + b) as u32
    }
}

pub open spec fn sat_sub(a: u32, b: u32) -> u32 {
    if a < b {
        0
    } else {
        (a - b) as u32
    }
}

pub open spec fn sat_inc(c: usize) -> usize {
    if c == usize::MAX {
        c
    } else {
        (c + 1) as usize
    }
}

/// Adding a definition of `def_tokens` would exceed the surface's bounds.
pub open spec fn over_capacity(count: usize, tokens: u32, def_tokens: u32, max_definitions: usize, max_tool_tokens: u32) -> bool {
    count >= max_definitions || sat_add(tokens, def_tokens) > max_tool_tokens
}

/// A visible definition that may be rotated out: not the resident
/// `tool_search`, not named by the current result, and a registered tool
/// outside the core category.
pub open spec fn evictable(tools: Seq<RegisteredToolView>, requested: Set<Seq<char>>, d: ToolDefinitionView) -> bool {
    &&& d.name != "tool_search"@
    &&& !requested.contains(d.name)
    &&& match registered(tools, d.name) {
        Some(t) => !t.core,
        None => false,
    }
}

/// Index of the last evictable definition.
pub open spec fn last_evictable(tools: Seq<RegisteredToolView>, requested: Set<Seq<char>>, s: Seq<ToolDefinitionView>) -> Option<int>
    decreases s.len(),
{
    if s.len() == 0 {
        None
    } else if evictable(tools, requested, s.last()) {
        Some(s.len() - 1)
    } else {
        last_evictable(tools, requested, s.drop_last())
    }
}

pub proof fn lemma_last_evictable(tools: Seq<RegisteredToolView>, requested: Set<Seq<char>>, s: Seq<ToolDefinitionView>)
    ensures
        last_evictable(tools, requested, s) matches Some(k) ==> 0 <= k < s.len() && evictable(tools, requested, s[k]),
        last_evictable(tools, requested, s) matches Some(k) ==> forall|j: int| k < j < s.len() ==> !evictable(tools, requested, #[trigger] s[j]),
        last_evictable(tools, requested, s) is None ==> forall|j: int| 0 <= j < s.len() ==> !evictable(tools, requested, #[trigger] s[j]),
    decreases s.len(),
{
    if s.len() > 0 && !evictable(tools, requested, s.last()) {
        lemma_last_evictable(tools, requested, s.drop_last());
        let k = last_evictable(tools, requested, s);
        assert forall|j: int| (match k {
            Some(k) => k < j,
            None => 0 <= j,
        }) && j < s.len() implies !evictable(tools, requested, #[trigger] s[j]) by {
            if j < s.len() - 1 {
                assert(s[j] == s.drop_last()[j]);
            }
        }
    }
}

/// The catalog's estimate for a registered definition.
pub open spec fn registered_tokens(tools: Seq<RegisteredToolView>, name: Seq<char>) -> u32 {
    match registered(tools, name) {
        Some(t) => t.definition_tokens,
        None => 0,
    }
}

/// Rotates evictable definitions out, last first, while the new definition
/// would not fit; gives the remaining definitions, count, tokens and the
/// names rotated out.
pub open spec fn evict(
    tools: Seq<RegisteredToolView>,
    requested: Set<Seq<char>>,
    retained: Seq<ToolDefinitionView>,
    count: usize,
    tokens: u32,
    def_tokens: u32,
    max_definitions: usize,
    max_tool_tokens: u32,
    evicted: Seq<Seq<char>>,
) -> (Seq<ToolDefinitionView>, usize, u32, Seq<Seq<char>>)
    decreases retained.len(),
{
    if !over_capacity(count, tokens, def_tokens, max_definitions, max_tool_tokens) {
        (retained, count, tokens, evicted)
    } else {
        match last_evictable(tools, requested, retained) {
            None => (retained, count, tokens, evicted),
            Some(k) => {
                proof {
                    lemma_last_evictable(tools, requested, retained);
                }
                evict(
                    tools,
                    requested,
                    retained.remove(k),
                    (count - 1) as usize,
                    sat_sub(tokens, registered_tokens(tools, retained[k].name)),
                    def_tokens,
                    max_definitions,
                    max_tool_tokens,
                    evicted.push(retained[k].name),
                )
            },
        }
    }
}

/// The state of discovery between two search matches.
pub struct DiscoveryState {
    /// The visible definitions, without those activated so far.
    pub defs: Seq<ToolDefinitionView>,
    pub available: Set<Seq<char>>,
    pub seen: Set<Seq<char>>,
    /// The definitions activated so far.
    pub newly: Seq<ToolDefinitionView>,
    pub count: usize,
    pub tokens: u32,
    pub outcome: ActivationView,
}

/// Makes a registered tool visible.
pub open spec fn make_visible(st: DiscoveryState, t: RegisteredToolView, name: Seq<char>) -> DiscoveryState {
    DiscoveryState {
        count: sat_inc(st.count),
        tokens: sat_add(st.tokens, t.definition_tokens),
        newly: st.newly.push(t.definition),
        available: st.available.insert(name),
        outcome: ActivationView { activated: st.outcome.activated.push(name), ..st.outcome },
        ..st
    }
}

/// One search match.
pub open spec fn discovery_step(
    tools: Seq<RegisteredToolView>,
    requested: Set<Seq<char>>,
    st: DiscoveryState,
    item: Option<Seq<char>>,
    max_definitions: usize,
    max_tool_tokens: u32,
) -> DiscoveryState {
    match item {
        None => st,
        Some(name) => if st.seen.contains(name) {
            st
        } else {
            let st = DiscoveryState { seen: st.seen.insert(name), ..st };
            if st.available.contains(name) {
                DiscoveryState {
                    outcome: ActivationView {
                        already_available: st.outcome.already_available.push(name),
                        ..st.outcome
                    },
                    ..st
                }
            } else {
                match registered(tools, name) {
                    None => DiscoveryState {
                        outcome: ActivationView { unknown: st.outcome.unknown.push(name), ..st.outcome },
                        ..st
                    },
                    Some(t) => if !over_capacity(
                        st.count,
                        st.tokens,
                        t.definition_tokens,
                        max_definitions,
                        max_tool_tokens,
                    ) {
                        make_visible(st, t, name)
                    } else {
                        let (retained, count, tokens, evicted) = evict(
                            tools,
                            requested,
                            st.defs,
                            st.count,
                            st.tokens,
                            t.definition_tokens,
                            max_definitions,
                            max_tool_tokens,
                            Seq::empty(),
                        );
                        if over_capacity(
                            count,
                            tokens,
                            t.definition_tokens,
                            max_definitions,
                            max_tool_tokens,
                        ) {
                            DiscoveryState {
                                outcome: ActivationView {
                                    capacity_limited: st.outcome.capacity_limited.push(name),
                                    ..st.outcome
                                },
                                ..st
                            }
                        } else {
                            make_visible(
                                DiscoveryState {
                                    defs: retained,
                                    count,
                                    tokens,
                                    available: st.available.difference(evicted.to_set()),
                                    outcome: ActivationView {
                                        evicted: st.outcome.evicted + evicted,
                                        ..st.outcome
                                    },
                                    ..st
                                },
                                t,
                                name,
                            )
                        }
                    },
                }
            }
        },
    }
}

/// All search matches in order.
pub open spec fn discovery_run(
    tools: Seq<RegisteredToolView>,
    requested: Set<Seq<char>>,
    st: DiscoveryState,
    items: Seq<Option<Seq<char>>>,
    max_definitions: usize,
    max_tool_tokens: u32,
) -> DiscoveryState
    decreases items.len(),
{
    if items.len() == 0 {
        st
    } else {
        discovery_run(
            tools,
            requested,
            discovery_step(tools, requested, st, items[0], max_definitions, max_tool_tokens),
            items.drop_first(),
            max_definitions,
            max_tool_tokens,
        )
    }
}

/// The names a result asks for.
pub open spec fn requested_names(items: Seq<Option<Seq<char>>>) -> Set<Seq<char>> {
    Set::new(|n: Seq<char>| items.contains(Some(n)))
}

pub open spec fn initial_discovery(defs: Seq<ToolDefinitionView>, surface_tokens: u32) -> DiscoveryState {
    DiscoveryState {
        defs,
        available: tool_names(defs).to_set(),
        seen: Set::empty(),
        newly: Seq::empty(),
        count: defs.len() as usize,
        tokens: surface_tokens,
        outcome: no_activation(),
    }
}

pub open spec fn name_set(v: Seq<String>) -> Set<Seq<char>> {
    names_view(v).to_set()
}

proof fn lemma_name_set_push(v: Seq<String>, x: String)
    ensures
        name_set(v.push(x)) == name_set(v).insert(x@),
{
    assert(names_view(v.push(x)) =~= names_view(v).push(x@));
    assert forall|n: Seq<char>| name_set(v.push(x)).contains(n) <==> name_set(v).insert(x@).contains(n) by {
        let w = names_view(v).push(x@);
        if w.contains(n) {
            let q = choose|q: int| 0 <= q < w.len() && w[q] == n;
            if q < names_view(v).len() {
                assert(names_view(v)[q] == n);
            }
        }
        if names_view(v).contains(n) {
            let q = choose|q: int| 0 <= q < names_view(v).len() && names_view(v)[q] == n;
            assert(w[q] == n);
        }
        if n == x@ {
            assert(w[names_view(v).len() as int] == n);
        }
    }
    assert(name_set(v.push(x)) =~= name_set(v).insert(x@));
}

proof fn lemma_take_to_set(ev: Seq<Seq<char>>, j: int)
    requires
        0 <= j < ev.len(),
    ensures
        ev.take(j + 1).to_set() == ev.take(j).to_set().insert(ev[j]),
{
    let a = ev.take(j);
    let b = ev.take(j + 1);
    assert forall|n: Seq<char>| b.contains(n) <==> (a.contains(n) || n == ev[j]) by {
        if b.contains(n) {
            let q = choose|q: int| 0 <= q < b.len() && b[q] == n;
            if q < j {
                assert(a[q] == n);
            }
        }
        if a.contains(n) {
            let q = choose|q: int| 0 <= q < a.len() && a[q] == n;
            assert(b[q] == n);
        }
        if n == ev[j] {
            assert(b[j] == n);
        }
    }
    assert(b.to_set() =~= a.to_set().insert(ev[j]));
}

fn contains_name(v: &Vec<String>, name: &String) -> (b: bool)
    ensures
        b == name_set(v@).contains(name@),
{
    let mut i: usize = 0;
    while i < v.len()
        invariant
            i <= v.len(),
            forall|k: int| 0 <= k < i ==> v@[k]@ != name@,
        decreases v.len() - i,
    {
        if v[i] == *name {
            assert(names_view(v@)[i as int] == name@);
            return true;
        }
        i = i + 1;
    }
    proof {
        if names_view(v@).contains(name@) {
            let k = choose|k: int| 0 <= k < names_view(v@).len() && names_view(v@)[k] == name@;
            assert(v@[k]@ == name@);
        }
    }
    false
}

/// Drops every copy of `name`.
fn remove_name(v: &mut Vec<String>, name: &String)
    ensures
        name_set(final(v)@) == name_set(old(v)@).remove(name@),
{
    let mut kept: Vec<String> = Vec::new();
    let mut i: usize = 0;
    while i < v.len()
        invariant
            i <= v.len(),
            name_set(kept@) == name_set(v@.take(i as int)).remove(name@),
        decreases v.len() - i,
    {
        proof {
            assert(v@.take(i + 1) =~= v@.take(i as int).push(v@[i as int]));
            lemma_name_set_push(v@.take(i as int), v@[i as int]);
        }
        if v[i] != *name {
            let ghost before = kept@;
            kept.push(v[i].clone());
            proof {
                lemma_name_set_push(before, v@[i as int]);
                assert(name_set(kept@) =~= name_set(v@.take(i + 1)).remove(name@));
            }
        } else {
            assert(name_set(kept@) =~= name_set(v@.take(i + 1)).remove(name@));
        }
        i = i + 1;
    }
    assert(v@.take(i as int) =~= v@);
    *v = kept;
}

fn over_capacity_exec(count: usize, tokens: u32, def_tokens: u32, max_definitions: usize, max_tool_tokens: u32) -> (b: bool)
    ensures
        b == over_capacity(count, tokens, def_tokens, max_definitions, max_tool_tokens),
{
    count >= max_definitions || tokens.saturating_add(def_tokens) > max_tool_tokens
}

fn evictable_exec(catalog: &ToolCatalog, requested: &Vec<String>, d: &ToolDefinition) -> (b: bool)
    ensures
        b == evictable(catalog_view(catalog.tools@), name_set(requested@), d@),
{
    let name = chars_of(d.name.as_str());
    let resident = chars_of("tool_search");
    if crate::text::chars_eq(name.as_slice(), resident.as_slice()) {
        return false;
    }
    if contains_name(requested, &d.name) {
        return false;
    }
    match catalog.find(&d.name) {
        Some(i) => !catalog.tools[i].core,
        None => false,
    }
}

fn last_evictable_exec(catalog: &ToolCatalog, requested: &Vec<String>, retained: &Vec<ToolDefinition>) -> (r: Option<usize>)
    ensures
        match r {
            Some(k) => last_evictable(catalog_view(catalog.tools@), name_set(requested@), tools_view(retained@))
                == Some(k as int),
            None => last_evictable(catalog_view(catalog.tools@), name_set(requested@), tools_view(retained@)) is None,
        },
{
    let ghost tools = catalog_view(catalog.tools@);
    let ghost req = name_set(requested@);
    let ghost all = tools_view(retained@);
    let mut k: usize = retained.len();
    assert(all.take(k as int) =~= all);
    while k > 0
        invariant
            k <= retained.len(),
            all == tools_view(retained@),
            tools == catalog_view(catalog.tools@),
            req == name_set(requested@),
            last_evictable(tools, req, all) == last_evictable(tools, req, all.take(k as int)),
        decreases k,
    {
        assert(all.take(k as int).last() == retained@[k - 1]@);
        assert(all.take(k as int).drop_last() =~= all.take(k - 1));
        if evictable_exec(catalog, requested, &retained[k - 1]) {
            return Some(k - 1);
        }
        k = k - 1;
    }
    None
}

fn registered_tokens_exec(catalog: &ToolCatalog, name: &String) -> (n: u32)
    ensures
        n == registered_tokens(catalog_view(catalog.tools@), name@),
{
    match catalog.find(name) {
        Some(i) => catalog.tools[i].definition_tokens,
        None => 0,
    }
}

/// Rotates definitions out as `evict` says.
fn evict_exec(
    catalog: &ToolCatalog,
    requested: &Vec<String>,
    retained: &mut Vec<ToolDefinition>,
    count: &mut usize,
    tokens: &mut u32,
    def_tokens: u32,
    max_definitions: usize,
    max_tool_tokens: u32,
    evicted: &mut Vec<String>,
)
    requires
        *old(count) >= old(retained)@.len(),
    ensures
        *final(count) >= final(retained)@.len(),
        (tools_view(final(retained)@), *final(count), *final(tokens), names_view(final(evicted)@))
            == evict(
            catalog_view(catalog.tools@),
            name_set(requested@),
            tools_view(old(retained)@),
            *old(count),
            *old(tokens),
            def_tokens,
            max_definitions,
            max_tool_tokens,
            names_view(old(evicted)@),
        ),
{
    let ghost tools = catalog_view(catalog.tools@);
    let ghost req = name_set(requested@);
    let ghost target = evict(
        tools,
        req,
        tools_view(retained@),
        *count,
        *tokens,
        def_tokens,
        max_definitions,
        max_tool_tokens,
        names_view(evicted@),
    );
    let mut done = false;
    while !done
        invariant
            tools == catalog_view(catalog.tools@),
            req == name_set(requested@),
            *count >= retained@.len(),
            !done ==> evict(
                tools,
                req,
                tools_view(retained@),
                *count,
                *tokens,
                def_tokens,
                max_definitions,
                max_tool_tokens,
                names_view(evicted@),
            ) == target,
            done ==> (tools_view(retained@), *count, *tokens, names_view(evicted@)) == target,
        decreases retained@.len() + (if done {
            0int
        } else {
            1int
        }),
    {
        if !over_capacity_exec(*count, *tokens, def_tokens, max_definitions, max_tool_tokens) {
            done = true;
        } else {
            match last_evictable_exec(catalog, requested, retained) {
                None => {
                    done = true;
                },
                Some(k) => {
                    proof {
                        lemma_last_evictable(tools, req, tools_view(retained@));
                    }
                    let ghost before = tools_view(retained@);
                    let ghost evicted_before = names_view(evicted@);
                    let removed = retained.remove(k);
                    assert(tools_view(retained@) =~= before.remove(k as int));
                    let cost = registered_tokens_exec(catalog, &removed.name);
                    *count = *count - 1;
                    *tokens = (*tokens).saturating_sub(cost);
                    evicted.push(removed.name);
                    assert(names_view(evicted@) =~= evicted_before.push(before[k as int].name));
                },
            }
        }
    }
}

/// Discovery's working state.
struct DiscoveryWork {
    defs: Vec<ToolDefinition>,
    available: Vec<String>,
    seen: Vec<String>,
    newly: Vec<ToolDefinition>,
    count: usize,
    tokens: u32,
    outcome: ToolSearchActivation,
}

impl View for DiscoveryWork {
    type V = DiscoveryState;

    closed spec fn view(&self) -> DiscoveryState {
        DiscoveryState {
            defs: tools_view(self.defs@),
            available: name_set(self.available@),
            seen: name_set(self.seen@),
            newly: tools_view(self.newly@),
            count: self.count,
            tokens: self.tokens,
            outcome: self.outcome@,
        }
    }
}

impl DiscoveryWork {
    spec fn wf(&self) -> bool {
        self.count >= self.defs@.len()
    }
}

fn push_name(v: &mut Vec<String>, name: &String)
    ensures
        names_view(final(v)@) == names_view(old(v)@).push(name@),
        name_set(final(v)@) == name_set(old(v)@).insert(name@),
{
    let ghost before = v@;
    v.push(name.clone());
    assert(names_view(v@) =~= names_view(before).push(name@));
    proof {
        lemma_name_set_push(before, *name);
    }
}

/// Drops the evicted names from the available ones and records them.
fn forget_evicted(available: &mut Vec<String>, log: &mut Vec<String>, evicted: &Vec<String>)
    ensures
        name_set(final(available)@) == name_set(old(available)@).difference(
            names_view(evicted@).to_set(),
        ),
        names_view(final(log)@) == names_view(old(log)@) + names_view(evicted@),
{
    let ghost available_before = name_set(available@);
    let ghost log_before = names_view(log@);
    let ghost ev = names_view(evicted@);
    let mut j: usize = 0;
    assert(ev.take(0).to_set() =~= Set::<Seq<char>>::empty());
    assert(available_before.difference(Set::<Seq<char>>::empty()) =~= available_before);
    assert(log_before + ev.take(0) =~= log_before);
    while j < evicted.len()
        invariant
            j <= evicted.len(),
            ev == names_view(evicted@),
            name_set(available@) == available_before.difference(ev.take(j as int).to_set()),
            names_view(log@) == log_before + ev.take(j as int),
        decreases evicted.len() - j,
    {
        remove_name(available, &evicted[j]);
        push_name(log, &evicted[j]);
        proof {
            assert(ev.take(j + 1) =~= ev.take(j as int).push(ev[j as int]));
            lemma_take_to_set(ev, j as int);
            assert(name_set(available@) =~= available_before.difference(ev.take(j + 1).to_set()));
            assert(names_view(log@) =~= log_before + ev.take(j + 1));
        }
        j = j + 1;
    }
    assert(ev.take(j as int) =~= ev);
}

/// One search match, as `discovery_step` says.
fn discovery_step_exec(
    catalog: &ToolCatalog,
    requested: &Vec<String>,
    st: &mut DiscoveryWork,
    item: &Option<String>,
    max_definitions: usize,
    max_tool_tokens: u32,
)
    requires
        old(st).wf(),
    ensures
        final(st).wf(),
        final(st)@ == discovery_step(
            catalog_view(catalog.tools@),
            name_set(requested@),
            old(st)@,
            opt_view(*item),
            max_definitions,
            max_tool_tokens,
        ),
{
    let name = match item {
        Some(name) => name,
        None => {
            return;
        },
    };
    if contains_name(&st.seen, name) {
        return;
    }
    push_name(&mut st.seen, name);
    if contains_name(&st.available, name) {
        push_name(&mut st.outcome.already_available, name);
        return;
    }
    let i = match catalog.find(name) {
        Some(i) => i,
        None => {
            push_name(&mut st.outcome.unknown, name);
            return;
        },
    };
    let def_tokens = catalog.tools[i].definition_tokens;
    if over_capacity_exec(st.count, st.tokens, def_tokens, max_definitions, max_tool_tokens) {
        let mut retained = duplicate_tools(&st.defs);
        assert(retained@.len() == tools_view(retained@).len());
        assert(st.defs@.len() == tools_view(st.defs@).len());
        let mut count = st.count;
        let mut tokens = st.tokens;
        let mut evicted: Vec<String> = Vec::new();
        assert(names_view(evicted@) =~= Seq::<Seq<char>>::empty());
        evict_exec(
            catalog,
            requested,
            &mut retained,
            &mut count,
            &mut tokens,
            def_tokens,
            max_definitions,
            max_tool_tokens,
            &mut evicted,
        );
        if over_capacity_exec(count, tokens, def_tokens, max_definitions, max_tool_tokens) {
            push_name(&mut st.outcome.capacity_limited, name);
            return;
        }
        st.defs = retained;
        st.count = count;
        st.tokens = tokens;
        forget_evicted(&mut st.available, &mut st.outcome.evicted, &evicted);
    }
    st.count = st.count.saturating_add(1);
    st.tokens = st.tokens.saturating_add(def_tokens);
    let ghost newly_before = tools_view(st.newly@);
    st.newly.push(catalog.tools[i].definition.duplicate());
    assert(tools_view(st.newly@) =~= newly_before.push(catalog.tools@[i as int].definition@));
    push_name(&mut st.available, name);
    push_name(&mut st.outcome.activated, name);
}

/// The names a result asks for.
fn requested_list(items: &Vec<Option<String>>) -> (r: Vec<String>)
    ensures
        name_set(r@) == requested_names(match_names(items@)),
{
    let ghost all = match_names(items@);
    let mut r: Vec<String> = Vec::new();
    let mut i: usize = 0;
    while i < items.len()
        invariant
            i <= items.len(),
            all == match_names(items@),
            forall|n: Seq<char>| name_set(r@).contains(n) <==> all.take(i as int).contains(Some(n)),
        decreases items.len() - i,
    {
        let ghost before = r@;
        proof {
            assert(all.take(i + 1) =~= all.take(i as int).push(all[i as int]));
        }
        match &items[i] {
            Some(name) => {
                push_name(&mut r, name);
            },
            None => {},
        }
        assert forall|n: Seq<char>| name_set(r@).contains(n) <==> all.take(i + 1).contains(Some(n)) by {
            let a = all.take(i as int);
            let b = all.take(i + 1);
            if b.contains(Some(n)) {
                let q = choose|q: int| 0 <= q < b.len() && b[q] == Some(n);
                if q < i {
                    assert(a[q] == Some(n));
                }
            }
            if a.contains(Some(n)) {
                let q = choose|q: int| 0 <= q < a.len() && a[q] == Some(n);
                assert(b[q] == Some(n));
            }
            if all[i as int] == Some(n) {
                assert(b[i as int] == Some(n));
            }
        }
        i = i + 1;
    }
    assert(all.take(i as int) =~= all);
    assert(name_set(r@) =~= requested_names(all));
    r
}

/// Makes the tools a `tool_search` result names visible, rotating stale
/// deferred definitions out when the surface is full: at most
/// `max_definitions` definitions and `max_tool_tokens` tokens, where
/// `surface_tokens` is the estimate for the visible definitions and each
/// registered tool carries its own. Resident `tool_search`, core tools and
/// every tool this result names stay. The new surface is ordered by name.
pub fn activate_tool_search_matches_bounded(
    catalog: &ToolCatalog,
    tool_defs: &mut Vec<ToolDefinition>,
    artifacts: Option<&ToolSearchArtifacts>,
    surface_tokens: u32,
    max_definitions: usize,
    max_tool_tokens: u32,
) -> (r: ToolSearchActivation)
    ensures
        match search_matches(deref_opt(artifacts)) {
            None => r@ == no_activation() && tools_view(final(tool_defs)@) == tools_view(
                old(tool_defs)@,
            ),
            Some(items) => {
                let st = discovery_run(
                    catalog_view(catalog.tools@),
                    requested_names(items),
                    initial_discovery(tools_view(old(tool_defs)@), surface_tokens),
                    items,
                    max_definitions,
                    max_tool_tokens,
                );
                &&& r@ == st.outcome
                &&& if st.newly.len() > 0 {
                    is_tool_merge(st.defs, st.newly, tools_view(final(tool_defs)@))
                } else {
                    tools_view(final(tool_defs)@) == st.defs
                }
            },
        },
{
    let payload = match tool_search_payload(artifacts) {
        Some(p) => p,
        None => {
            return ToolSearchActivation::new();
        },
    };
    let items = match &payload.matches {
        Some(items) => items,
        None => {
            return ToolSearchActivation::new();
        },
    };
    let ghost all = match_names(items@);
    let ghost tools = catalog_view(catalog.tools@);
    let requested = requested_list(items);
    let ghost req = name_set(requested@);
    let mut defs: Vec<ToolDefinition> = Vec::new();
    std::mem::swap(&mut defs, tool_defs);
    let mut available: Vec<String> = Vec::new();
    let mut k: usize = 0;
    while k < defs.len()
        invariant
            k <= defs.len(),
            names_view(available@) == tool_names(tools_view(defs@)).take(k as int),
        decreases defs.len() - k,
    {
        push_name(&mut available, &defs[k].name);
        assert(tool_names(tools_view(defs@)).take(k + 1) =~= tool_names(tools_view(defs@)).take(
            k as int,
        ).push(defs@[k as int].name@));
        k = k + 1;
    }
    assert(tool_names(tools_view(defs@)).take(k as int) =~= tool_names(tools_view(defs@)));
    let count = defs.len();
    let mut st = DiscoveryWork {
        defs,
        available,
        seen: Vec::new(),
        newly: Vec::new(),
        count,
        tokens: surface_tokens,
        outcome: ToolSearchActivation::new(),
    };
    assert(name_set(st.seen@) =~= Set::<Seq<char>>::empty());
    assert(tools_view(st.newly@) =~= Seq::<ToolDefinitionView>::empty());
    assert(st@ == initial_discovery(tools_view(old(tool_defs)@), surface_tokens));
    let ghost target = discovery_run(
        tools,
        req,
        st@,
        all,
        max_definitions,
        max_tool_tokens,
    );
    let mut i: usize = 0;
    assert(all.skip(0) =~= all);
    while i < items.len()
        invariant
            i <= items.len(),
            all == match_names(items@),
            tools == catalog_view(catalog.tools@),
            req == name_set(requested@),
            st.wf(),
            discovery_run(tools, req, st@, all.skip(i as int), max_definitions, max_tool_tokens)
                == target,
        decreases items.len() - i,
    {
        assert(all.skip(i as int)[0] == opt_view(items@[i as int]));
        assert(all.skip(i as int).drop_first() =~= all.skip(i + 1));
        discovery_step_exec(catalog, &requested, &mut st, &items[i], max_definitions, max_tool_tokens);
        i = i + 1;
    }
    assert(all.skip(i as int) =~= Seq::<Option<Seq<char>>>::empty());
    let DiscoveryWork { defs, newly, outcome, .. } = st;
    if newly.len() > 0 {
        *tool_defs = merge_tool_definitions(defs, newly);
    } else {
        *tool_defs = defs;
    }
    outcome
}

/// [`activate_tool_search_matches_bounded`] without bounds.
pub fn activate_tool_search_matches(
    catalog: &ToolCatalog,
    tool_defs: &mut Vec<ToolDefinition>,
    artifacts: Option<&ToolSearchArtifacts>,
    surface_tokens: u32,
) -> (r: ToolSearchActivation)
    ensures
        match search_matches(deref_opt(artifacts)) {
            None => r@ == no_activation() && tools_view(final(tool_defs)@) == tools_view(
                old(tool_defs)@,
            ),
            Some(items) => {
                let st = discovery_run(
                    catalog_view(catalog.tools@),
                    requested_names(items),
                    initial_discovery(tools_view(old(tool_defs)@), surface_tokens),
                    items,
                    usize::MAX,
                    u32::MAX,
                );
                &&& r@ == st.outcome
                &&& if st.newly.len() > 0 {
                    is_tool_merge(st.defs, st.newly, tools_view(final(tool_defs)@))
                } else {
                    tools_view(final(tool_defs)@) == st.defs
                }
            },
        },
{
    activate_tool_search_matches_bounded(
        catalog,
        tool_defs,
        artifacts,
        surface_tokens,
        usize::MAX,
        u32::MAX,
    )
}

/// None of the names is the resident `tool_search`, a name the result asks
/// for, or a tool outside the registered non-core ones.
pub open spec fn spares_pinned(tools: Seq<RegisteredToolView>, requested: Set<Seq<char>>, names: Seq<Seq<char>>) -> bool {
    forall|i: int|
        0 <= i < names.len() ==> {
            &&& #[trigger] names[i] != "tool_search"@
            &&& !requested.contains(names[i])
            &&& registered(tools, names[i]) matches Some(t) && !t.core
        }
}

proof fn lemma_evict_spares(
    tools: Seq<RegisteredToolView>,
    requested: Set<Seq<char>>,
    retained: Seq<ToolDefinitionView>,
    count: usize,
    tokens: u32,
    def_tokens: u32,
    max_definitions: usize,
    max_tool_tokens: u32,
    evicted: Seq<Seq<char>>,
)
    requires
        spares_pinned(tools, requested, evicted),
    ensures
        spares_pinned(
            tools,
            requested,
            evict(
                tools,
                requested,
                retained,
                count,
                tokens,
                def_tokens,
                max_definitions,
                max_tool_tokens,
                evicted,
            ).3,
        ),
    decreases retained.len(),
{
    if over_capacity(count, tokens, def_tokens, max_definitions, max_tool_tokens) {
        lemma_last_evictable(tools, requested, retained);
        match last_evictable(tools, requested, retained) {
            Some(k) => {
                let next = evicted.push(retained[k].name);
                assert(spares_pinned(tools, requested, next)) by {
                    assert forall|i: int| 0 <= i < next.len() implies {
                        &&& #[trigger] next[i] != "tool_search"@
                        &&& !requested.contains(next[i])
                        &&& registered(tools, next[i]) matches Some(t) && !t.core
                    } by {
                        if i < evicted.len() {
                            assert(next[i] == evicted[i]);
                        }
                    }
                }
                lemma_evict_spares(
                    tools,
                    requested,
                    retained.remove(k),
                    (count - 1) as usize,
                    sat_sub(tokens, registered_tokens(tools, retained[k].name)),
                    def_tokens,
                    max_definitions,
                    max_tool_tokens,
                    next,
                );
            },
            None => {},
        }
    }
}

proof fn lemma_run_spares(
    tools: Seq<RegisteredToolView>,
    requested: Set<Seq<char>>,
    st: DiscoveryState,
    items: Seq<Option<Seq<char>>>,
    max_definitions: usize,
    max_tool_tokens: u32,
)
    requires
        spares_pinned(tools, requested, st.outcome.evicted),
    ensures
        spares_pinned(
            tools,
            requested,
            discovery_run(tools, requested, st, items, max_definitions, max_tool_tokens).outcome.evicted,
        ),
    decreases items.len(),
{
    if items.len() > 0 {
        let next = discovery_step(tools, requested, st, items[0], max_definitions, max_tool_tokens);
        match items[0] {
            Some(name) => {
                if !st.seen.contains(name) && !st.available.contains(name) {
                    match registered(tools, name) {
                        Some(t) => {
                            if over_capacity(st.count, st.tokens, t.definition_tokens, max_definitions, max_tool_tokens) {
                                lemma_evict_spares(
                                    tools,
                                    requested,
                                    st.defs,
                                    st.count,
                                    st.tokens,
                                    t.definition_tokens,
                                    max_definitions,
                                    max_tool_tokens,
                                    Seq::empty(),
                                );
                                let ev = evict(
                                    tools,
                                    requested,
                                    st.defs,
                                    st.count,
                                    st.tokens,
                                    t.definition_tokens,
                                    max_definitions,
                                    max_tool_tokens,
                                    Seq::empty(),
                                ).3;
                                let all = st.outcome.evicted + ev;
                                assert(spares_pinned(tools, requested, all)) by {
                                    assert forall|i: int| 0 <= i < all.len() implies {
                                        &&& #[trigger] all[i] != "tool_search"@
                                        &&& !requested.contains(all[i])
                                        &&& registered(tools, all[i]) matches Some(t) && !t.core
                                    } by {
                                        if i < st.outcome.evicted.len() {
                                            assert(all[i] == st.outcome.evicted[i]);
                                        } else {
                                            assert(all[i] == ev[i - st.outcome.evicted.len()]);
                                        }
                                    }
                                }
                            }
                        },
                        None => {},
                    }
                }
            },
            None => {},
        }
        assert(spares_pinned(tools, requested, next.outcome.evicted));
        lemma_run_spares(tools, requested, next, items.drop_first(), max_definitions, max_tool_tokens);
    }
}

/// Rotating a full surface never evicts the resident `tool_search`, a core
/// tool, or any tool the current search result names: only registered,
/// deferred tools go.
pub proof fn law_rotation_spares_resident_core_and_requested_tools(
    tools: Seq<RegisteredToolView>,
    defs: Seq<ToolDefinitionView>,
    surface_tokens: u32,
    items: Seq<Option<Seq<char>>>,
    max_definitions: usize,
    max_tool_tokens: u32,
)
    ensures
        spares_pinned(
            tools,
            requested_names(items),
            discovery_run(
                tools,
                requested_names(items),
                initial_discovery(defs, surface_tokens),
                items,
                max_definitions,
                max_tool_tokens,
            ).outcome.evicted,
        ),
{
    lemma_run_spares(
        tools,
        requested_names(items),
        initial_discovery(defs, surface_tokens),
        items,
        max_definitions,
        max_tool_tokens,
    );
}

/// A match that still does not fit after rotation changes nothing: the
/// surface keeps every definition and nothing is evicted.
pub proof fn law_capacity_limited_match_evicts_nothing(
    tools: Seq<RegisteredToolView>,
    requested: Set<Seq<char>>,
    st: DiscoveryState,
    item: Option<Seq<char>>,
    max_definitions: usize,
    max_tool_tokens: u32,
)
    ensures
        ({
            let next = discovery_step(tools, requested, st, item, max_definitions, max_tool_tokens);
            next.outcome.capacity_limited.len() > st.outcome.capacity_limited.len() ==> {
                &&& next.defs == st.defs
                &&& next.outcome.evicted == st.outcome.evicted
                &&& next.newly == st.newly
                &&& next.available == st.available
            }
        }),
{
}


/// How often `n` occurs across the four outcome groups of a match.
pub open spec fn group_count(o: ActivationView, n: Seq<char>) -> nat {
    o.activated.to_multiset().count(n) + o.already_available.to_multiset().count(n)
        + o.unknown.to_multiset().count(n) + o.capacity_limited.to_multiset().count(n)
}

/// Every name seen so far is in exactly one group, once; no other name is.
pub open spec fn groups_match_seen(st: DiscoveryState) -> bool {
    forall|n: Seq<char>| #[trigger] group_count(st.outcome, n) == if st.seen.contains(n) {
        1nat
    } else {
        0nat
    }
}

proof fn lemma_step_keeps_groups(
    tools: Seq<RegisteredToolView>,
    requested: Set<Seq<char>>,
    st: DiscoveryState,
    item: Option<Seq<char>>,
    max_definitions: usize,
    max_tool_tokens: u32,
)
    requires
        groups_match_seen(st),
    ensures
        ({
            let next = discovery_step(tools, requested, st, item, max_definitions, max_tool_tokens);
            &&& groups_match_seen(next)
            &&& next.seen == match item {
                Some(name) => st.seen.insert(name),
                None => st.seen,
            }
        }),
{
    broadcast use vstd::seq_lib::group_to_multiset_ensures;

    let next = discovery_step(tools, requested, st, item, max_definitions, max_tool_tokens);
    match item {
        None => {},
        Some(name) => {
            if !st.seen.contains(name) {
                assert forall|n: Seq<char>| #[trigger] group_count(next.outcome, n) == if next.seen.contains(n) {
                    1nat
                } else {
                    0nat
                } by {
                    assert(group_count(st.outcome, n) == if st.seen.contains(n) {
                        1nat
                    } else {
                        0nat
                    });
                }
            }
        },
    }
}

proof fn lemma_run_keeps_groups(
    tools: Seq<RegisteredToolView>,
    requested: Set<Seq<char>>,
    st: DiscoveryState,
    items: Seq<Option<Seq<char>>>,
    max_definitions: usize,
    max_tool_tokens: u32,
)
    requires
        groups_match_seen(st),
    ensures
        ({
            let fin = discovery_run(tools, requested, st, items, max_definitions, max_tool_tokens);
            &&& groups_match_seen(fin)
            &&& fin.seen == st.seen.union(requested_names(items))
        }),
    decreases items.len(),
{
    if items.len() == 0 {
        assert(st.seen.union(requested_names(items)) =~= st.seen);
    } else {
        lemma_step_keeps_groups(tools, requested, st, items[0], max_definitions, max_tool_tokens);
        let next = discovery_step(tools, requested, st, items[0], max_definitions, max_tool_tokens);
        lemma_run_keeps_groups(tools, requested, next, items.drop_first(), max_definitions, max_tool_tokens);
        assert(next.seen.union(requested_names(items.drop_first())) =~= st.seen.union(
            requested_names(items),
        )) by {
            assert forall|n: Seq<char>| #[trigger] requested_names(items).contains(n) <==> (items[0]
                == Some(n) || requested_names(items.drop_first()).contains(n)) by {
                if items.contains(Some(n)) {
                    let i = choose|i: int| 0 <= i < items.len() && items[i] == Some(n);
                    if i > 0 {
                        assert(items.drop_first()[i - 1] == Some(n));
                    }
                }
                if requested_names(items.drop_first()).contains(n) {
                    let i = choose|i: int|
                        0 <= i < items.drop_first().len() && items.drop_first()[i] == Some(n);
                    assert(items[i + 1] == Some(n));
                }
                if items[0] == Some(n) {
                    assert(items.contains(Some(n)));
                }
            }
        }
    }
}

/// Each distinct name a search result asks for lands in exactly one of the
/// groups activated, already available, unknown and capacity-limited, and
/// only once; no other name appears in them.
pub proof fn law_each_match_lands_in_exactly_one_group(
    tools: Seq<RegisteredToolView>,
    defs: Seq<ToolDefinitionView>,
    surface_tokens: u32,
    items: Seq<Option<Seq<char>>>,
    max_definitions: usize,
    max_tool_tokens: u32,
)
    ensures
        forall|n: Seq<char>|
            #[trigger] group_count(
                discovery_run(
                    tools,
                    requested_names(items),
                    initial_discovery(defs, surface_tokens),
                    items,
                    max_definitions,
                    max_tool_tokens,
                ).outcome,
                n,
            ) == if requested_names(items).contains(n) {
                1nat
            } else {
                0nat
            },
{
    broadcast use vstd::seq_lib::group_to_multiset_ensures;

    let st = initial_discovery(defs, surface_tokens);
    assert forall|n: Seq<char>| #[trigger] group_count(st.outcome, n) == if st.seen.contains(n) {
        1nat
    } else {
        0nat
    } by {
        assert(Seq::<Seq<char>>::empty().to_multiset() =~= vstd::multiset::Multiset::empty());
    }
    lemma_run_keeps_groups(
        tools,
        requested_names(items),
        st,
        items,
        max_definitions,
        max_tool_tokens,
    );
    assert(st.seen.union(requested_names(items)) =~= requested_names(items));
}

} // verus!
