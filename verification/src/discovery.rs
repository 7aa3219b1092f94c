//! Where the Codex executable is looked for on Windows, as a conversation with the file
//! system: each step asks for a probe, and is answered with what the probe found.
use vstd::prelude::*;

use crate::paths::{path_lt, path_precedence, path_view, paths_view};
use crate::quota::{is_codex_extension_directory, npm_candidate, npm_native_candidates, segment_views, target_triple, windows_target_directory};
use crate::text::{Precedence, ascii_lower, seq_starts_with};

verus! {

// ---------------------------------------------------------------------------------------
// The search, stated
// ---------------------------------------------------------------------------------------

/// A place where the executable is looked for.
pub enum Stage {
    /// A directory of the search path: `codex.exe` in it, else, behind an npm launcher, the
    /// package's native executable.
    SearchDirectory(Seq<Seq<char>>),
    /// The desktop app's `bin` directory: `codex.exe` in it, else in its newest version.
    DesktopBundle(Seq<Seq<char>>),
    /// A VS Code extensions directory: the executable of its newest ChatGPT extension.
    Extensions(Seq<Seq<char>>),
}

/// The desktop app's `bin` directory under the local application data.
pub open spec fn bundle_dir(local_app_data: Seq<Seq<char>>) -> Seq<Seq<char>> {
    local_app_data + seq!["OpenAI"@, "Codex"@, "bin"@]
}

/// An extensions directory of VS Code (`root` is `.vscode` or `.vscode-insiders`) in the
/// user's profile.
pub open spec fn extensions_dir(user_profile: Seq<Seq<char>>, root: Seq<char>) -> Seq<Seq<char>> {
    user_profile + seq![root, "extensions"@]
}

/// The places looked in, in turn: each search-path directory, the desktop app's bundle, then
/// the extensions of VS Code and of VS Code Insiders.
pub open spec fn stages(
    search_dirs: Seq<Seq<Seq<char>>>,
    local_app_data: Option<Seq<Seq<char>>>,
    user_profile: Option<Seq<Seq<char>>>,
) -> Seq<Stage> {
    search_dirs.map_values(|d: Seq<Seq<char>>| Stage::SearchDirectory(d)) + match local_app_data {
        Some(l) => seq![Stage::DesktopBundle(bundle_dir(l))],
        None => Seq::empty(),
    } + match user_profile {
        Some(u) => seq![
            Stage::Extensions(extensions_dir(u, ".vscode"@)),
            Stage::Extensions(extensions_dir(u, ".vscode-insiders"@)),
        ],
        None => Seq::empty(),
    }
}

/// The files tested in a search-path directory, in order: `codex.exe`, the three npm
/// launchers (`codex.cmd`, `codex.ps1`, `codex`), then the six npm candidates.
pub open spec fn dir_probes(d: Seq<Seq<char>>, arm64: bool) -> Seq<Seq<Seq<char>>> {
    seq![d.push("codex.exe"@), d.push("codex.cmd"@), d.push("codex.ps1"@), d.push("codex"@)]
        + Seq::new(6, |i: int| d + npm_candidate(i, arm64))
}

/// Whether the probe `i` found a file.
pub open spec fn flagged(flags: Seq<bool>, i: int) -> bool {
    0 <= i < flags.len() && flags[i]
}

/// The first of `candidates`, from position `from` on, that was found.
pub open spec fn first_flagged(candidates: Seq<Seq<Seq<char>>>, flags: Seq<bool>, from: int) -> Option<Seq<Seq<char>>>
    decreases candidates.len() - from,
{
    if from < 0 || from >= candidates.len() {
        None
    } else if flagged(flags, from) {
        Some(candidates[from])
    } else {
        first_flagged(candidates, flags, from + 1)
    }
}

/// The last in path order of the candidates at positions `lo` up to `n` that were found.
pub open spec fn newest_flagged(candidates: Seq<Seq<Seq<char>>>, flags: Seq<bool>, lo: int, n: int) -> Option<Seq<Seq<char>>>
    decreases n - lo,
{
    if n <= lo {
        None
    } else {
        let earlier = newest_flagged(candidates, flags, lo, n - 1);
        if flagged(flags, n - 1) {
            match earlier {
                Some(e) => if path_lt(e, candidates[n - 1]) { Some(candidates[n - 1]) } else { Some(e) },
                None => Some(candidates[n - 1]),
            }
        } else {
            earlier
        }
    }
}

/// What a search-path directory yields, from what its probes found: its `codex.exe`, else,
/// when a launcher is there, the first npm candidate found.
pub open spec fn dir_decision(d: Seq<Seq<char>>, arm64: bool, flags: Seq<bool>) -> Option<Seq<Seq<char>>> {
    let probes = dir_probes(d, arm64);
    if flagged(flags, 0) {
        Some(probes[0])
    } else if flagged(flags, 1) || flagged(flags, 2) || flagged(flags, 3) {
        first_flagged(probes, flags, 4)
    } else {
        None
    }
}

/// Whether a child of an extensions directory is a ChatGPT extension.
pub open spec fn is_extension_name(name: Seq<char>) -> bool {
    seq_starts_with(ascii_lower(name), "openai.chatgpt-"@)
}

/// The probes that count among those of an extensions directory: those of ChatGPT
/// extensions that found a file.
pub open spec fn extension_flags(names: Seq<Seq<char>>, flags: Seq<bool>) -> Seq<bool> {
    Seq::new(names.len(), |i: int| is_extension_name(names[i]) && flagged(flags, i))
}

/// The files tested in a bundle or an extensions directory with the children `names`: for
/// the bundle, its own `codex.exe` and then each child's; for the extensions, each child's
/// `bin\<triple>\codex.exe`.
pub open spec fn child_probes(stage: Stage, names: Seq<Seq<char>>, arm64: bool) -> Seq<Seq<Seq<char>>> {
    match stage {
        Stage::DesktopBundle(b) => seq![b.push("codex.exe"@)] + names.map_values(|c: Seq<char>| b + seq![c, "codex.exe"@]),
        Stage::Extensions(e) => names.map_values(|c: Seq<char>| e + seq![c, "bin"@, target_triple(arm64), "codex.exe"@]),
        Stage::SearchDirectory(_) => Seq::empty(),
    }
}

/// What a bundle or an extensions directory with the children `names` yields, from what the
/// probes found: the bundle's own `codex.exe`, else the newest version's; the newest
/// ChatGPT extension's.
pub open spec fn child_decision(stage: Stage, names: Seq<Seq<char>>, arm64: bool, flags: Seq<bool>) -> Option<Seq<Seq<char>>> {
    let probes = child_probes(stage, names, arm64);
    match stage {
        Stage::DesktopBundle(_) => if flagged(flags, 0) {
            Some(probes[0])
        } else {
            newest_flagged(probes, flags, 1, probes.len() as int)
        },
        Stage::Extensions(_) => newest_flagged(probes, extension_flags(names, flags), 0, probes.len() as int),
        Stage::SearchDirectory(_) => None,
    }
}

/// What a place yields, on a file system where `is_file` tells which paths are files and
/// `children` names the directories in a directory.
pub open spec fn stage_result(
    stage: Stage,
    arm64: bool,
    is_file: spec_fn(Seq<Seq<char>>) -> bool,
    children: spec_fn(Seq<Seq<char>>) -> Seq<Seq<char>>,
) -> Option<Seq<Seq<char>>> {
    match stage {
        Stage::SearchDirectory(d) => dir_decision(d, arm64, dir_probes(d, arm64).map_values(is_file)),
        Stage::DesktopBundle(b) => child_decision(stage, children(b), arm64, child_probes(stage, children(b), arm64).map_values(is_file)),
        Stage::Extensions(e) => child_decision(stage, children(e), arm64, child_probes(stage, children(e), arm64).map_values(is_file)),
    }
}

/// What the first place, from `k` on, that yields something yields.
pub open spec fn first_found(
    places: Seq<Stage>,
    k: int,
    arm64: bool,
    is_file: spec_fn(Seq<Seq<char>>) -> bool,
    children: spec_fn(Seq<Seq<char>>) -> Seq<Seq<char>>,
) -> Option<Seq<Seq<char>>>
    decreases places.len() - k,
{
    if k < 0 || k >= places.len() {
        None
    } else {
        match stage_result(places[k], arm64, is_file, children) {
            Some(p) => Some(p),
            None => first_found(places, k + 1, arm64, is_file, children),
        }
    }
}

// ---------------------------------------------------------------------------------------
// The conversation
// ---------------------------------------------------------------------------------------

/// Where the search stands, as a value.
pub enum StateView {
    Begin,
    AwaitFiles(nat),
    AwaitChildren(nat),
    AwaitChildFiles(nat, Seq<Seq<char>>),
    Done,
}

/// What the file system answered, as a value.
pub enum EventView {
    Start,
    Files(Seq<bool>),
    Children(Seq<Seq<char>>),
}

/// What the search asks for next, as a value.
pub enum ActionView {
    TestFiles(Seq<Seq<Seq<char>>>),
    ListChildDirectories(Seq<Seq<char>>),
    Found(Seq<Seq<char>>),
    NotFound,
}

/// The first request for place `k`, or the end of the search when there is none.
pub open spec fn start_stage(places: Seq<Stage>, k: int, arm64: bool) -> (StateView, ActionView) {
    if k < 0 || k >= places.len() {
        (StateView::Done, ActionView::NotFound)
    } else {
        match places[k] {
            Stage::SearchDirectory(d) => (StateView::AwaitFiles(k as nat), ActionView::TestFiles(dir_probes(d, arm64))),
            Stage::DesktopBundle(b) => (StateView::AwaitChildren(k as nat), ActionView::ListChildDirectories(b)),
            Stage::Extensions(e) => (StateView::AwaitChildren(k as nat), ActionView::ListChildDirectories(e)),
        }
    }
}

/// One step of the search among `places`: the next state and request, given the answer to
/// the previous request. A place that yields nothing leads to the next one; an answer that
/// does not fit the request ends the search.
pub open spec fn spec_discovery_step(places: Seq<Stage>, arm64: bool, state: StateView, event: EventView) -> (StateView, ActionView) {
    match state {
        StateView::Begin => start_stage(places, 0, arm64),
        StateView::AwaitFiles(k) => match event {
            EventView::Files(flags) => if k < places.len() && places[k as int] is SearchDirectory {
                match dir_decision(places[k as int]->SearchDirectory_0, arm64, flags) {
                    Some(p) => (StateView::Done, ActionView::Found(p)),
                    None => start_stage(places, (k + 1) as int, arm64),
                }
            } else {
                (StateView::Done, ActionView::NotFound)
            },
            _ => (StateView::Done, ActionView::NotFound),
        },
        StateView::AwaitChildren(k) => match event {
            EventView::Children(names) => if k < places.len() {
                (StateView::AwaitChildFiles(k, names), ActionView::TestFiles(child_probes(places[k as int], names, arm64)))
            } else {
                (StateView::Done, ActionView::NotFound)
            },
            _ => (StateView::Done, ActionView::NotFound),
        },
        StateView::AwaitChildFiles(k, names) => match event {
            EventView::Files(flags) => if k < places.len() {
                match child_decision(places[k as int], names, arm64, flags) {
                    Some(p) => (StateView::Done, ActionView::Found(p)),
                    None => start_stage(places, (k + 1) as int, arm64),
                }
            } else {
                (StateView::Done, ActionView::NotFound)
            },
            _ => (StateView::Done, ActionView::NotFound),
        },
        StateView::Done => (StateView::Done, ActionView::NotFound),
    }
}

/// The file system's answer to a request.
pub open spec fn respond(
    action: ActionView,
    is_file: spec_fn(Seq<Seq<char>>) -> bool,
    children: spec_fn(Seq<Seq<char>>) -> Seq<Seq<char>>,
) -> EventView {
    match action {
        ActionView::TestFiles(paths) => EventView::Files(paths.map_values(is_file)),
        ActionView::ListChildDirectories(d) => EventView::Children(children(d)),
        _ => EventView::Start,
    }
}

/// The conversation run for at most `fuel` more steps, each request answered by the file
/// system: the last request made.
pub open spec fn converse(
    places: Seq<Stage>,
    arm64: bool,
    state: StateView,
    event: EventView,
    is_file: spec_fn(Seq<Seq<char>>) -> bool,
    children: spec_fn(Seq<Seq<char>>) -> Seq<Seq<char>>,
    fuel: nat,
) -> ActionView
    decreases fuel,
{
    let (next, action) = spec_discovery_step(places, arm64, state, event);
    if fuel == 0 || action is Found || action is NotFound {
        action
    } else {
        converse(places, arm64, next, respond(action, is_file, children), is_file, children, (fuel - 1) as nat)
    }
}

/// What the search concludes when it yields `found`.
pub open spec fn conclusion(found: Option<Seq<Seq<char>>>) -> ActionView {
    match found {
        Some(p) => ActionView::Found(p),
        None => ActionView::NotFound,
    }
}

/// The rest of the conversation from the first request of place `k`.
pub open spec fn from_stage(
    places: Seq<Stage>,
    k: int,
    arm64: bool,
    is_file: spec_fn(Seq<Seq<char>>) -> bool,
    children: spec_fn(Seq<Seq<char>>) -> Seq<Seq<char>>,
    fuel: nat,
) -> ActionView {
    let (state, action) = start_stage(places, k, arm64);
    if fuel == 0 || action is Found || action is NotFound {
        action
    } else {
        converse(places, arm64, state, respond(action, is_file, children), is_file, children, (fuel - 1) as nat)
    }
}

proof fn lemma_from_stage(
    places: Seq<Stage>,
    k: int,
    arm64: bool,
    is_file: spec_fn(Seq<Seq<char>>) -> bool,
    children: spec_fn(Seq<Seq<char>>) -> Seq<Seq<char>>,
    fuel: nat,
)
    requires
        0 <= k <= places.len(),
        fuel >= 2 * (places.len() - k) + 1,
    ensures
        from_stage(places, k, arm64, is_file, children, fuel) == conclusion(first_found(places, k, arm64, is_file, children)),
    decreases places.len() - k,
{
    if k < places.len() {
        match places[k] {
            Stage::SearchDirectory(d) => {
                lemma_from_stage(places, k + 1, arm64, is_file, children, (fuel - 1) as nat);
            },
            Stage::DesktopBundle(b) => {
                lemma_from_stage(places, k + 1, arm64, is_file, children, (fuel - 2) as nat);
                let names = children(b);
                let flags = child_probes(places[k], names, arm64).map_values(is_file);
                assert(converse(places, arm64, StateView::AwaitChildren(k as nat), EventView::Children(names), is_file, children, (fuel - 1) as nat)
                    == converse(places, arm64, StateView::AwaitChildFiles(k as nat, names), EventView::Files(flags), is_file, children, (fuel - 2) as nat));
            },
            Stage::Extensions(e) => {
                lemma_from_stage(places, k + 1, arm64, is_file, children, (fuel - 2) as nat);
                let names = children(e);
                let flags = child_probes(places[k], names, arm64).map_values(is_file);
                assert(converse(places, arm64, StateView::AwaitChildren(k as nat), EventView::Children(names), is_file, children, (fuel - 1) as nat)
                    == converse(places, arm64, StateView::AwaitChildFiles(k as nat, names), EventView::Files(flags), is_file, children, (fuel - 2) as nat));
            },
        }
    }
}

/// Driven by a file system's answers, the search ends with the executable of the first
/// place, in the order of `stages`, that yields one: in a search-path directory its
/// `codex.exe`, else behind a launcher the first npm candidate found; in the desktop bundle
/// its `codex.exe`, else the newest version's; in the VS Code extensions the newest ChatGPT
/// extension's. It ends with `NotFound` when no place yields one, and takes at most two
/// requests per place.
pub proof fn law_discovery_finds_the_first_place_that_yields(
    search_dirs: Seq<Seq<Seq<char>>>,
    local_app_data: Option<Seq<Seq<char>>>,
    user_profile: Option<Seq<Seq<char>>>,
    arm64: bool,
    is_file: spec_fn(Seq<Seq<char>>) -> bool,
    children: spec_fn(Seq<Seq<char>>) -> Seq<Seq<char>>,
)
    ensures
        ({
            let places = stages(search_dirs, local_app_data, user_profile);
            converse(places, arm64, StateView::Begin, EventView::Start, is_file, children, 2 * places.len() + 1)
                == conclusion(first_found(places, 0, arm64, is_file, children))
        }),
{
    let places = stages(search_dirs, local_app_data, user_profile);
    lemma_from_stage(places, 0, arm64, is_file, children, 2 * places.len() + 1);
}

} // verus!

verus! {

// ---------------------------------------------------------------------------------------
// The conversation, computed
// ---------------------------------------------------------------------------------------

/// The value of an optional path.
pub open spec fn opt_path(p: Option<Vec<String>>) -> Option<Seq<Seq<char>>> {
    match p {
        Some(v) => Some(path_view(v)),
        None => None,
    }
}

fn copy_path(p: &Vec<String>) -> (r: Vec<String>)
    ensures
        path_view(r) == path_view(*p),
{
    let mut out: Vec<String> = Vec::new();
    let mut i: usize = 0;
    while i < p.len()
        invariant
            i <= p@.len(),
            path_view(out) == path_view(*p).take(i as int),
        decreases p@.len() - i,
    {
        out.push(p[i].clone());
        assert(path_view(*p).take(i + 1) =~= path_view(*p).take(i as int).push(p@[i as int]@));
        assert(path_view(out) =~= path_view(*p).take(i + 1));
        i = i + 1;
    }
    assert(path_view(*p).take(i as int) =~= path_view(*p));
    out
}

/// `p` followed by `tail`.
fn joined(p: &Vec<String>, tail: &Vec<String>) -> (r: Vec<String>)
    ensures
        path_view(r) == path_view(*p) + path_view(*tail),
{
    let mut out = copy_path(p);
    let mut i: usize = 0;
    while i < tail.len()
        invariant
            i <= tail@.len(),
            path_view(out) == path_view(*p) + path_view(*tail).take(i as int),
        decreases tail@.len() - i,
    {
        let ghost before = path_view(out);
        out.push(tail[i].clone());
        assert(path_view(out) =~= before.push(tail@[i as int]@));
        assert(path_view(*tail).take(i + 1) =~= path_view(*tail).take(i as int).push(tail@[i as int]@));
        assert(path_view(out) =~= path_view(*p) + path_view(*tail).take(i + 1));
        i = i + 1;
    }
    assert(path_view(*tail).take(i as int) =~= path_view(*tail));
    out
}

/// `p` with the name `name` added.
fn with_child(p: &Vec<String>, name: &str) -> (r: Vec<String>)
    ensures
        path_view(r) == path_view(*p).push(name@),
{
    let mut out = copy_path(p);
    let ghost before = path_view(out);
    out.push(name.to_owned());
    assert(path_view(out) =~= before.push(name@));
    out
}

/// The first of `candidates`, from `from` on, that was found (see `first_flagged`).
fn first_found_of(candidates: &Vec<Vec<String>>, flags: &Vec<bool>, from: usize) -> (r: Option<Vec<String>>)
    ensures
        opt_path(r) == first_flagged(paths_view(candidates@), flags@, from as int),
{
    let ghost c = paths_view(candidates@);
    let mut i = from;
    while i < candidates.len()
        invariant
            from <= i,
            c == paths_view(candidates@),
            first_flagged(c, flags@, from as int) == first_flagged(c, flags@, i as int),
        decreases candidates@.len() - i,
    {
        if i < flags.len() && flags[i] {
            proof {
                assert(c[i as int] == path_view(candidates@[i as int]));
            }
            return Some(copy_path(&candidates[i]));
        }
        i = i + 1;
    }
    None
}

/// The last in path order of the candidates at `lo` up to `n` that were found (see
/// `newest_flagged`).
fn newest_found_of(candidates: &Vec<Vec<String>>, flags: &Vec<bool>, lo: usize, n: usize) -> (r: Option<Vec<String>>)
    requires
        n <= candidates@.len(),
    ensures
        opt_path(r) == newest_flagged(paths_view(candidates@), flags@, lo as int, n as int),
{
    let ghost c = paths_view(candidates@);
    let mut best: Option<usize> = None;
    let mut i = lo;
    if n <= lo {
        return None;
    }
    while i < n
        invariant
            lo <= i <= n,
            n <= candidates@.len(),
            c == paths_view(candidates@),
            match best {
                Some(b) => b < i && newest_flagged(c, flags@, lo as int, i as int) == Some(c[b as int]),
                None => newest_flagged(c, flags@, lo as int, i as int) is None,
            },
        decreases n - i,
    {
        if i < flags.len() && flags[i] {
            match best {
                Some(b) => {
                    proof {
                        assert(c[b as int] == path_view(candidates@[b as int]));
                        assert(c[i as int] == path_view(candidates@[i as int]));
                    }
                    if path_precedence(&candidates[b], &candidates[i]) == Precedence::Before {
                        best = Some(i);
                    }
                },
                None => {
                    best = Some(i);
                },
            }
        }
        i = i + 1;
    }
    match best {
        Some(b) => {
            proof {
                assert(c[b as int] == path_view(candidates@[b as int]));
            }
            Some(copy_path(&candidates[b]))
        },
        None => None,
    }
}

/// The kind of a place, the directory aside.
#[derive(Debug, Clone, Copy, PartialEq, Eq, Structural)]
pub enum StageKind {
    SearchDirectory,
    DesktopBundle,
    Extensions,
}

/// The place of a kind at a directory.
pub open spec fn stage_of(kind: StageKind, d: Seq<Seq<char>>) -> Stage {
    match kind {
        StageKind::SearchDirectory => Stage::SearchDirectory(d),
        StageKind::DesktopBundle => Stage::DesktopBundle(d),
        StageKind::Extensions => Stage::Extensions(d),
    }
}

/// The places looked in for the given search path, local application data and user profile.
pub open spec fn places_of(
    search_dirs: Seq<Vec<String>>,
    local_app_data: Option<Vec<String>>,
    user_profile: Option<Vec<String>>,
) -> Seq<Stage> {
    stages(paths_view(search_dirs), opt_path(local_app_data), opt_path(user_profile))
}

/// Place `k`, when there is one.
fn stage_at(
    search_dirs: &Vec<Vec<String>>,
    local_app_data: &Option<Vec<String>>,
    user_profile: &Option<Vec<String>>,
    k: usize,
) -> (r: Option<(StageKind, Vec<String>)>)
    ensures
        r is Some <==> k < places_of(search_dirs@, *local_app_data, *user_profile).len(),
        r matches Some((kind, d)) ==> places_of(search_dirs@, *local_app_data, *user_profile)[k as int] == stage_of(kind, path_view(d)),
{
    let ghost places = places_of(search_dirs@, *local_app_data, *user_profile);
    let n = search_dirs.len();
    if k < n {
        proof {
            assert(paths_view(search_dirs@)[k as int] == path_view(search_dirs@[k as int]));
        }
        return Some((StageKind::SearchDirectory, copy_path(&search_dirs[k])));
    }
    let mut j = k - n;
    match local_app_data {
        Some(l) => {
            if j == 0 {
                let d = with_child(&with_child(&with_child(l, "OpenAI"), "Codex"), "bin");
                proof {
                    assert(path_view(d) =~= bundle_dir(path_view(*l)));
                }
                return Some((StageKind::DesktopBundle, d));
            }
            j = j - 1;
        },
        None => {},
    }
    match user_profile {
        Some(u) => {
            if j == 0 {
                let d = with_child(&with_child(u, ".vscode"), "extensions");
                proof {
                    assert(path_view(d) =~= extensions_dir(path_view(*u), ".vscode"@));
                }
                Some((StageKind::Extensions, d))
            } else if j == 1 {
                let d = with_child(&with_child(u, ".vscode-insiders"), "extensions");
                proof {
                    assert(path_view(d) =~= extensions_dir(path_view(*u), ".vscode-insiders"@));
                }
                Some((StageKind::Extensions, d))
            } else {
                None
            }
        },
        None => None,
    }
}

/// The files tested in a search-path directory (see `dir_probes`).
fn dir_probes_of(d: &Vec<String>, arm64: bool) -> (r: Vec<Vec<String>>)
    ensures
        paths_view(r@) == dir_probes(path_view(*d), arm64),
{
    let ghost want = dir_probes(path_view(*d), arm64);
    let mut out: Vec<Vec<String>> = Vec::new();
    out.push(with_child(d, "codex.exe"));
    out.push(with_child(d, "codex.cmd"));
    out.push(with_child(d, "codex.ps1"));
    out.push(with_child(d, "codex"));
    let candidates = npm_native_candidates(arm64);
    proof {
        assert(paths_view(out@) =~= want.take(4));
    }
    let mut i: usize = 0;
    while i < 6
        invariant
            i <= 6,
            want == dir_probes(path_view(*d), arm64),
            want.len() == 10,
            segment_views(candidates@).len() == 6,
            forall|k: int| 0 <= k < 6 ==> #[trigger] segment_views(candidates@)[k] == npm_candidate(k, arm64),
            paths_view(out@) == want.take(4 + i),
        decreases 6 - i,
    {
        proof {
            assert(segment_views(candidates@)[i as int] == path_view(candidates@[i as int]));
        }
        let next = joined(d, &candidates[i]);
        let ghost before = paths_view(out@);
        out.push(next);
        proof {
            assert(want[4 + i] == path_view(*d) + npm_candidate(i as int, arm64));
            assert(paths_view(out@) =~= before.push(path_view(next)));
            assert(want.take(4 + i + 1) =~= want.take(4 + i).push(want[4 + i]));
        }
        i = i + 1;
    }
    proof {
        assert(want.take(10) =~= want);
    }
    out
}

/// The files tested in a bundle or an extensions directory with the children `names` (see
/// `child_probes`).
fn child_probes_of(kind: StageKind, dir: &Vec<String>, names: &Vec<String>, arm64: bool) -> (r: Vec<Vec<String>>)
    ensures
        paths_view(r@) == child_probes(stage_of(kind, path_view(*dir)), path_view(*names), arm64),
{
    let ghost want = child_probes(stage_of(kind, path_view(*dir)), path_view(*names), arm64);
    let ghost b = path_view(*dir);
    let ghost nv = path_view(*names);
    let mut out: Vec<Vec<String>> = Vec::new();
    match kind {
        StageKind::SearchDirectory => {
            proof {
                assert(paths_view(out@) =~= want);
            }
            out
        },
        StageKind::DesktopBundle => {
            out.push(with_child(dir, "codex.exe"));
            let mut i: usize = 0;
            proof {
                assert(paths_view(out@) =~= seq![b.push("codex.exe"@)] + nv.map_values(|c: Seq<char>| b + seq![c, "codex.exe"@]).take(0));
            }
            while i < names.len()
                invariant
                    i <= names@.len(),
                    b == path_view(*dir),
                    nv == path_view(*names),
                    paths_view(out@) == seq![b.push("codex.exe"@)] + nv.map_values(|c: Seq<char>| b + seq![c, "codex.exe"@]).take(i as int),
                decreases names@.len() - i,
            {
                let next = with_child(&with_child(dir, names[i].as_str()), "codex.exe");
                let ghost before = paths_view(out@);
                out.push(next);
                proof {
                    assert(nv[i as int] == names@[i as int]@);
                    assert(path_view(next) =~= b + seq![nv[i as int], "codex.exe"@]);
                    assert(paths_view(out@) =~= before.push(path_view(next)));
                    assert(nv.map_values(|c: Seq<char>| b + seq![c, "codex.exe"@]).take(i + 1)
                        =~= nv.map_values(|c: Seq<char>| b + seq![c, "codex.exe"@]).take(i as int).push(path_view(next)));
                }
                i = i + 1;
            }
            proof {
                assert(nv.map_values(|c: Seq<char>| b + seq![c, "codex.exe"@]).take(i as int)
                    =~= nv.map_values(|c: Seq<char>| b + seq![c, "codex.exe"@]));
            }
            out
        },
        StageKind::Extensions => {
            let triple = windows_target_directory(arm64);
            let ghost t = target_triple(arm64);
            let mut i: usize = 0;
            proof {
                assert(paths_view(out@) =~= nv.map_values(|c: Seq<char>| b + seq![c, "bin"@, t, "codex.exe"@]).take(0));
            }
            while i < names.len()
                invariant
                    i <= names@.len(),
                    b == path_view(*dir),
                    nv == path_view(*names),
                    t == target_triple(arm64),
                    triple@ == t,
                    paths_view(out@) == nv.map_values(|c: Seq<char>| b + seq![c, "bin"@, t, "codex.exe"@]).take(i as int),
                decreases names@.len() - i,
            {
                let next = with_child(&with_child(&with_child(&with_child(dir, names[i].as_str()), "bin"), triple), "codex.exe");
                let ghost before = paths_view(out@);
                out.push(next);
                proof {
                    assert(nv[i as int] == names@[i as int]@);
                    assert(path_view(next) =~= b + seq![nv[i as int], "bin"@, t, "codex.exe"@]);
                    assert(paths_view(out@) =~= before.push(path_view(next)));
                    assert(nv.map_values(|c: Seq<char>| b + seq![c, "bin"@, t, "codex.exe"@]).take(i + 1)
                        =~= nv.map_values(|c: Seq<char>| b + seq![c, "bin"@, t, "codex.exe"@]).take(i as int).push(path_view(next)));
                }
                i = i + 1;
            }
            proof {
                assert(nv.map_values(|c: Seq<char>| b + seq![c, "bin"@, t, "codex.exe"@]).take(i as int)
                    =~= nv.map_values(|c: Seq<char>| b + seq![c, "bin"@, t, "codex.exe"@]));
            }
            out
        },
    }
}

/// Which children count for an extensions directory (see `extension_flags`).
fn extension_flags_of(names: &Vec<String>, flags: &Vec<bool>) -> (r: Vec<bool>)
    ensures
        r@ == extension_flags(path_view(*names), flags@),
{
    let mut out: Vec<bool> = Vec::new();
    let mut i: usize = 0;
    while i < names.len()
        invariant
            i <= names@.len(),
            out@ == extension_flags(path_view(*names), flags@).take(i as int),
        decreases names@.len() - i,
    {
        let counts = is_codex_extension_directory(names[i].as_str()) && i < flags.len() && flags[i];
        proof {
            assert(path_view(*names)[i as int] == names@[i as int]@);
        }
        out.push(counts);
        proof {
            assert(extension_flags(path_view(*names), flags@).take(i + 1)
                =~= extension_flags(path_view(*names), flags@).take(i as int).push(counts));
        }
        i = i + 1;
    }
    proof {
        assert(extension_flags(path_view(*names), flags@).take(i as int) =~= extension_flags(path_view(*names), flags@));
    }
    out
}

fn flag_at(flags: &Vec<bool>, i: usize) -> (r: bool)
    ensures
        r == flagged(flags@, i as int),
{
    i < flags.len() && flags[i]
}

/// What a search-path directory yields (see `dir_decision`).
fn dir_decision_of(d: &Vec<String>, arm64: bool, flags: &Vec<bool>) -> (r: Option<Vec<String>>)
    ensures
        opt_path(r) == dir_decision(path_view(*d), arm64, flags@),
{
    let probes = dir_probes_of(d, arm64);
    proof {
        assert(paths_view(probes@)[0] == path_view(probes@[0]));
    }
    if flag_at(flags, 0) {
        Some(copy_path(&probes[0]))
    } else if flag_at(flags, 1) || flag_at(flags, 2) || flag_at(flags, 3) {
        first_found_of(&probes, flags, 4)
    } else {
        None
    }
}

/// What a bundle or an extensions directory yields (see `child_decision`).
fn child_decision_of(kind: StageKind, dir: &Vec<String>, names: &Vec<String>, arm64: bool, flags: &Vec<bool>) -> (r: Option<Vec<String>>)
    ensures
        opt_path(r) == child_decision(stage_of(kind, path_view(*dir)), path_view(*names), arm64, flags@),
{
    let probes = child_probes_of(kind, dir, names, arm64);
    match kind {
        StageKind::SearchDirectory => None,
        StageKind::DesktopBundle => {
            proof {
                assert(paths_view(probes@)[0] == path_view(probes@[0]));
            }
            if flag_at(flags, 0) {
                Some(copy_path(&probes[0]))
            } else {
                newest_found_of(&probes, flags, 1, probes.len())
            }
        },
        StageKind::Extensions => {
            let counted = extension_flags_of(names, flags);
            newest_found_of(&probes, &counted, 0, probes.len())
        },
    }
}

/// Where the search stands.
#[derive(Debug)]
pub enum DiscoveryState {
    /// Nothing asked yet.
    Begin,
    /// The files of search-path directory `k` were asked for.
    AwaitFiles(usize),
    /// The children of place `k` were asked for.
    AwaitChildren(usize),
    /// The files of place `k` with these children were asked for.
    AwaitChildFiles(usize, Vec<String>),
    /// The search is over.
    Done,
}

/// What the file system answered to the last request.
#[derive(Debug)]
pub enum ProbeEvent {
    /// The search begins.
    Start,
    /// Whether each path asked about is a file.
    Files(Vec<bool>),
    /// The names of the directories in the directory asked about.
    Children(Vec<String>),
}

/// What the search asks of the file system next, or its conclusion.
#[derive(Debug)]
pub enum ProbeAction {
    /// Tell whether each of these paths is a file.
    TestFiles(Vec<Vec<String>>),
    /// Name the directories in this directory.
    ListChildDirectories(Vec<String>),
    /// The executable is at this path.
    Found(Vec<String>),
    /// There is no executable.
    NotFound,
}

impl View for DiscoveryState {
    type V = StateView;

    open spec fn view(&self) -> StateView {
        match self {
            DiscoveryState::Begin => StateView::Begin,
            DiscoveryState::AwaitFiles(k) => StateView::AwaitFiles(*k as nat),
            DiscoveryState::AwaitChildren(k) => StateView::AwaitChildren(*k as nat),
            DiscoveryState::AwaitChildFiles(k, names) => StateView::AwaitChildFiles(*k as nat, path_view(*names)),
            DiscoveryState::Done => StateView::Done,
        }
    }
}

impl View for ProbeEvent {
    type V = EventView;

    open spec fn view(&self) -> EventView {
        match self {
            ProbeEvent::Start => EventView::Start,
            ProbeEvent::Files(flags) => EventView::Files(flags@),
            ProbeEvent::Children(names) => EventView::Children(path_view(*names)),
        }
    }
}

impl View for ProbeAction {
    type V = ActionView;

    open spec fn view(&self) -> ActionView {
        match self {
            ProbeAction::TestFiles(paths) => ActionView::TestFiles(paths_view(paths@)),
            ProbeAction::ListChildDirectories(d) => ActionView::ListChildDirectories(path_view(*d)),
            ProbeAction::Found(p) => ActionView::Found(path_view(*p)),
            ProbeAction::NotFound => ActionView::NotFound,
        }
    }
}

/// The first request for place `k` (see `start_stage`).
fn start_stage_of(
    search_dirs: &Vec<Vec<String>>,
    local_app_data: &Option<Vec<String>>,
    user_profile: &Option<Vec<String>>,
    arm64: bool,
    k: usize,
) -> (r: (DiscoveryState, ProbeAction))
    ensures
        (r.0@, r.1@) == start_stage(places_of(search_dirs@, *local_app_data, *user_profile), k as int, arm64),
{
    match stage_at(search_dirs, local_app_data, user_profile, k) {
        None => (DiscoveryState::Done, ProbeAction::NotFound),
        Some((StageKind::SearchDirectory, d)) => (DiscoveryState::AwaitFiles(k), ProbeAction::TestFiles(dir_probes_of(&d, arm64))),
        Some((_, d)) => (DiscoveryState::AwaitChildren(k), ProbeAction::ListChildDirectories(d)),
    }
}

/// One step of the search for the Codex executable (see `spec_discovery_step`): given the
/// search path's directories, the local application data and user profile directories
/// (each as path components), the architecture, where the search stands and the answer to
/// its last request, where it stands next and what it asks for. Begun with `Begin` and
/// `Start`, each request answered, it ends with the executable of the first place that
/// yields one (see `law_discovery_finds_the_first_place_that_yields`).
pub fn discovery_step(
    search_dirs: &Vec<Vec<String>>,
    local_app_data: &Option<Vec<String>>,
    user_profile: &Option<Vec<String>>,
    arm64: bool,
    state: DiscoveryState,
    event: ProbeEvent,
) -> (r: (DiscoveryState, ProbeAction))
    requires
        search_dirs@.len() + 3 < usize::MAX,
    ensures
        (r.0@, r.1@) == spec_discovery_step(places_of(search_dirs@, *local_app_data, *user_profile), arm64, state@, event@),
{
    let ghost places = places_of(search_dirs@, *local_app_data, *user_profile);
    proof {
        assert(places.len() <= search_dirs@.len() + 3);
    }
    match state {
        DiscoveryState::Begin => start_stage_of(search_dirs, local_app_data, user_profile, arm64, 0),
        DiscoveryState::AwaitFiles(k) => match event {
            ProbeEvent::Files(flags) => match stage_at(search_dirs, local_app_data, user_profile, k) {
                Some((StageKind::SearchDirectory, d)) => match dir_decision_of(&d, arm64, &flags) {
                    Some(p) => (DiscoveryState::Done, ProbeAction::Found(p)),
                    None => start_stage_of(search_dirs, local_app_data, user_profile, arm64, k + 1),
                },
                _ => (DiscoveryState::Done, ProbeAction::NotFound),
            },
            _ => (DiscoveryState::Done, ProbeAction::NotFound),
        },
        DiscoveryState::AwaitChildren(k) => match event {
            ProbeEvent::Children(names) => match stage_at(search_dirs, local_app_data, user_profile, k) {
                Some((kind, d)) => {
                    let probes = child_probes_of(kind, &d, &names, arm64);
                    (DiscoveryState::AwaitChildFiles(k, names), ProbeAction::TestFiles(probes))
                },
                None => (DiscoveryState::Done, ProbeAction::NotFound),
            },
            _ => (DiscoveryState::Done, ProbeAction::NotFound),
        },
        DiscoveryState::AwaitChildFiles(k, names) => match event {
            ProbeEvent::Files(flags) => match stage_at(search_dirs, local_app_data, user_profile, k) {
                Some((kind, d)) => match child_decision_of(kind, &d, &names, arm64, &flags) {
                    Some(p) => (DiscoveryState::Done, ProbeAction::Found(p)),
                    None => start_stage_of(search_dirs, local_app_data, user_profile, arm64, k + 1),
                },
                None => (DiscoveryState::Done, ProbeAction::NotFound),
            },
            _ => (DiscoveryState::Done, ProbeAction::NotFound),
        },
        DiscoveryState::Done => (DiscoveryState::Done, ProbeAction::NotFound),
    }
}

} // verus!
