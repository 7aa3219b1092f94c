//! Recognition of running Codex processes, for showing the HUD when Codex starts.
use vstd::prelude::*;

use std::collections::HashMap;

use crate::text::{ascii_lower, ascii_lower_char, lower_ascii_char, seq_starts_with, chars_equal, chars_start_with};

verus! {

broadcast use vstd::std_specs::hash::group_hash_axioms;

/// A running process: its id, its parent's id, and the full path of its executable (empty
/// when it was not looked up).
#[derive(Debug, Clone)]
pub struct ProcessIdentity {
    pub pid: u32,
    pub parent_pid: u32,
    pub executable: String,
}

/// Whether `ancestor` is reached from `current` within `steps` steps up the parent chain.
/// The walk stops at a process without a known parent, at parent 0, and at a process that
/// is its own parent.
pub open spec fn descends_within(parents: Map<u32, u32>, current: u32, ancestor: u32, steps: nat) -> bool
    decreases steps,
{
    if steps == 0 || !parents.contains_key(current) {
        false
    } else {
        let parent = parents[current];
        if parent == ancestor {
            true
        } else if parent == 0 || parent == current {
            false
        } else {
            descends_within(parents, parent, ancestor, (steps - 1) as nat)
        }
    }
}

/// The most parent links followed.
pub open spec fn max_depth() -> nat {
    64
}

/// Whether `pid` descends from `ancestor` within 64 generations, by the parent links in
/// `parents`.
pub fn is_descendant_of(pid: u32, ancestor: u32, parents: &HashMap<u32, u32>) -> (r: bool)
    ensures
        r == descends_within(parents@, pid, ancestor, max_depth()),
{
    let mut current = pid;
    let mut step: u32 = 0;
    while step < 64
        invariant
            step <= 64,
            descends_within(parents@, pid, ancestor, max_depth()) == descends_within(
                parents@,
                current,
                ancestor,
                (64 - step) as nat,
            ),
        decreases 64 - step,
    {
        let parent = match parents.get(&current) {
            Some(p) => *p,
            None => {
                return false;
            },
        };
        if parent == ancestor {
            return true;
        }
        if parent == 0 || parent == current {
            return false;
        }
        current = parent;
        step = step + 1;
    }
    false
}

} // verus!

verus! {

/// Whether `c` separates the components of a Windows path.
pub open spec fn is_path_separator(c: char) -> bool {
    c == '\\' || c == '/'
}

/// Whether `c` separates components: after a verbatim prefix (`\\?\`) only a backslash
/// does.
pub open spec fn separates(c: char, verbatim: bool) -> bool {
    if verbatim { c == '\\' } else { is_path_separator(c) }
}

/// Whether `c` is an ASCII letter, as a drive letter is.
pub open spec fn is_ascii_letter(c: char) -> bool {
    ('a' <= c && c <= 'z') || ('A' <= c && c <= 'Z')
}

/// The length of the first component of `s`: the characters before the first separator.
pub open spec fn component_len(s: Seq<char>, verbatim: bool) -> int
    decreases s.len(),
{
    if s.len() == 0 || separates(s[0], verbatim) {
        0
    } else {
        1 + component_len(s.drop_first(), verbatim)
    }
}

/// What follows the first component of `s` and the separator after it.
pub open spec fn after_component(s: Seq<char>, verbatim: bool) -> Seq<char> {
    let n = component_len(s, verbatim);
    if n < s.len() { s.skip(n + 1) } else { Seq::empty() }
}

/// The length of a server and share, `server\share`, at the start of `s`: the share and its
/// separator count only when the share is not empty.
pub open spec fn server_share_len(s: Seq<char>, verbatim: bool) -> int {
    let server = component_len(s, verbatim);
    let share = component_len(after_component(s, verbatim), verbatim);
    server + if share > 0 { 1 + share } else { 0 }
}

/// The prefix of a Windows path, as `Path::components` reads it: its length, and whether it
/// is verbatim. The forms are `\\?\UNC\server\share`, `\\?\C:`, `\\?\name` (verbatim),
/// `\\.\device`, `\\server\share` (server and share not empty) and `C:`; outside the
/// verbatim forms either slash separates.
pub open spec fn path_prefix(s: Seq<char>) -> (int, bool) {
    if s.len() >= 2 && is_path_separator(s[0]) && is_path_separator(s[1]) {
        if s.len() >= 4 && s[0] == '\\' && s[1] == '\\' && s[2] == '?' && s[3] == '\\' {
            let r = s.skip(4);
            if r.len() >= 4 && r[0] == 'U' && r[1] == 'N' && r[2] == 'C' && is_path_separator(r[3]) {
                (8 + server_share_len(s.skip(8), true), true)
            } else if r.len() >= 2 && is_ascii_letter(r[0]) && r[1] == ':' && (r.len() == 2 || r[2] == '\\') {
                (6, true)
            } else {
                (4 + component_len(r, true), true)
            }
        } else if s.len() >= 4 && s[2] == '.' && is_path_separator(s[3]) {
            (4 + component_len(s.skip(4), false), false)
        } else {
            let rest = s.skip(2);
            if component_len(rest, false) > 0 && component_len(after_component(rest, false), false) > 0 {
                (2 + server_share_len(rest, false), false)
            } else {
                (0, false)
            }
        }
    } else if s.len() >= 2 && is_ascii_letter(s[0]) && s[1] == ':' {
        (2, false)
    } else {
        (0, false)
    }
}

/// The components found so far, and the one being read, after reading `s`.
pub open spec fn scan_components(s: Seq<char>, verbatim: bool) -> (Seq<Seq<char>>, Seq<char>)
    decreases s.len(),
{
    if s.len() == 0 {
        (Seq::empty(), Seq::empty())
    } else {
        let (done, current) = scan_components(s.drop_last(), verbatim);
        if separates(s.last(), verbatim) {
            (close_component(done, current, verbatim), Seq::empty())
        } else {
            (done, current.push(s.last()))
        }
    }
}

/// `done` with `current` added, unless `current` is empty, or is `.` outside a verbatim
/// path.
pub open spec fn close_component(done: Seq<Seq<char>>, current: Seq<char>, verbatim: bool) -> Seq<Seq<char>> {
    if current.len() == 0 || (!verbatim && current == "."@) {
        done
    } else {
        done.push(current)
    }
}

/// The named components of a Windows path, as `Path::components` yields them after the
/// path's prefix and root: the texts between separators, leaving out empty ones and, outside
/// a verbatim path, `.`. (The prefix, the root and a leading `.` are left out; none of them
/// can be a name that the rules below look for.)
pub open spec fn path_components(s: Seq<char>) -> Seq<Seq<char>> {
    let (n, verbatim) = path_prefix(s);
    let (done, current) = scan_components(s.skip(n), verbatim);
    close_component(done, current, verbatim)
}

/// Each of `c` in ASCII lower case.
pub open spec fn lower_each(c: Seq<Seq<char>>) -> Seq<Seq<char>> {
    c.map_values(|x: Seq<char>| ascii_lower(x))
}

/// The values of a list of character lists.
pub open spec fn chars_views(v: Seq<Vec<char>>) -> Seq<Seq<char>> {
    v.map_values(|c: Vec<char>| c@)
}

/// Whether one of `c` is `word`.
pub open spec fn has_component(c: Seq<Seq<char>>, word: Seq<char>) -> bool {
    exists|i: int| 0 <= i < c.len() && #[trigger] c[i] == word
}

/// Whether one of `c` starts with `prefix`.
pub open spec fn has_component_starting(c: Seq<Seq<char>>, prefix: Seq<char>) -> bool {
    exists|i: int| 0 <= i < c.len() && seq_starts_with(#[trigger] c[i], prefix)
}

/// Whether `c` holds `openai`, `codex`, `bin` in a row.
pub open spec fn has_desktop_layout(c: Seq<Seq<char>>) -> bool {
    exists|i: int| 0 <= i && i + 3 <= c.len() && #[trigger] c[i] == "openai"@ && c[i + 1] == "codex"@ && c[i + 2] == "bin"@
}

/// Whether `c` holds `@openai` followed by `codex` or by a `codex-win32-` package.
pub open spec fn has_npm_package(c: Seq<Seq<char>>) -> bool {
    exists|i: int| 0 <= i && i + 2 <= c.len() && #[trigger] c[i] == "@openai"@
        && (c[i + 1] == "codex"@ || seq_starts_with(c[i + 1], "codex-win32-"@))
}

/// Whether `c` holds `vendor`, a Windows target triple, `bin` or `codex`, and `codex.exe`
/// in a row.
pub open spec fn has_native_vendor_layout(c: Seq<Seq<char>>) -> bool {
    exists|i: int| 0 <= i && i + 4 <= c.len() && #[trigger] c[i] == "vendor"@
        && (c[i + 1] == "x86_64-pc-windows-msvc"@ || c[i + 1] == "aarch64-pc-windows-msvc"@)
        && (c[i + 2] == "bin"@ || c[i + 2] == "codex"@)
        && c[i + 3] == "codex.exe"@
}

/// Whether the (lower-case) components of an executable's path are those of an official
/// Codex install: `codex.exe` from the VS Code extension, the desktop app, or the npm
/// package's native binary.
pub open spec fn relevant_components(c: Seq<Seq<char>>) -> bool {
    let is_codex = c.len() > 0 && c.last() == "codex.exe"@;
    let is_vscode_extension = has_component(c, ".vscode"@) && has_component_starting(c, "openai.chatgpt-"@)
        && has_component(c, "windows-x86_64"@);
    is_codex && (is_vscode_extension || has_desktop_layout(c) || (has_npm_package(c) && has_native_vendor_layout(c)))
}

/// Whether the executable path `path` is that of an official Codex install; components are
/// compared without regard to ASCII case.
pub open spec fn is_relevant_path(path: Seq<char>) -> bool {
    relevant_components(lower_each(path_components(path)))
}

proof fn lemma_close_views(done: Seq<Vec<char>>, current: Vec<char>)
    ensures
        chars_views(done.push(current)) == chars_views(done).push(current@),
{
    assert(chars_views(done.push(current)) =~= chars_views(done).push(current@));
}

proof fn lemma_close_lower(done: Seq<Seq<char>>, current: Seq<char>, verbatim: bool)
    ensures
        close_component(lower_each(done), ascii_lower(current), verbatim) == lower_each(close_component(done, current, verbatim)),
{
    reveal_strlit(".");
    assert(lower_each(done.push(current)) =~= lower_each(done).push(ascii_lower(current)));
    if ascii_lower(current) == "."@ {
        assert(ascii_lower(current).len() == current.len());
        assert(current.len() == 1);
        assert(ascii_lower(current)[0] == ascii_lower_char(current[0]));
        assert(current =~= "."@);
    }
    if current == "."@ {
        assert(ascii_lower(current) =~= "."@);
    }
}

/// Splitting a path and putting its components in lower case is putting it in lower case
/// and splitting it: separators and `.` have no case.
proof fn lemma_scan_lower(t: Seq<char>, verbatim: bool)
    ensures
        scan_components(ascii_lower(t), verbatim) == (
            lower_each(scan_components(t, verbatim).0),
            ascii_lower(scan_components(t, verbatim).1),
        ),
    decreases t.len(),
{
    if t.len() > 0 {
        assert(ascii_lower(t).drop_last() =~= ascii_lower(t.drop_last()));
        lemma_scan_lower(t.drop_last(), verbatim);
        let (done, current) = scan_components(t.drop_last(), verbatim);
        assert(ascii_lower(t).last() == ascii_lower_char(t.last()));
        lemma_close_lower(done, current, verbatim);
        assert(ascii_lower(current.push(t.last())) =~= ascii_lower(current).push(ascii_lower_char(t.last())));
        assert(ascii_lower(Seq::<char>::empty()) =~= Seq::<char>::empty());
    } else {
        assert(ascii_lower(t) =~= Seq::<char>::empty());
        assert(lower_each(Seq::<Seq<char>>::empty()) =~= Seq::<Seq<char>>::empty());
        assert(ascii_lower(Seq::<char>::empty()) =~= Seq::<char>::empty());
    }
}

fn separates_char(c: char, verbatim: bool) -> (r: bool)
    ensures
        r == separates(c, verbatim),
{
    if verbatim {
        c == '\\'
    } else {
        c == '\\' || c == '/'
    }
}

fn is_letter(c: char) -> (r: bool)
    ensures
        r == is_ascii_letter(c),
{
    ('a' <= c && c <= 'z') || ('A' <= c && c <= 'Z')
}

/// The length of the component of `s` that starts at `start` (see `component_len`).
fn component_length(s: &Vec<char>, start: usize, verbatim: bool) -> (r: usize)
    requires
        start <= s@.len(),
    ensures
        r as int == component_len(s@.skip(start as int), verbatim),
        start + r <= s@.len(),
{
    let mut j = start;
    while j < s.len() && !separates_char(s[j], verbatim)
        invariant
            start <= j <= s@.len(),
            component_len(s@.skip(start as int), verbatim) == (j - start) + component_len(s@.skip(j as int), verbatim),
        decreases s@.len() - j,
    {
        proof {
            assert(s@.skip(j as int)[0] == s@[j as int]);
            assert(s@.skip(j as int).drop_first() =~= s@.skip(j + 1));
        }
        j = j + 1;
    }
    proof {
        if j < s@.len() {
            assert(s@.skip(j as int)[0] == s@[j as int]);
        } else {
            assert(s@.skip(j as int).len() == 0);
        }
    }
    j - start
}

/// Where the text after the component at `start`, and the separator after it, begins.
fn after_component_at(s: &Vec<char>, start: usize, verbatim: bool) -> (r: (usize, usize))
    requires
        start <= s@.len(),
    ensures
        r.0 as int == component_len(s@.skip(start as int), verbatim),
        start + r.0 <= r.1 <= s@.len(),
        s@.skip(r.1 as int) == after_component(s@.skip(start as int), verbatim),
{
    let n = component_length(s, start, verbatim);
    let len = s.len();
    if start + n < len {
        proof {
            assert(s@.skip(start as int).skip(n + 1) =~= s@.skip(start + n + 1));
        }
        (n, start + n + 1)
    } else {
        proof {
            assert(s@.skip(s@.len() as int) =~= Seq::<char>::empty());
        }
        (n, s.len())
    }
}

/// The length of the server and share at `start` (see `server_share_len`).
fn server_share_length(s: &Vec<char>, start: usize, verbatim: bool) -> (r: (usize, usize))
    requires
        start <= s@.len(),
    ensures
        r.0 as int == component_len(s@.skip(start as int), verbatim),
        r.1 as int == component_len(after_component(s@.skip(start as int), verbatim), verbatim),
        start + r.0 + (if r.1 > 0 { 1 + r.1 } else { 0int }) <= s@.len(),
{
    let (server, next) = after_component_at(s, start, verbatim);
    let share = component_length(s, next, verbatim);
    proof {
        if share > 0 {
            assert(next < s@.len());
            assert(next == start + server + 1) by {
                if next != start + server + 1 {
                    assert(s@.skip(next as int).len() == 0);
                }
            }
        }
    }
    (server, share)
}

/// The prefix of a Windows path (see `path_prefix`).
fn prefix_of(s: &Vec<char>) -> (r: (usize, bool))
    ensures
        (r.0 as int, r.1) == path_prefix(s@),
        r.0 <= s@.len(),
{
    let n = s.len();
    if n >= 2 && separates_char(s[0], false) && separates_char(s[1], false) {
        if n >= 4 && s[0] == '\\' && s[1] == '\\' && s[2] == '?' && s[3] == '\\' {
            proof {
                assert(s@.skip(4).len() == n - 4);
            }
            if n >= 8 && s[4] == 'U' && s[5] == 'N' && s[6] == 'C' && separates_char(s[7], false) {
                proof {
                    assert(s@.skip(4)[0] == s@[4] && s@.skip(4)[1] == s@[5] && s@.skip(4)[2] == s@[6] && s@.skip(4)[3] == s@[7]);
                }
                let (server, share) = server_share_length(s, 8, true);
                let len = if share > 0 { 8 + server + 1 + share } else { 8 + server };
                (len, true)
            } else if n >= 6 && is_letter(s[4]) && s[5] == ':' && (n == 6 || s[6] == '\\') {
                proof {
                    assert(s@.skip(4)[0] == s@[4] && s@.skip(4)[1] == s@[5]);
                    if n > 6 {
                        assert(s@.skip(4)[2] == s@[6]);
                    }
                }
                (6, true)
            } else {
                proof {
                    if n >= 8 {
                        assert(s@.skip(4)[0] == s@[4] && s@.skip(4)[1] == s@[5] && s@.skip(4)[2] == s@[6] && s@.skip(4)[3] == s@[7]);
                    }
                    if n >= 6 {
                        assert(s@.skip(4)[0] == s@[4] && s@.skip(4)[1] == s@[5]);
                        if n > 6 {
                            assert(s@.skip(4)[2] == s@[6]);
                        }
                    }
                }
                let name = component_length(s, 4, true);
                (4 + name, true)
            }
        } else if n >= 4 && s[2] == '.' && separates_char(s[3], false) {
            let name = component_length(s, 4, false);
            (4 + name, false)
        } else {
            let (server, share) = server_share_length(s, 2, false);
            if server > 0 && share > 0 {
                (2 + server + 1 + share, false)
            } else {
                (0, false)
            }
        }
    } else if n >= 2 && is_letter(s[0]) && s[1] == ':' {
        (2, false)
    } else {
        (0, false)
    }
}

/// The lower-case components of a Windows path (see `path_components`).
pub fn path_components_lower(path: &str) -> (r: Vec<Vec<char>>)
    ensures
        chars_views(r@) == lower_each(path_components(path@)),
{
    let chars = crate::text::chars_of(path);
    let (p, verbatim) = prefix_of(&chars);
    let lowered = crate::text::ascii_lowercase_chars(path);
    let ghost s = lowered@;
    let mut done: Vec<Vec<char>> = Vec::new();
    let mut current: Vec<char> = Vec::new();
    let mut i: usize = p;
    proof {
        assert(s.subrange(p as int, p as int) =~= Seq::<char>::empty());
        assert(chars_views(done@) =~= Seq::<Seq<char>>::empty());
    }
    while i < lowered.len()
        invariant
            p <= i <= s.len(),
            lowered@ == s,
            s == ascii_lower(path@),
            (chars_views(done@), current@) == scan_components(s.subrange(p as int, i as int), verbatim),
        decreases s.len() - i,
    {
        proof {
            assert(s.subrange(p as int, i + 1).drop_last() =~= s.subrange(p as int, i as int));
            assert(s.subrange(p as int, i + 1).last() == s[i as int]);
        }
        let c = lowered[i];
        if separates_char(c, verbatim) {
            let closing = current.len() == 0 || (!verbatim && chars_equal(&current, "."));
            if !closing {
                proof {
                    lemma_close_views(done@, current);
                }
                done.push(current);
            }
            current = Vec::new();
        } else {
            current.push(c);
        }
        i = i + 1;
    }
    let closing = current.len() == 0 || (!verbatim && chars_equal(&current, "."));
    if !closing {
        proof {
            lemma_close_views(done@, current);
        }
        done.push(current);
    }
    proof {
        assert(s.subrange(p as int, i as int) =~= ascii_lower(path@.skip(p as int)));
        lemma_scan_lower(path@.skip(p as int), verbatim);
        let (d0, c0) = scan_components(path@.skip(p as int), verbatim);
        lemma_close_lower(d0, c0, verbatim);
    }
    done
}

fn any_component_is(c: &Vec<Vec<char>>, word: &str) -> (r: bool)
    ensures
        r == has_component(chars_views(c@), word@),
{
    let mut i: usize = 0;
    while i < c.len()
        invariant
            i <= c@.len(),
            forall|k: int| 0 <= k < i ==> (#[trigger] c@[k])@ != word@,
        decreases c@.len() - i,
    {
        if chars_equal(&c[i], word) {
            assert(chars_views(c@)[i as int] == word@);
            return true;
        }
        i = i + 1;
    }
    assert forall|k: int| 0 <= k < c@.len() implies #[trigger] chars_views(c@)[k] != word@ by {
        assert(chars_views(c@)[k] == c@[k]@);
    }
    false
}

fn any_component_starts_with(c: &Vec<Vec<char>>, prefix: &str) -> (r: bool)
    ensures
        r == has_component_starting(chars_views(c@), prefix@),
{
    let mut i: usize = 0;
    while i < c.len()
        invariant
            i <= c@.len(),
            forall|k: int| 0 <= k < i ==> !seq_starts_with((#[trigger] c@[k])@, prefix@),
        decreases c@.len() - i,
    {
        if chars_start_with(&c[i], prefix) {
            assert(chars_views(c@)[i as int] == c@[i as int]@);
            return true;
        }
        i = i + 1;
    }
    assert forall|k: int| 0 <= k < c@.len() implies !seq_starts_with(#[trigger] chars_views(c@)[k], prefix@) by {
        assert(chars_views(c@)[k] == c@[k]@);
    }
    false
}

fn desktop_layout_found(c: &Vec<Vec<char>>) -> (r: bool)
    ensures
        r == has_desktop_layout(chars_views(c@)),
{
    let ghost v = chars_views(c@);
    let mut i: usize = 0;
    while i < c.len() && c.len() - i >= 3
        invariant
            i <= c@.len(),
            v == chars_views(c@),
            forall|k: int| 0 <= k < i && k + 3 <= v.len() ==> !(#[trigger] v[k] == "openai"@ && v[k + 1] == "codex"@ && v[k + 2] == "bin"@),
        decreases c@.len() - i,
    {
        if chars_equal(&c[i], "openai") && chars_equal(&c[i + 1], "codex") && chars_equal(&c[i + 2], "bin") {
            assert(v[i as int] == "openai"@ && v[i + 1] == "codex"@ && v[i + 2] == "bin"@);
            return true;
        }
        i = i + 1;
    }
    false
}

fn npm_package_found(c: &Vec<Vec<char>>) -> (r: bool)
    ensures
        r == has_npm_package(chars_views(c@)),
{
    let ghost v = chars_views(c@);
    let mut i: usize = 0;
    while i < c.len() && c.len() - i >= 2
        invariant
            i <= c@.len(),
            v == chars_views(c@),
            forall|k: int| 0 <= k < i && k + 2 <= v.len() ==> !(#[trigger] v[k] == "@openai"@
                && (v[k + 1] == "codex"@ || seq_starts_with(v[k + 1], "codex-win32-"@))),
        decreases c@.len() - i,
    {
        if chars_equal(&c[i], "@openai") && (chars_equal(&c[i + 1], "codex") || chars_start_with(&c[i + 1], "codex-win32-")) {
            assert(v[i as int] == "@openai"@);
            return true;
        }
        i = i + 1;
    }
    false
}

fn native_vendor_layout_found(c: &Vec<Vec<char>>) -> (r: bool)
    ensures
        r == has_native_vendor_layout(chars_views(c@)),
{
    let ghost v = chars_views(c@);
    let mut i: usize = 0;
    while i < c.len() && c.len() - i >= 4
        invariant
            i <= c@.len(),
            v == chars_views(c@),
            forall|k: int| 0 <= k < i && k + 4 <= v.len() ==> !(#[trigger] v[k] == "vendor"@
                && (v[k + 1] == "x86_64-pc-windows-msvc"@ || v[k + 1] == "aarch64-pc-windows-msvc"@)
                && (v[k + 2] == "bin"@ || v[k + 2] == "codex"@)
                && v[k + 3] == "codex.exe"@),
        decreases c@.len() - i,
    {
        if chars_equal(&c[i], "vendor")
            && (chars_equal(&c[i + 1], "x86_64-pc-windows-msvc") || chars_equal(&c[i + 1], "aarch64-pc-windows-msvc"))
            && (chars_equal(&c[i + 2], "bin") || chars_equal(&c[i + 2], "codex"))
            && chars_equal(&c[i + 3], "codex.exe") {
            assert(v[i as int] == "vendor"@);
            return true;
        }
        i = i + 1;
    }
    false
}

/// Whether `path` is the executable of an official Codex install (see `is_relevant_path`).
pub fn is_relevant_codex_executable(path: &str) -> (r: bool)
    ensures
        r == is_relevant_path(path@),
{
    let c = path_components_lower(path);
    let is_codex = c.len() > 0 && chars_equal(&c[c.len() - 1], "codex.exe");
    proof {
        if c@.len() > 0 {
            assert(chars_views(c@).last() == c@[c@.len() - 1]@);
        }
    }
    let is_vscode_extension = any_component_is(&c, ".vscode") && any_component_starts_with(&c, "openai.chatgpt-")
        && any_component_is(&c, "windows-x86_64");
    let is_desktop_install = desktop_layout_found(&c);
    let is_npm_cli = npm_package_found(&c) && native_vendor_layout_found(&c);
    is_codex && (is_vscode_extension || is_desktop_install || is_npm_cli)
}

} // verus!

verus! {

/// The parent of each process; where an id repeats, the later entry wins.
pub open spec fn parents_map(processes: Seq<ProcessIdentity>) -> Map<u32, u32>
    decreases processes.len(),
{
    if processes.len() == 0 {
        Map::empty()
    } else {
        parents_map(processes.drop_last()).insert(processes.last().pid, processes.last().parent_pid)
    }
}

/// Whether some process in the snapshot `processes` is an official Codex executable that
/// CodexHalo (process `halo_pid`) did not start itself.
pub open spec fn codex_running_among(processes: Seq<ProcessIdentity>, halo_pid: u32) -> bool {
    exists|i: int|
        0 <= i < processes.len() && is_relevant_path((#[trigger] processes[i]).executable@)
            && !descends_within(parents_map(processes), processes[i].pid, halo_pid, max_depth())
}

/// Whether, in the process snapshot `processes`, an official Codex executable runs that is
/// not a descendant of CodexHalo (process `halo_pid`).
pub fn codex_process_is_running(processes: &Vec<ProcessIdentity>, halo_pid: u32) -> (r: bool)
    ensures
        r == codex_running_among(processes@, halo_pid),
{
    let mut parents: HashMap<u32, u32> = HashMap::new();
    let mut i: usize = 0;
    while i < processes.len()
        invariant
            i <= processes@.len(),
            parents@ == parents_map(processes@.take(i as int)),
        decreases processes@.len() - i,
    {
        proof {
            assert(processes@.take(i + 1).drop_last() =~= processes@.take(i as int));
        }
        parents.insert(processes[i].pid, processes[i].parent_pid);
        i = i + 1;
    }
    proof {
        assert(processes@.take(i as int) =~= processes@);
    }
    let mut j: usize = 0;
    while j < processes.len()
        invariant
            j <= processes@.len(),
            parents@ == parents_map(processes@),
            forall|k: int| 0 <= k < j ==> !(is_relevant_path((#[trigger] processes@[k]).executable@)
                && !descends_within(parents_map(processes@), processes@[k].pid, halo_pid, max_depth())),
        decreases processes@.len() - j,
    {
        let process = &processes[j];
        if is_relevant_codex_executable(process.executable.as_str())
            && !is_descendant_of(process.pid, halo_pid, &parents) {
            return true;
        }
        j = j + 1;
    }
    false
}

/// An executable `codex.exe` of the official npm package is recognised: components that
/// hold `@openai` followed by `codex`, and `vendor`, a Windows target triple, `bin` or
/// `codex`, and `codex.exe` in a row, ending in `codex.exe`.
pub proof fn law_npm_native_executables_are_recognised(c: Seq<Seq<char>>, i: int, j: int, triple: Seq<char>, dir: Seq<char>)
    requires
        0 <= i && i + 2 <= c.len(),
        c[i] == "@openai"@,
        c[i + 1] == "codex"@,
        0 <= j && j + 4 <= c.len(),
        c[j] == "vendor"@,
        triple == "x86_64-pc-windows-msvc"@ || triple == "aarch64-pc-windows-msvc"@,
        c[j + 1] == triple,
        dir == "bin"@ || dir == "codex"@,
        c[j + 2] == dir,
        c[j + 3] == "codex.exe"@,
        c.last() == "codex.exe"@,
    ensures
        relevant_components(c),
{
    assert(has_npm_package(c));
    assert(has_native_vendor_layout(c));
}

/// The desktop app's executable is recognised: components that hold `openai`, `codex`,
/// `bin` in a row and end in `codex.exe`.
pub proof fn law_desktop_executables_are_recognised(c: Seq<Seq<char>>, i: int)
    requires
        0 <= i && i + 3 <= c.len(),
        c[i] == "openai"@,
        c[i + 1] == "codex"@,
        c[i + 2] == "bin"@,
        c.last() == "codex.exe"@,
    ensures
        relevant_components(c),
{
    assert(has_desktop_layout(c));
}

/// The VS Code extension's executable is recognised: components that hold `.vscode`, one
/// starting with `openai.chatgpt-` and `windows-x86_64`, and end in `codex.exe`.
pub proof fn law_vscode_executables_are_recognised(c: Seq<Seq<char>>, i: int, j: int, k: int)
    requires
        0 <= i < c.len() && c[i] == ".vscode"@,
        0 <= j < c.len() && seq_starts_with(c[j], "openai.chatgpt-"@),
        0 <= k < c.len() && c[k] == "windows-x86_64"@,
        c.last() == "codex.exe"@,
    ensures
        relevant_components(c),
{
    assert(has_component(c, ".vscode"@));
    assert(has_component_starting(c, "openai.chatgpt-"@));
    assert(has_component(c, "windows-x86_64"@));
}

/// Only an executable named `codex.exe` is ever recognised, whatever directories hold it.
pub proof fn law_only_codex_exe_is_recognised(c: Seq<Seq<char>>)
    requires
        c.len() == 0 || c.last() != "codex.exe"@,
    ensures
        !relevant_components(c),
{
}

} // verus!
