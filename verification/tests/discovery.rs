use std::collections::{HashMap, HashSet};

use codexhalo::discovery::{discovery_step, DiscoveryState, ProbeAction, ProbeEvent};

fn path(parts: &[&str]) -> Vec<String> {
    parts.iter().map(|p| p.to_string()).collect()
}

/// Runs the search against a file system given by its files and its directories' children.
fn search(
    search_dirs: Vec<Vec<String>>,
    local_app_data: Option<Vec<String>>,
    user_profile: Option<Vec<String>>,
    files: &HashSet<Vec<String>>,
    children: &HashMap<Vec<String>, Vec<String>>,
) -> (Option<Vec<String>>, usize) {
    let mut state = DiscoveryState::Begin;
    let mut event = ProbeEvent::Start;
    let mut requests = 0;
    loop {
        let (next, action) = discovery_step(&search_dirs, &local_app_data, &user_profile, false, state, event);
        state = next;
        event = match action {
            ProbeAction::TestFiles(paths) => ProbeEvent::Files(paths.iter().map(|p| files.contains(p)).collect()),
            ProbeAction::ListChildDirectories(dir) => ProbeEvent::Children(children.get(&dir).cloned().unwrap_or_default()),
            ProbeAction::Found(p) => return (Some(p), requests),
            ProbeAction::NotFound => return (None, requests),
        };
        requests += 1;
    }
}

#[test]
fn the_search_path_comes_first() {
    let files = HashSet::from([
        path(&["C:", "tools", "codex.exe"]),
        path(&["C:", "Users", "P", "AppData", "Local", "OpenAI", "Codex", "bin", "codex.exe"]),
    ]);
    let (found, _) = search(
        vec![path(&["C:", "empty"]), path(&["C:", "tools"])],
        Some(path(&["C:", "Users", "P", "AppData", "Local"])),
        None,
        &files,
        &HashMap::new(),
    );
    assert_eq!(found, Some(path(&["C:", "tools", "codex.exe"])));
}

#[test]
fn an_npm_launcher_leads_to_the_first_native_candidate_found() {
    let dir = path(&["C:", "npm"]);
    let native = path(&["C:", "npm", "node_modules", "@openai", "codex-win32-x64", "vendor", "x86_64-pc-windows-msvc", "codex", "codex.exe"]);
    let files = HashSet::from([path(&["C:", "npm", "codex.cmd"]), native.clone()]);
    assert_eq!(search(vec![dir.clone()], None, None, &files, &HashMap::new()).0, Some(native.clone()));
    // Without a launcher the candidates are not taken.
    let files = HashSet::from([native]);
    assert_eq!(search(vec![dir], None, None, &files, &HashMap::new()).0, None);
}

#[test]
fn the_desktop_bundle_prefers_its_own_executable_then_the_newest_version() {
    let lad = path(&["C:", "L"]);
    let bin = path(&["C:", "L", "OpenAI", "Codex", "bin"]);
    let children = HashMap::from([(bin.clone(), vec!["1.10".to_string(), "1.2".to_string(), "0.9".to_string()])]);
    let versions = HashSet::from([
        path(&["C:", "L", "OpenAI", "Codex", "bin", "1.10", "codex.exe"]),
        path(&["C:", "L", "OpenAI", "Codex", "bin", "1.2", "codex.exe"]),
    ]);
    assert_eq!(
        search(vec![], Some(lad.clone()), None, &versions, &children).0,
        Some(path(&["C:", "L", "OpenAI", "Codex", "bin", "1.2", "codex.exe"]))
    );
    let mut with_direct = versions.clone();
    with_direct.insert(path(&["C:", "L", "OpenAI", "Codex", "bin", "codex.exe"]));
    assert_eq!(search(vec![], Some(lad), None, &with_direct, &children).0, Some(path(&["C:", "L", "OpenAI", "Codex", "bin", "codex.exe"])));
}

#[test]
fn vscode_extensions_give_the_newest_chatgpt_extension() {
    let profile = path(&["C:", "Users", "P"]);
    let stable = path(&["C:", "Users", "P", ".vscode", "extensions"]);
    let insiders = path(&["C:", "Users", "P", ".vscode-insiders", "extensions"]);
    let children = HashMap::from([
        (stable.clone(), vec!["openai.chatgpt-1.0".to_string(), "OpenAI.ChatGPT-2.0".to_string(), "ms-python.python-9".to_string()]),
        (insiders.clone(), vec!["openai.chatgpt-3.0".to_string()]),
    ]);
    let exe = |dir: &str, root: &str| path(&["C:", "Users", "P", root, "extensions", dir, "bin", "x86_64-pc-windows-msvc", "codex.exe"]);
    let files = HashSet::from([
        exe("openai.chatgpt-1.0", ".vscode"),
        exe("OpenAI.ChatGPT-2.0", ".vscode"),
        exe("ms-python.python-9", ".vscode"),
        exe("openai.chatgpt-3.0", ".vscode-insiders"),
    ]);
    // "OpenAI..." sorts before "openai..."; the python extension never counts.
    assert_eq!(search(vec![], None, Some(profile.clone()), &files, &children).0, Some(exe("openai.chatgpt-1.0", ".vscode")));
    let only_insiders = HashSet::from([exe("openai.chatgpt-3.0", ".vscode-insiders")]);
    assert_eq!(search(vec![], None, Some(profile), &only_insiders, &children).0, Some(exe("openai.chatgpt-3.0", ".vscode-insiders")));
}

#[test]
fn nothing_found_ends_the_search_within_two_requests_per_place() {
    let (found, requests) = search(
        vec![path(&["a"]), path(&["b"])],
        Some(path(&["L"])),
        Some(path(&["U"])),
        &HashSet::new(),
        &HashMap::new(),
    );
    assert_eq!(found, None);
    assert!(requests <= 2 * 5 + 1);
}
