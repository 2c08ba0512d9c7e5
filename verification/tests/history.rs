//! Tests of per-file history resolution: ordering, uniqueness, soundness and
//! completeness on concrete repositories, including across a merge.

use gitbrowse::Repo;

fn sig(secs: i64) -> git2::Signature<'static> {
    git2::Signature::new("tester", "tester@example.com", &git2::Time::new(secs, 0)).unwrap()
}

fn commit_tree(
    repo: &git2::Repository,
    tree: git2::Oid,
    parents: &[git2::Oid],
    msg: &str,
    secs: i64,
) -> git2::Oid {
    let tree = repo.find_tree(tree).unwrap();
    let pcommits: Vec<git2::Commit> = parents.iter().map(|o| repo.find_commit(*o).unwrap()).collect();
    let prefs: Vec<&git2::Commit> = pcommits.iter().collect();
    let s = sig(secs);
    repo.commit(None, &s, &s, msg, &tree, &prefs).unwrap()
}

fn tree_of(repo: &git2::Repository, entries: &[(&str, &str)]) -> git2::Oid {
    let mut tb = repo.treebuilder(None).unwrap();
    for (name, content) in entries {
        let blob = repo.blob(content.as_bytes()).unwrap();
        tb.insert(*name, blob, 0o100644).unwrap();
    }
    tb.write().unwrap()
}

/// Three commits on one line: A adds Cargo.toml and notes.txt, B adds README,
/// C adds LICENSE and edits notes.txt. Returns their ids, oldest first.
fn chain_fixture(path: &str) -> (git2::Repository, git2::Oid, git2::Oid, git2::Oid) {
    let repo = git2::Repository::init(path).unwrap();
    let ta = tree_of(&repo, &[("Cargo.toml", "one"), ("notes.txt", "n1")]);
    let a = commit_tree(&repo, ta, &[], "Initial commit", 1000);
    let tb = tree_of(&repo, &[("Cargo.toml", "one"), ("notes.txt", "n1"), ("README", "r1")]);
    let b = commit_tree(&repo, tb, &[a], "add readme", 2000);
    let tc = tree_of(
        &repo,
        &[
            ("Cargo.toml", "one"),
            ("notes.txt", "n2"),
            ("README", "r1"),
            ("LICENSE", "l1"),
        ],
    );
    let c = commit_tree(&repo, tc, &[b], "add license", 3000);
    repo.reference("refs/heads/main", c, true, "fixture").unwrap();
    repo.set_head("refs/heads/main").unwrap();
    (repo, a, b, c)
}

fn history_ids(repo: &Repo, path: &str) -> Vec<String> {
    let branch = repo.browse_branch("main").unwrap();
    let file = branch.get_file_by_path(path).unwrap();
    let mut h = file.history().unwrap();
    let mut ids = Vec::new();
    while let Some(item) = h.next() {
        ids.push(item.unwrap().long_id().to_string());
    }
    ids
}

#[test]
fn history_of_added_files() {
    let (_git, _a, b, c) = chain_fixture("/tmp/gitbrowse_fx_hist_added");
    let repo = Repo::open("/tmp/gitbrowse_fx_hist_added").unwrap();
    assert_eq!(history_ids(&repo, "README"), vec![b.to_string()]);
    assert_eq!(history_ids(&repo, "LICENSE"), vec![c.to_string()]);
}

#[test]
fn history_of_nested_file_from_walk() {
    let path = "/tmp/gitbrowse_fx_hist_nested";
    let repo = git2::Repository::init(path).unwrap();
    let lib1 = repo.blob(b"v1").unwrap();
    let mut src = repo.treebuilder(None).unwrap();
    src.insert("lib.rs", lib1, 0o100644).unwrap();
    let src1 = src.write().unwrap();
    let mut root = repo.treebuilder(None).unwrap();
    root.insert("src", src1, 0o040000).unwrap();
    let t1 = root.write().unwrap();
    let a = commit_tree(&repo, t1, &[], "Initial commit", 1000);
    let lib2 = repo.blob(b"v2").unwrap();
    let mut src_b = repo.treebuilder(None).unwrap();
    src_b.insert("lib.rs", lib2, 0o100644).unwrap();
    let src2 = src_b.write().unwrap();
    let mut root_b = repo.treebuilder(None).unwrap();
    root_b.insert("src", src2, 0o040000).unwrap();
    let t2 = root_b.write().unwrap();
    let b = commit_tree(&repo, t2, &[a], "edit lib", 2000);
    repo.reference("refs/heads/main", b, true, "fixture").unwrap();
    repo.set_head("refs/heads/main").unwrap();

    // Resolve the file through the tree walk, so its path is rebuilt from
    // the walk's prefix, and cross-reference that path against the diffs.
    let browse = Repo::open(path).unwrap();
    let branch = browse.browse_branch("main").unwrap();
    let found = std::cell::RefCell::new(Vec::new());
    branch
        .files(|f| {
            if f.is_file() {
                let mut h = f.history().unwrap();
                let mut ids = Vec::new();
                while let Some(item) = h.next() {
                    ids.push(item.unwrap().long_id().to_string());
                }
                found.borrow_mut().push((f.path(), ids));
            }
            Ok(())
        })
        .unwrap();
    let found = found.into_inner();
    assert_eq!(found.len(), 1);
    assert_eq!(found[0].0, "src/lib.rs");
    assert_eq!(found[0].1, vec![b.to_string(), a.to_string()]);
}

#[test]
fn history_of_path_no_diff_names_is_empty() {
    // Changed-entry lists name file paths, never directories, so a directory
    // entry's path matches no diff entry and its history is empty — not an
    // error and not a crash.
    let path = "/tmp/gitbrowse_fx_hist_empty";
    let repo = git2::Repository::init(path).unwrap();
    let lib = repo.blob(b"v1").unwrap();
    let mut src = repo.treebuilder(None).unwrap();
    src.insert("lib.rs", lib, 0o100644).unwrap();
    let src_oid = src.write().unwrap();
    let mut root = repo.treebuilder(None).unwrap();
    root.insert("src", src_oid, 0o040000).unwrap();
    let t = root.write().unwrap();
    let a = commit_tree(&repo, t, &[], "Initial commit", 1000);
    repo.reference("refs/heads/main", a, true, "fixture").unwrap();
    repo.set_head("refs/heads/main").unwrap();

    let browse = Repo::open(path).unwrap();
    let branch = browse.browse_branch("main").unwrap();
    let dir = branch.get_file_by_path("src").unwrap();
    assert!(dir.is_dir());
    let mut h = dir.history().unwrap();
    assert!(h.next().is_none());
}

#[test]
fn history_is_newest_first_without_repeats() {
    let (_git, a, _b, c) = chain_fixture("/tmp/gitbrowse_fx_hist_order");
    let repo = Repo::open("/tmp/gitbrowse_fx_hist_order").unwrap();
    let ids = history_ids(&repo, "notes.txt");
    assert_eq!(ids, vec![c.to_string(), a.to_string()]);
    assert_ne!(ids[0], ids[1]);
}

#[test]
fn history_only_yields_touching_commits() {
    let (_git, a, b, c) = chain_fixture("/tmp/gitbrowse_fx_hist_sound");
    let repo = Repo::open("/tmp/gitbrowse_fx_hist_sound").unwrap();
    let ids = history_ids(&repo, "Cargo.toml");
    assert_eq!(ids, vec![a.to_string()]);
    assert!(!ids.contains(&b.to_string()));
    assert!(!ids.contains(&c.to_string()));
}

#[test]
fn history_exhaustion_is_final() {
    chain_fixture("/tmp/gitbrowse_fx_hist_done");
    let repo = Repo::open("/tmp/gitbrowse_fx_hist_done").unwrap();
    let branch = repo.browse_branch("main").unwrap();
    let file = branch.get_file_by_path("README").unwrap();
    let mut h = file.history().unwrap();
    let mut yielded: usize = 0;
    while let Some(item) = h.next() {
        item.unwrap();
        yielded += 1;
    }
    assert_eq!(yielded, 1);
    assert!(h.next().is_none());
    assert!(h.next().is_none());
}

#[test]
fn history_sees_through_merges_exactly_once() {
    let path = "/tmp/gitbrowse_fx_hist_merge";
    let repo = git2::Repository::init(path).unwrap();
    let ta = tree_of(&repo, &[("shared.txt", "s")]);
    let a = commit_tree(&repo, ta, &[], "base", 1000);
    let tb = tree_of(&repo, &[("shared.txt", "s"), ("feature.txt", "f1")]);
    let b = commit_tree(&repo, tb, &[a], "feature", 2000);
    let m = commit_tree(&repo, tb, &[a, b], "merge", 3000);
    repo.reference("refs/heads/main", m, true, "fixture").unwrap();
    repo.set_head("refs/heads/main").unwrap();

    let browse = Repo::open(path).unwrap();
    let ids = history_ids(&browse, "feature.txt");
    // The merge's own first-parent diff introduces the file on the mainline,
    // and the side-branch commit that created it is still found — once.
    assert_eq!(ids, vec![m.to_string(), b.to_string()]);

    // The branch's first-parent commit chain never visits the side branch.
    let branch = browse.browse_branch("main").unwrap();
    let mut it = branch.commits().unwrap();
    let mut mainline = Vec::new();
    while let Some(c) = it.next() {
        mainline.push(c.long_id().to_string());
    }
    assert_eq!(mainline, vec![m.to_string(), a.to_string()]);
}

#[test]
fn branch_commits_follow_first_parent_chain() {
    let (_git, a, b, c) = chain_fixture("/tmp/gitbrowse_fx_chain");
    let repo = Repo::open("/tmp/gitbrowse_fx_chain").unwrap();
    let branch = repo.browse_branch("main").unwrap();
    let mut it = branch.commits().unwrap();
    let mut ids = Vec::new();
    let mut messages = Vec::new();
    while let Some(commit) = it.next() {
        ids.push(commit.long_id().to_string());
        messages.push(commit.message().to_string());
    }
    assert_eq!(ids, vec![c.to_string(), b.to_string(), a.to_string()]);
    assert_eq!(messages, vec!["add license", "add readme", "Initial commit"]);
}
