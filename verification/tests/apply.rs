use squabble::apply::{apply_moves, remove_on_paths, ApplyOutcome, ApplyRun, TreeReply, TreeRequest};
use squabble::moves::{Move, OwnershipDisposition};
use std::collections::HashMap;

/// A working tree in memory: the texts of its workflow files, and those of them that
/// cannot be written.
struct Tree {
    files: HashMap<String, String>,
    locked: Vec<String>,
}

impl Tree {
    fn new(files: &[(&str, &str)]) -> Self {
        Tree {
            files: files.iter().map(|(n, t)| (n.to_string(), t.to_string())).collect(),
            locked: vec![],
        }
    }
}

fn apply(tree: &mut Tree, moves: &[Move]) -> ApplyOutcome {
    let mut run = ApplyRun::new();
    let mut reply = TreeReply::Start;
    loop {
        let (next, request) = apply_moves(moves, run, reply);
        run = next;
        reply = match request {
            TreeRequest::Read { workflow } => match tree.files.get(&workflow) {
                Some(text) => TreeReply::Text { text: text.clone() },
                None => TreeReply::Unreadable {
                    path: format!("/repo/.github/workflows/{workflow}"),
                    error: "no such file".into(),
                },
            },
            TreeRequest::Write { workflow, text } => {
                if tree.locked.contains(&workflow) {
                    TreeReply::Unwritable {
                        path: format!("/repo/.github/workflows/{workflow}"),
                        error: "read-only".into(),
                    }
                } else {
                    tree.files.insert(workflow, text);
                    TreeReply::Written
                }
            }
            TreeRequest::Done => return run.outcome,
        };
    }
}

fn pass_through(check: &str, workflow: &str) -> Move {
    Move::InjectPathFilterPassThrough {
        check: check.into(),
        workflow: workflow.into(),
    }
}

const FILTERED: &str = "on:\n  pull_request:\n    paths:\n      - '.github/workflows/**'\njobs:\n  lint:\n    runs-on: ubuntu-latest\n";

#[test]
fn strips_block_form_paths_and_keeps_siblings() {
    let src = "\
name: Lint
on:
  pull_request:
    paths:
      - '.github/workflows/**'
      - 'src/**'
    branches: [main]
jobs:
  lint:
    runs-on: ubuntu-latest
";
    let (out, removed) = remove_on_paths(src);
    assert!(removed);
    assert!(!out.contains("paths:"));
    assert!(!out.contains(".github/workflows/**"));
    assert!(out.contains("branches: [main]"));
    assert!(out.contains("pull_request:"));
    assert!(out.contains("jobs:"));
    assert!(out.contains("  lint:"));
}

#[test]
fn strips_inline_form_paths() {
    let src = "\
on:
  push:
    paths: ['a', 'b']
    branches: [main]
jobs:
  x:
    runs-on: ubuntu-latest
";
    let (out, removed) = remove_on_paths(src);
    assert!(removed);
    assert!(!out.contains("paths:"));
    assert!(out.contains("branches: [main]"));
}

#[test]
fn leaves_bare_trigger_when_paths_was_the_only_subkey() {
    let src = "\
on:
  pull_request:
    paths:
      - '.github/workflows/**'
jobs:
  x:
    runs-on: ubuntu-latest
";
    let (out, removed) = remove_on_paths(src);
    assert!(removed);
    assert!(out.contains("pull_request:"));
    assert!(!out.contains("paths:"));
    assert!(out.contains("jobs:"));
}

#[test]
fn does_not_touch_paths_inside_jobs() {
    let src = "\
on:
  pull_request:
    paths:
      - 'src/**'
jobs:
  x:
    steps:
      - uses: actions/some-action@v1
        with:
          paths: 'keep/me'
";
    let (out, removed) = remove_on_paths(src);
    assert!(removed);
    assert!(out.contains("paths: 'keep/me'"));
    assert_eq!(out.matches("paths:").count(), 1);
}

#[test]
fn is_idempotent() {
    let src = "\
on:
  pull_request:
    paths:
      - 'src/**'
jobs:
  x:
    runs-on: ubuntu-latest
";
    let (once, removed1) = remove_on_paths(src);
    assert!(removed1);
    let (twice, removed2) = remove_on_paths(&once);
    assert!(!removed2, "second pass must find nothing to strip");
    assert_eq!(once, twice);
}

#[test]
fn no_filter_is_a_no_op() {
    let src = "\
on:
  pull_request:
    branches: [main]
jobs:
  x:
    runs-on: ubuntu-latest
";
    let (out, removed) = remove_on_paths(src);
    assert!(!removed);
    assert_eq!(out, src);
}

#[test]
fn apply_moves_writes_the_file_and_records_the_change() {
    let mut tree = Tree::new(&[("linter.yml", FILTERED)]);
    let moves = [pass_through("lint-workflows", "linter.yml")];
    let out = apply(&mut tree, &moves);

    assert_eq!(out.applied.len(), 1);
    assert!(out.skipped.is_empty());
    assert_eq!(out.applied[0].file, ".github/workflows/linter.yml");
    assert_eq!(out.applied[0].move_kind, "inject-path-filter-pass-through");
    assert!(out.applied[0].detail.starts_with("removed the `on.*.paths` trigger filter"));

    let written = &tree.files["linter.yml"];
    assert!(!written.contains("paths:"), "filter must be gone");
    assert_eq!(
        written,
        "on:\n  pull_request:\njobs:\n  lint:\n    runs-on: ubuntu-latest\n"
    );

    let again = apply(&mut tree, &moves);
    assert!(again.applied.is_empty());
    assert_eq!(
        again.skipped,
        vec!["`lint-workflows`: `linter.yml` has no `on.*.paths` filter to strip (already applied?) — no change written"]
    );
}

#[test]
fn apply_moves_is_fail_closed_on_missing_file() {
    let mut tree = Tree::new(&[]);
    let out = apply(&mut tree, &[pass_through("lint-workflows", "nope.yml")]);
    assert!(out.applied.is_empty());
    assert_eq!(
        out.skipped,
        vec!["`lint-workflows`: could not strip path filter from `nope.yml`: read /repo/.github/workflows/nope.yml: no such file"]
    );
}

#[test]
fn apply_moves_ignores_non_appliable_moves() {
    let mut tree = Tree::new(&[]);
    let out = apply(
        &mut tree,
        &[
            Move::GroundTruthCheckNames {
                workflow: "ci.yml".into(),
            },
            Move::AssignGateOwner {
                check: "gov".into(),
                owner: "hyperpolymath/standards".into(),
                disposition: OwnershipDisposition::Ownerless,
                rationale: "x".into(),
            },
        ],
    );
    assert!(out.applied.is_empty());
    assert!(out.skipped.is_empty());
}

#[test]
fn one_failure_does_not_stop_the_rest() {
    let mut tree = Tree::new(&[("a.yml", FILTERED), ("b.yml", FILTERED)]);
    tree.locked.push("a.yml".into());
    let out = apply(
        &mut tree,
        &[
            pass_through("a", "a.yml"),
            Move::ResolveAndRerun { branch: "x".into() },
            pass_through("b", "b.yml"),
        ],
    );
    assert_eq!(out.applied.len(), 1);
    assert_eq!(out.applied[0].file, ".github/workflows/b.yml");
    assert_eq!(
        out.skipped,
        vec!["`a`: could not strip path filter from `a.yml`: write /repo/.github/workflows/a.yml: read-only"]
    );
}

#[test]
fn the_ignoring_filter_is_left_alone() {
    let src = "on:\n  push:\n    paths-ignore:\n      - 'docs/**'\njobs:\n";
    assert_eq!(remove_on_paths(src), (src.to_string(), false));
}

#[test]
fn blank_lines_inside_the_value_go_with_it() {
    let src = "on:\n  push:\n    paths:\n\n      - 'a'\n\n    branches: [main]\njobs:";
    assert_eq!(
        remove_on_paths(src),
        ("on:\n  push:\n    branches: [main]\njobs:".to_string(), true)
    );
}

#[test]
fn carriage_returns_become_line_feeds() {
    assert_eq!(
        remove_on_paths("a\r\nb\r\n"),
        ("a\nb\n".to_string(), false)
    );
}
