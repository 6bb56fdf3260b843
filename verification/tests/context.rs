use squabble::context::RepoContext;

const ECOSYSTEM: &str = r#"
[position]
pipeline = "tooling / CI-CD"
coordination = "standards"

[relations]
related = ["hyperpolymath/hypatia (the big system)", "hyperpolymath/gitbot-fleet"]

[what-this-is-not]
not = [
  "A bypass. Never enforce_admins=off, never drop a required context.",
  "hypatia-dependent. Detachability is the genesis.",
  "A red→green code-fixer (deferred past v0.1)."
]
"#;

const ANCHOR: &str = r#"
[authority]
defines = "What it means to reach a CI/CD gate's green LEGITIMATELY (squabble != bypass)."

[golden-path]
command = "just ci"
"#;

const AGENTIC: &str = r#"
[agent-constraints]
# - Never use banned languages (TypeScript, Python, Go, etc.)
# - Never use AGPL license (use MPL-2.0)
"#;

#[test]
fn extracts_coordination_owner_normalised() {
    let ctx = RepoContext::from_sources(ECOSYSTEM, "", ANCHOR, AGENTIC);
    assert_eq!(
        ctx.coordination_owner.as_deref(),
        Some("hyperpolymath/standards")
    );
}

#[test]
fn extracts_multiline_is_not_array() {
    let ctx = RepoContext::from_sources(ECOSYSTEM, "", ANCHOR, AGENTIC);
    assert_eq!(ctx.is_not.len(), 3);
    assert!(ctx.is_not[1].contains("hypatia-dependent"));
}

#[test]
fn extracts_relationships_single_line_array() {
    let ctx = RepoContext::from_sources(ECOSYSTEM, "", ANCHOR, AGENTIC);
    assert_eq!(ctx.relationships.len(), 2);
    assert!(ctx.relationships[0].contains("hypatia"));
}

#[test]
fn extracts_golden_path_and_defines() {
    let ctx = RepoContext::from_sources(ECOSYSTEM, "", ANCHOR, AGENTIC);
    assert_eq!(ctx.golden_path.as_deref(), Some("just ci"));
    assert_eq!(ctx.is.len(), 1);
    assert!(ctx.is[0].contains("LEGITIMATELY"));
}

#[test]
fn best_effort_banned_langs_include_agpl() {
    let ctx = RepoContext::from_sources(ECOSYSTEM, "", ANCHOR, AGENTIC);
    assert!(ctx.banned_langs.iter().any(|b| b == "AGPL"));
    assert!(ctx.banned_langs.iter().any(|b| b == "TypeScript"));
}

#[test]
fn empty_sources_yield_empty_context_not_an_error() {
    let ctx = RepoContext::from_sources("", "", "", "");
    assert!(ctx.coordination_owner.is_none());
    assert!(ctx.is_not.is_empty());
    assert!(!ctx.found);
}

#[test]
fn already_qualified_owner_is_untouched() {
    let eco = "coordination = \"hyperpolymath/custom-standards\"\n";
    let ctx = RepoContext::from_sources(eco, "", "", "");
    assert_eq!(
        ctx.coordination_owner.as_deref(),
        Some("hyperpolymath/custom-standards")
    );
}

#[test]
fn any_descriptile_counts_as_found() {
    assert!(RepoContext::load("", "x", "", "").found);
    assert!(!RepoContext::load("", "", "", "").found);
}

#[test]
fn bans_are_listed_once_and_only_where_a_ban_is_spoken_of() {
    let agentic = "We like Python.\nDENY: Ruby, Go and Ruby\nnever use Go or npm\n";
    let ctx = RepoContext::from_sources("", "", "", agentic);
    assert_eq!(ctx.banned_langs, vec!["Go", "Ruby", "npm"]);
}

#[test]
fn a_scalar_is_the_first_quoted_text_of_the_first_line_that_has_one() {
    let anchor = "command =\ncommand: \"a\" \"b\"\ncommand = \"c\"\n";
    let ctx = RepoContext::from_sources("", "", anchor, "");
    assert_eq!(ctx.golden_path.as_deref(), Some("a"));
    assert_eq!(ctx.clone(), ctx);
}

#[test]
fn an_array_that_is_never_closed_runs_to_the_end() {
    let eco = "related = [\n\"a\",\n\"b\"\n\"unclosed\n";
    let ctx = RepoContext::from_sources(eco, "", "", "");
    assert_eq!(ctx.relationships, vec!["a", "b"]);
}
