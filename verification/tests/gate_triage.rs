use squabble::gate_triage::{
    load_applicability, load_declaration, load_signatures, manifest_named, parse_applicability,
    parse_signatures, DEFAULT_MANIFEST, DIRECTIVE_PATH, SIGNATURE_TABLE,
};
use squabble::polarity::{StepConclusion, StepOutcome};

/// Two scanners.
const DIRECTIVE: &str = r#"
[gate-triage.detection]
source = "actions jobs API step conclusions"
check-conclusion-when-vacuous = "success"

[[gate-triage.detection.signatures]]
scanner = "hypatia"
skipped-steps = ["Run Hypatia scan"]
success-steps = ["Create stub findings (when Hypatia unavailable)"]
census = "33/33"

[[gate-triage.detection.signatures]]
scanner = "panic-attack"
skipped-steps = ["Run panic-attack assail"]
success-steps = ["Create stub findings (when panic-attack unavailable)"]
census = "33/33"
"#;

/// A directive with three scanners, the name of a manifest, and a predicate that is only
/// an example in a comment.
const SHIPPED: &str = r#"
[gate-triage.applicability]
manifest-file = "0-AI-MANIFEST.a2ml"
operator-type-key = "@gitforge_OperatorType"
channel-key = "@channel"
# A gate that runs on one channel only would say:
#   runs-on-channels = ["alpha"]

[[gate-triage.detection.signatures]]
scanner = "hypatia"
skipped-steps = ["Run Hypatia scan"]
success-steps = ["Create stub findings (when Hypatia unavailable)"]

[[gate-triage.detection.signatures]]
scanner = "panic-attack"
skipped-steps = ["Run panic-attack assail"]
success-steps = ["Create stub findings (when panic-attack unavailable)"]

[[gate-triage.detection.signatures]]
scanner = "patch-bridge"
skipped-steps = ["Run patch-bridge"]
success-steps = ["Create stub findings (when patch-bridge unavailable)"]

[gate-triage.other]
skipped-steps = ["not a scanner's"]
"#;

/// A manifest without any `@` keys.
const MANIFEST: &str = "[manifest]\nname = \"squabbler\"\n";

fn step(name: &str, c: StepConclusion) -> StepOutcome {
    StepOutcome {
        name: name.to_string(),
        conclusion: c,
    }
}

#[test]
fn every_table_becomes_its_own_scanner() {
    let set = parse_signatures(DIRECTIVE);
    assert_eq!(set.signatures.len(), 2, "one table, one scanner");
    assert_eq!(set.signatures[0].scanner, "hypatia");
    assert_eq!(set.signatures[1].scanner, "panic-attack");
    assert!(set.is_usable());
}

#[test]
fn the_two_step_keys_do_not_bleed_into_each_other() {
    let set = parse_signatures(DIRECTIVE);
    let h = &set.signatures[0].signature;
    assert_eq!(h.skipped_steps, vec!["Run Hypatia scan".to_string()]);
    assert_eq!(
        h.success_steps,
        vec!["Create stub findings (when Hypatia unavailable)".to_string()]
    );
}

#[test]
fn one_tables_steps_never_leak_into_the_next() {
    let set = parse_signatures(DIRECTIVE);
    let pa = &set.signatures[1].signature;
    assert_eq!(pa.skipped_steps, vec!["Run panic-attack assail".to_string()]);
    assert!(
        !pa.skipped_steps.contains(&"Run Hypatia scan".to_string()),
        "panic-attack must not inherit hypatia's steps"
    );
}

#[test]
fn a_scanner_signature_cannot_match_another_scanners_job() {
    let set = parse_signatures(DIRECTIVE);
    let panic_attack_job = [
        step("Run panic-attack assail", StepConclusion::Skipped),
        step(
            "Create stub findings (when panic-attack unavailable)",
            StepConclusion::Success,
        ),
    ];
    let matched = set
        .matching(&panic_attack_job)
        .expect("panic-attack's own signature must match");
    assert_eq!(
        matched.scanner, "panic-attack",
        "matched the wrong scanner — the disjunction leaked"
    );
}

#[test]
fn a_half_written_table_is_dropped_not_carried() {
    let set = parse_signatures(
        r#"
[[gate-triage.detection.signatures]]
scanner = "half"
skipped-steps = ["Run something"]
"#,
    );
    assert!(
        set.signatures.is_empty(),
        "a signature with one empty half matches nothing and must not be counted as coverage"
    );
    assert!(!set.is_usable());
}

#[test]
fn an_absent_directive_detects_nothing() {
    assert!(!parse_signatures("").is_usable());
    assert!(!load_signatures(None).is_usable());
}

#[test]
fn a_legacy_flat_directive_still_parses() {
    let set = parse_signatures(
        r#"
[gate-triage.detection]
signature-skipped-steps = ["Run Hypatia scan"]
signature-success-steps = ["Create stub findings (when Hypatia unavailable)"]
"#,
    );
    assert!(set.is_usable(), "a 0.2.0 directive must still be readable");
    assert_eq!(set.signatures.len(), 1);
    assert_eq!(set.signatures[0].scanner, "legacy-flat-keys");
}

#[test]
fn the_tables_win_over_legacy_keys_so_hypatia_is_never_parsed_twice() {
    let mut both = DIRECTIVE.to_string();
    both.push_str("\nsignature-skipped-steps = [\"Run Hypatia scan\"]\n");
    both.push_str("signature-success-steps = [\"Create stub findings\"]\n");
    let set = parse_signatures(&both);
    assert_eq!(set.signatures.len(), 2, "the legacy pair must not add a third");
}

#[test]
fn all_three_scanners_are_named() {
    let set = load_signatures(Some(SHIPPED));
    let mut scanners: Vec<&str> = set.signatures.iter().map(|s| s.scanner.as_str()).collect();
    scanners.sort_unstable();
    assert_eq!(scanners, vec!["hypatia", "panic-attack", "patch-bridge"]);
}

#[test]
fn an_undeclared_predicate_means_applies_here() {
    let a = parse_applicability("");
    assert!(a.is_undeclared());
}

#[test]
fn the_directives_commented_example_is_not_read_as_a_predicate() {
    let a = load_applicability(Some(SHIPPED));
    assert!(
        a.is_undeclared(),
        "read a predicate out of the directive's comments: {a:?}"
    );
}

#[test]
fn a_real_predicate_is_read_when_one_is_written() {
    let a = parse_applicability(
        r#"
[gate-triage.applicability]
runs-for-operator-types = ["developer", "platform_maintainer"]
runs-on-channels = ["alpha"]
"#,
    );
    assert_eq!(a.runs_on_channels, vec!["alpha".to_string()]);
    assert_eq!(a.runs_for_operator_types.len(), 2);
    assert!(!a.is_undeclared());
}

#[test]
fn this_repos_manifest_declares_neither_key() {
    let d = load_declaration(Some(SHIPPED), Some(MANIFEST));
    assert!(d.operator_type.is_none(), "got {:?}", d.operator_type);
    assert!(d.channel.is_none(), "got {:?}", d.channel);
}

#[test]
fn the_directive_names_a_manifest_that_exists() {
    assert_eq!(manifest_named(Some(SHIPPED)), "0-AI-MANIFEST.a2ml");
}

#[test]
fn without_a_directive_the_default_manifest_and_keys_are_used() {
    assert_eq!(manifest_named(None), DEFAULT_MANIFEST);
    let d = load_declaration(
        None,
        Some("# @channel = \"comment\"\n@channel: \"beta\"\n@gitforge_OperatorType = \"user\"\n"),
    );
    assert_eq!(d.channel.as_deref(), Some("beta"));
    assert_eq!(d.operator_type.as_deref(), Some("user"));
    assert!(load_declaration(None, None).channel.is_none());
}

#[test]
fn a_directive_can_name_its_own_keys() {
    let directive = "[gate-triage.applicability]\nmanifest-file = \"M\"\nchannel-key = \"ch\"\n[next]\nmanifest-file = \"N\"\n";
    assert_eq!(manifest_named(Some(directive)), "M");
    let d = load_declaration(Some(directive), Some("ch = \"x\"\n@channel = \"y\"\n"));
    assert_eq!(d.channel.as_deref(), Some("x"));
}

#[test]
fn a_table_without_a_name_is_unnamed() {
    let set = parse_signatures(&format!(
        "{SIGNATURE_TABLE}\nskipped-steps = [\"a\"]\nsuccess-steps = [\n\"b\",\n\"c\"\n]\n"
    ));
    assert_eq!(set.signatures[0].scanner, "unnamed");
    assert_eq!(set.signatures[0].signature.success_steps, vec!["b", "c"]);
    assert!(DIRECTIVE_PATH.ends_with("gate_triage.a2ml"));
}
