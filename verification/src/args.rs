//! The arguments of a fight, and where it takes its gate from.
use vstd::prelude::*;

use crate::gate::Gate;
use crate::text::{cat3, cat4, contains, holds_text, result_view, same, starts_with};

verus! {

/// How the command is used.
pub const USAGE: &'static str =
    "usage: squabble fight <owner>/<repo> <pr> [--repo-root <path>] [--gate <file>] [--json] [--summon] [--apply]";

/// The arguments of a fight.
#[derive(Debug, PartialEq, Eq)]
pub struct FightArgs {
    pub slug: String,
    pub pr: Option<String>,
    pub repo_root: String,
    pub gate_file: Option<String>,
    pub json: bool,
    pub summon: bool,
    pub apply: bool,
}

/// The arguments that were read so far, as a mathematical value.
pub struct ArgsModel {
    pub slug: Option<Seq<char>>,
    pub pr: Option<Seq<char>>,
    pub repo_root: Seq<char>,
    pub gate_file: Option<Seq<char>>,
    pub json: bool,
    pub summon: bool,
    pub apply: bool,
}

impl DeepView for FightArgs {
    type V = ArgsModel;

    open spec fn deep_view(&self) -> ArgsModel {
        ArgsModel {
            slug: Some(self.slug@),
            pr: self.pr.deep_view(),
            repo_root: self.repo_root@,
            gate_file: self.gate_file.deep_view(),
            json: self.json,
            summon: self.summon,
            apply: self.apply,
        }
    }
}

/// The arguments before any was read.
pub open spec fn no_args() -> ArgsModel {
    ArgsModel {
        slug: None,
        pr: None,
        repo_root: "."@,
        gate_file: None,
        json: false,
        summon: false,
        apply: false,
    }
}

/// A message with the usage under it.
pub open spec fn with_usage(message: Seq<char>) -> Seq<char> {
    message + "\n"@ + USAGE@
}

/// Reads the arguments from `i` on: flags in any order, two of them with a value, and up
/// to two words.
pub open spec fn args_from(rest: Seq<Seq<char>>, i: int, a: ArgsModel) -> Result<
    ArgsModel,
    Seq<char>,
>
    decreases rest.len() - i,
{
    if i >= rest.len() {
        Ok(a)
    } else if rest[i] == "--repo-root"@ {
        if i + 1 < rest.len() {
            args_from(rest, i + 2, ArgsModel { repo_root: rest[i + 1], ..a })
        } else {
            Err(with_usage("--repo-root needs a value"@))
        }
    } else if rest[i] == "--gate"@ {
        if i + 1 < rest.len() {
            args_from(rest, i + 2, ArgsModel { gate_file: Some(rest[i + 1]), ..a })
        } else {
            Err(with_usage("--gate needs a value"@))
        }
    } else if rest[i] == "--json"@ {
        args_from(rest, i + 1, ArgsModel { json: true, ..a })
    } else if rest[i] == "--summon"@ {
        args_from(rest, i + 1, ArgsModel { summon: true, ..a })
    } else if rest[i] == "--apply"@ {
        args_from(rest, i + 1, ArgsModel { apply: true, ..a })
    } else if "--"@.is_prefix_of(rest[i]) {
        Err(with_usage("unknown flag `"@ + rest[i] + "`"@))
    } else if a.slug is None {
        args_from(rest, i + 1, ArgsModel { slug: Some(rest[i]), ..a })
    } else if a.pr is None {
        args_from(rest, i + 1, ArgsModel { pr: Some(rest[i]), ..a })
    } else {
        Err(with_usage("unexpected argument `"@ + rest[i] + "`"@))
    }
}

/// The arguments, once all are read: a repository must be named.
pub open spec fn checked_args(a: Result<ArgsModel, Seq<char>>) -> Result<ArgsModel, Seq<char>> {
    match a {
        Err(e) => Err(e),
        Ok(a) => match a.slug {
            None => Err(with_usage("missing <owner>/<repo>"@)),
            Some(slug) => if holds_text(slug, "/"@) {
                Ok(a)
            } else {
                Err(with_usage("expected `owner/repo`, got `"@ + slug + "`"@))
            },
        },
    }
}

fn usage_error(message: &str) -> (r: String)
    ensures
        r@ == with_usage(message@),
{
    cat3(message, "\n", USAGE)
}

/// Reads the arguments of a fight.
pub fn parse_args(rest: &[String]) -> (r: Result<FightArgs, String>)
    ensures
        result_view(r) == checked_args(args_from(rest.deep_view(), 0, no_args())),
{
    let ghost m = rest.deep_view();
    let mut slug: Option<String> = None;
    let mut pr: Option<String> = None;
    let mut repo_root: String = ".".to_owned();
    let mut gate_file: Option<String> = None;
    let mut json: bool = false;
    let mut summon: bool = false;
    let mut apply: bool = false;
    let mut i: usize = 0;
    while i < rest.len()
        invariant
            i <= rest@.len(),
            m == rest.deep_view(),
            args_from(m, 0, no_args()) == args_from(
                m,
                i as int,
                ArgsModel {
                    slug: slug.deep_view(),
                    pr: pr.deep_view(),
                    repo_root: repo_root@,
                    gate_file: gate_file.deep_view(),
                    json,
                    summon,
                    apply,
                },
            ),
        decreases rest@.len() - i,
    {
        let word: &str = rest[i].as_str();
        assert(m[i as int] == word@);
        if same(word, "--repo-root") {
            if i + 1 >= rest.len() {
                return Err(usage_error("--repo-root needs a value"));
            }
            assert(m[i + 1] == rest@[i + 1]@);
            repo_root = rest[i + 1].clone();
            i += 2;
        } else if same(word, "--gate") {
            if i + 1 >= rest.len() {
                return Err(usage_error("--gate needs a value"));
            }
            assert(m[i + 1] == rest@[i + 1]@);
            gate_file = Some(rest[i + 1].clone());
            i += 2;
        } else if same(word, "--json") {
            json = true;
            i += 1;
        } else if same(word, "--summon") {
            summon = true;
            i += 1;
        } else if same(word, "--apply") {
            apply = true;
            i += 1;
        } else if starts_with(word, "--") {
            let message: String = cat3("unknown flag `", word, "`");
            return Err(usage_error(&message));
        } else {
            if slug.is_none() {
                slug = Some(word.to_owned());
            } else if pr.is_none() {
                pr = Some(word.to_owned());
            } else {
                let message: String = cat3("unexpected argument `", word, "`");
                return Err(usage_error(&message));
            }
            i += 1;
        }
    }
    let slug: String = match slug {
        Some(slug) => slug,
        None => {
            return Err(usage_error("missing <owner>/<repo>"));
        },
    };
    if !contains(&slug, "/") {
        let message: String = cat3("expected `owner/repo`, got `", &slug, "`");
        return Err(usage_error(&message));
    }
    Ok(FightArgs { slug, pr, repo_root, gate_file, json, summon, apply })
}

/// Where a fight takes its gate from.
#[derive(Debug, PartialEq, Eq)]
pub enum GateSource {
    /// A file that holds it.
    File { path: String },
    /// A live pull request.
    Live { pr: String },
}

/// Where a fight takes its gate from: a file goes before a pull request.
pub fn gate_source(args: &FightArgs) -> (r: Result<GateSource, String>)
    ensures
        match (args.gate_file, args.pr, r) {
            (Some(file), _, Ok(GateSource::File { path })) => path@ == file@,
            (None, Some(number), Ok(GateSource::Live { pr })) => pr@ == number@,
            (None, None, Err(e)) => e@ == with_usage(
                "need a PR number (live) or `--gate <file>` (offline)."@,
            ),
            _ => false,
        },
{
    match (&args.gate_file, &args.pr) {
        (Some(path), _) => Ok(GateSource::File { path: path.clone() }),
        (None, Some(pr)) => Ok(GateSource::Live { pr: pr.clone() }),
        (None, None) => Err(usage_error("need a PR number (live) or `--gate <file>` (offline).")),
    }
}

/// What came of reading a gate from a file.
#[derive(Debug, PartialEq, Eq)]
pub enum GateFile {
    /// The file could not be read.
    Unreadable(String),
    /// The file holds no gate.
    Invalid(String),
    /// It holds this one.
    Gate(Gate),
}

/// What gate a file holds, or why it holds none.
pub fn gate_from_file(path: &str, file: GateFile) -> (r: Result<Gate, String>)
    ensures
        match file {
            GateFile::Unreadable(e) => r matches Err(m) && m@ == "cannot read `"@ + path@ + "`: "@
                + e@,
            GateFile::Invalid(e) => r matches Err(m) && m@ == "`"@ + path@
                + "` is not a valid gate: "@ + e@,
            GateFile::Gate(gate) => r == Ok::<Gate, String>(gate),
        },
{
    match file {
        GateFile::Unreadable(e) => Err(cat4("cannot read `", path, "`: ", &e)),
        GateFile::Invalid(e) => Err(cat4("`", path, "` is not a valid gate: ", &e)),
        GateFile::Gate(gate) => Ok(gate),
    }
}

proof fn lemma_flags_are_asked_for(rest: Seq<Seq<char>>, i: int, a: ArgsModel)
    requires
        0 <= i,
    ensures
        args_from(rest, i, a) matches Ok(b) ==> {
            &&& b.apply ==> a.apply || rest.contains("--apply"@)
            &&& b.summon ==> a.summon || rest.contains("--summon"@)
            &&& b.json ==> a.json || rest.contains("--json"@)
        },
    decreases rest.len() - i,
{
    if i < rest.len() {
        assert(rest.contains(rest[i]));
        if rest[i] == "--repo-root"@ {
            if i + 1 < rest.len() {
                lemma_flags_are_asked_for(
                    rest,
                    i + 2,
                    ArgsModel { repo_root: rest[i + 1], ..a },
                );
            }
        } else if rest[i] == "--gate"@ {
            if i + 1 < rest.len() {
                lemma_flags_are_asked_for(
                    rest,
                    i + 2,
                    ArgsModel { gate_file: Some(rest[i + 1]), ..a },
                );
            }
        } else if rest[i] == "--json"@ {
            lemma_flags_are_asked_for(rest, i + 1, ArgsModel { json: true, ..a });
        } else if rest[i] == "--summon"@ {
            lemma_flags_are_asked_for(rest, i + 1, ArgsModel { summon: true, ..a });
        } else if rest[i] == "--apply"@ {
            lemma_flags_are_asked_for(rest, i + 1, ArgsModel { apply: true, ..a });
        } else if "--"@.is_prefix_of(rest[i]) {
        } else if a.slug is None {
            lemma_flags_are_asked_for(rest, i + 1, ArgsModel { slug: Some(rest[i]), ..a });
        } else if a.pr is None {
            lemma_flags_are_asked_for(rest, i + 1, ArgsModel { pr: Some(rest[i]), ..a });
        }
    }
}

/// Nothing is applied, summoned or printed as JSON unless the arguments ask for it, and a
/// repository is always named with its owner.
pub proof fn nothing_is_done_unasked(rest: Seq<Seq<char>>)
    ensures
        checked_args(args_from(rest, 0, no_args())) matches Ok(a) ==> {
            &&& a.apply ==> rest.contains("--apply"@)
            &&& a.summon ==> rest.contains("--summon"@)
            &&& a.json ==> rest.contains("--json"@)
            &&& a.slug matches Some(slug) && holds_text(slug, "/"@)
        },
{
    lemma_flags_are_asked_for(rest, 0, no_args());
}

proof fn lemma_flags_are_set(rest: Seq<Seq<char>>, i: int, a: ArgsModel)
    requires
        0 <= i,
        forall|k: int|
            0 <= k < rest.len() ==> #[trigger] rest[k] != "--repo-root"@ && rest[k] != "--gate"@,
    ensures
        args_from(rest, i, a) matches Ok(b) ==> {
            &&& b.apply <==> a.apply || exists|k: int|
                i <= k < rest.len() && #[trigger] rest[k] == "--apply"@
            &&& b.summon <==> a.summon || exists|k: int|
                i <= k < rest.len() && #[trigger] rest[k] == "--summon"@
            &&& b.json <==> a.json || exists|k: int|
                i <= k < rest.len() && #[trigger] rest[k] == "--json"@
            &&& b.repo_root == a.repo_root
            &&& b.gate_file == a.gate_file
        },
    decreases rest.len() - i,
{
    if i < rest.len() {
        let w = rest[i];
        let next = if w == "--json"@ {
            ArgsModel { json: true, ..a }
        } else if w == "--summon"@ {
            ArgsModel { summon: true, ..a }
        } else if w == "--apply"@ {
            ArgsModel { apply: true, ..a }
        } else if a.slug is None {
            ArgsModel { slug: Some(w), ..a }
        } else {
            ArgsModel { pr: Some(w), ..a }
        };
        lemma_flags_differ();
        lemma_flags_are_set(rest, i + 1, next);
    }
}

proof fn lemma_flags_differ()
    ensures
        "--json"@.len() == 6,
        "--summon"@.len() == 8,
        "--apply"@.len() == 7,
{
    reveal_strlit("--json");
    reveal_strlit("--summon");
    reveal_strlit("--apply");
}

/// Without a flag that takes a value, each of the other flags is set exactly where it stands
/// among the arguments, and the checkout is the directory that the command runs in.
pub proof fn flags_are_set_where_they_stand(rest: Seq<Seq<char>>)
    requires
        forall|k: int|
            0 <= k < rest.len() ==> #[trigger] rest[k] != "--repo-root"@ && rest[k] != "--gate"@,
    ensures
        checked_args(args_from(rest, 0, no_args())) matches Ok(a) ==> {
            &&& a.apply <==> exists|k: int| 0 <= k < rest.len() && #[trigger] rest[k] == "--apply"@
            &&& a.summon <==> exists|k: int|
                0 <= k < rest.len() && #[trigger] rest[k] == "--summon"@
            &&& a.json <==> exists|k: int| 0 <= k < rest.len() && #[trigger] rest[k] == "--json"@
            &&& a.repo_root == "."@
            &&& a.gate_file is None
        },
{
    lemma_flags_are_set(rest, 0, no_args());
}

/// A flag that takes a value takes the word behind it, whatever that is, and is refused at
/// the end.
pub proof fn a_value_is_the_word_behind_its_flag(rest: Seq<Seq<char>>, i: int, a: ArgsModel)
    requires
        0 <= i < rest.len(),
    ensures
        rest[i] == "--repo-root"@ && i + 1 < rest.len() ==> args_from(rest, i, a) == args_from(
            rest,
            i + 2,
            ArgsModel { repo_root: rest[i + 1], ..a },
        ),
        rest[i] == "--gate"@ && i + 1 < rest.len() ==> args_from(rest, i, a) == args_from(
            rest,
            i + 2,
            ArgsModel { gate_file: Some(rest[i + 1]), ..a },
        ),
        rest[i] == "--repo-root"@ && i + 1 == rest.len() ==> args_from(rest, i, a) == Err::<
            ArgsModel,
            Seq<char>,
        >("--repo-root needs a value"@ + "\n"@ + USAGE@),
        rest[i] == "--gate"@ && i + 1 == rest.len() ==> args_from(rest, i, a) == Err::<
            ArgsModel,
            Seq<char>,
        >("--gate needs a value"@ + "\n"@ + USAGE@),
{
    reveal_strlit("--repo-root");
    reveal_strlit("--gate");
    assert("--repo-root"@.len() != "--gate"@.len());
}

/// The first word is the repository, the second the pull request, and a third is refused, as
/// is a flag that is not known.
pub proof fn words_have_their_places(rest: Seq<Seq<char>>, i: int, a: ArgsModel)
    requires
        0 <= i < rest.len(),
        rest[i] != "--repo-root"@ && rest[i] != "--gate"@ && rest[i] != "--json"@ && rest[i]
            != "--summon"@ && rest[i] != "--apply"@,
    ensures
        "--"@.is_prefix_of(rest[i]) ==> args_from(rest, i, a) == Err::<ArgsModel, Seq<char>>(
            "unknown flag `"@ + rest[i] + "`"@ + "\n"@ + USAGE@,
        ),
        !"--"@.is_prefix_of(rest[i]) && a.slug is None ==> args_from(rest, i, a) == args_from(
            rest,
            i + 1,
            ArgsModel { slug: Some(rest[i]), ..a },
        ),
        !"--"@.is_prefix_of(rest[i]) && a.slug is Some && a.pr is None ==> args_from(rest, i, a)
            == args_from(rest, i + 1, ArgsModel { pr: Some(rest[i]), ..a }),
        !"--"@.is_prefix_of(rest[i]) && a.slug is Some && a.pr is Some ==> args_from(rest, i, a)
            == Err::<ArgsModel, Seq<char>>(
            "unexpected argument `"@ + rest[i] + "`"@ + "\n"@ + USAGE@,
        ),
{
}

/// Arguments that were read count exactly where they name a repository with its owner.
pub proof fn a_repository_is_named_with_its_owner(a: ArgsModel, e: Seq<char>)
    ensures
        a.slug is None ==> checked_args(Ok(a)) == Err::<ArgsModel, Seq<char>>(
            "missing <owner>/<repo>"@ + "\n"@ + USAGE@,
        ),
        a.slug matches Some(slug) ==> (if holds_text(slug, "/"@) {
            checked_args(Ok(a)) == Ok::<ArgsModel, Seq<char>>(a)
        } else {
            checked_args(Ok(a)) == Err::<ArgsModel, Seq<char>>(
                "expected `owner/repo`, got `"@ + slug + "`"@ + "\n"@ + USAGE@,
            )
        }),
        checked_args(Err(e)) == Err::<ArgsModel, Seq<char>>(e),
{
}

} // verus!
