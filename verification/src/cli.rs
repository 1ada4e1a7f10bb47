//! The command line: what a call asks for.

use crate::model;
use crate::model::Model;
use crate::text;
use crate::text::{join2, same, starts_with};
use vstd::prelude::*;

verus! {

/// The options of a call.
#[derive(Clone, Debug, PartialEq, Eq)]
pub struct CliOptions {
    /// The home, if it is not the usual one.
    pub home: Option<String>,
    /// The provider to repair towards, if it is not the current one.
    pub target: Option<String>,
    pub dry_run: bool,
    pub plan_token: Option<String>,
    /// The backup to restore, if it is not the latest one.
    pub restore_path: Option<String>,
}

/// What a `CliOptions` stands for.
#[verifier::ext_equal]
pub struct CliOptionsView {
    pub home: Option<Seq<char>>,
    pub target: Option<Seq<char>>,
    pub dry_run: bool,
    pub plan_token: Option<Seq<char>>,
    pub restore_path: Option<Seq<char>>,
}

impl DeepView for CliOptions {
    type V = CliOptionsView;

    open spec fn deep_view(&self) -> CliOptionsView {
        CliOptionsView {
            home: self.home.deep_view(),
            target: self.target.deep_view(),
            dry_run: self.dry_run.deep_view(),
            plan_token: self.plan_token.deep_view(),
            restore_path: self.restore_path.deep_view(),
        }
    }
}

impl Model for CliOptions {
    fn copy_of(&self) -> (r: Self) {
        CliOptions {
            home: self.home.copy_of(),
            target: self.target.copy_of(),
            dry_run: self.dry_run.copy_of(),
            plan_token: self.plan_token.copy_of(),
            restore_path: self.restore_path.copy_of(),
        }
    }

    fn same_as(&self, other: &Self) -> (r: bool) {
        self.home.same_as(&other.home)
            && self.target.same_as(&other.target)
            && self.dry_run.same_as(&other.dry_run)
            && self.plan_token.same_as(&other.plan_token)
            && self.restore_path.same_as(&other.restore_path)
    }
}

/// What a call asks for.
#[derive(Clone, Debug, PartialEq, Eq)]
pub enum CliRequest {
    Help,
    Scan(CliOptions),
    Backup(CliOptions),
    Repair(CliOptions),
    Verify(CliOptions),
    Restore(CliOptions),
}

/// What a `CliRequest` stands for.
#[verifier::ext_equal]
pub enum CliRequestView {
    Help,
    Scan(CliOptionsView),
    Backup(CliOptionsView),
    Repair(CliOptionsView),
    Verify(CliOptionsView),
    Restore(CliOptionsView),
}

impl DeepView for CliRequest {
    type V = CliRequestView;

    open spec fn deep_view(&self) -> CliRequestView {
        match self {
            CliRequest::Help => CliRequestView::Help,
            CliRequest::Scan(value) => CliRequestView::Scan(value.deep_view()),
            CliRequest::Backup(value) => CliRequestView::Backup(value.deep_view()),
            CliRequest::Repair(value) => CliRequestView::Repair(value.deep_view()),
            CliRequest::Verify(value) => CliRequestView::Verify(value.deep_view()),
            CliRequest::Restore(value) => CliRequestView::Restore(value.deep_view()),
        }
    }
}

impl Model for CliRequest {
    fn copy_of(&self) -> (r: Self) {
        match self {
            CliRequest::Help => CliRequest::Help,
            CliRequest::Scan(value) => CliRequest::Scan(value.copy_of()),
            CliRequest::Backup(value) => CliRequest::Backup(value.copy_of()),
            CliRequest::Repair(value) => CliRequest::Repair(value.copy_of()),
            CliRequest::Verify(value) => CliRequest::Verify(value.copy_of()),
            CliRequest::Restore(value) => CliRequest::Restore(value.copy_of()),
        }
    }

    fn same_as(&self, other: &Self) -> (r: bool) {
        match (self, other) {
            (CliRequest::Help, CliRequest::Help) => true,
            (CliRequest::Scan(value_l), CliRequest::Scan(value_r)) => value_l.same_as(value_r),
            (CliRequest::Backup(value_l), CliRequest::Backup(value_r)) => value_l.same_as(value_r),
            (CliRequest::Repair(value_l), CliRequest::Repair(value_r)) => value_l.same_as(value_r),
            (CliRequest::Verify(value_l), CliRequest::Verify(value_r)) => value_l.same_as(value_r),
            (CliRequest::Restore(value_l), CliRequest::Restore(value_r)) => value_l.same_as(value_r),
            _ => false,
        }
    }
}

/// How the tool is called.
pub open spec fn usage() -> Seq<char> {
    "codex-provider-hub scan|backup|repair|verify|restore [BACKUP] [--codex-home PATH] [--target-provider ID] [--dry-run|--apply] [--plan-token TOKEN]\nrepair defaults to all sessions in dry-run mode; --apply requires the latest preview token"@
}

/// How the tool is called.
pub fn usage_text() -> (r: String)
    ensures
        r@ == usage(),
{
    "codex-provider-hub scan|backup|repair|verify|restore [BACKUP] [--codex-home PATH] [--target-provider ID] [--dry-run|--apply] [--plan-token TOKEN]\nrepair defaults to all sessions in dry-run mode; --apply requires the latest preview token".to_owned()
}

/// The options of a call that gives none: a preview.
pub open spec fn default_options() -> CliOptionsView {
    CliOptionsView { home: None, target: None, dry_run: true, plan_token: None, restore_path: None }
}

/// The options after the first argument of `args`, and how many arguments it takes.
pub open spec fn option_step(
    command: Seq<char>,
    args: Seq<Seq<char>>,
    options: CliOptionsView,
) -> Result<(CliOptionsView, int), Seq<char>> {
    let value = args[0];
    if value == "--codex-home"@ {
        if args.len() < 2 {
            Err("--codex-home requires a path"@)
        } else {
            Ok((CliOptionsView { home: Some(args[1]), ..options }, 2))
        }
    } else if value == "--target-provider"@ {
        if args.len() < 2 {
            Err("--target-provider requires an ID"@)
        } else {
            Ok((CliOptionsView { target: Some(args[1]), ..options }, 2))
        }
    } else if value == "--dry-run"@ {
        Ok((CliOptionsView { dry_run: true, ..options }, 1))
    } else if value == "--apply"@ || value == "--write"@ {
        Ok((CliOptionsView { dry_run: false, ..options }, 1))
    } else if value == "--plan-token"@ {
        if args.len() < 2 {
            Err("--plan-token requires a token"@)
        } else {
            Ok((CliOptionsView { plan_token: Some(args[1]), ..options }, 2))
        }
    } else if command == "restore"@ && !text::has_prefix(value, "-"@) {
        if options.restore_path is Some {
            Err("restore accepts at most one backup path"@)
        } else {
            Ok((CliOptionsView { restore_path: Some(value), ..options }, 1))
        }
    } else {
        Err("unknown argument: "@ + value)
    }
}

/// The options that arguments give, or the first argument that is wrong.
pub open spec fn options_of(
    command: Seq<char>,
    args: Seq<Seq<char>>,
    options: CliOptionsView,
) -> Result<CliOptionsView, Seq<char>>
    decreases args.len(),
{
    if args.len() == 0 {
        Ok(options)
    } else {
        match option_step(command, args, options) {
            Err(message) => Err(message),
            Ok((next, taken)) => if taken == 2 {
                options_of(command, args.skip(2), next)
            } else {
                options_of(command, args.skip(1), next)
            },
        }
    }
}

/// The arguments ask for help.
pub open spec fn asks_help(args: Seq<Seq<char>>) -> bool {
    args.len() == 0 || args.contains("--help"@) || args.contains("-h"@)
}

/// What a command asks for.
pub open spec fn command_request(command: Seq<char>, options: CliOptionsView) -> Result<
    CliRequestView,
    Seq<char>,
> {
    if command == "scan"@ {
        Ok(CliRequestView::Scan(options))
    } else if command == "backup"@ {
        Ok(CliRequestView::Backup(options))
    } else if command == "repair"@ {
        if !options.dry_run && options.plan_token is None {
            Err("repair --apply requires --plan-token from a prior dry-run"@)
        } else {
            Ok(CliRequestView::Repair(options))
        }
    } else if command == "verify"@ {
        Ok(CliRequestView::Verify(options))
    } else if command == "restore"@ {
        Ok(CliRequestView::Restore(options))
    } else {
        Err("unknown command: "@ + command)
    }
}

/// What a call asks for, or what is wrong with it.
pub open spec fn request(args: Seq<Seq<char>>) -> Result<CliRequestView, Seq<char>> {
    if asks_help(args) {
        Ok(CliRequestView::Help)
    } else {
        match options_of(args[0], args.skip(1), default_options()) {
            Err(message) => Err(message),
            Ok(options) => command_request(args[0], options),
        }
    }
}

fn find_help(args: &Vec<String>) -> (r: bool)
    ensures
        r == asks_help(args.deep_view()),
{
    let ghost view = args.deep_view();
    let mut i: usize = 0;
    while i < args.len()
        invariant
            i <= args@.len(),
            view == args.deep_view(),
            forall|j: int|
                0 <= j < i ==> (#[trigger] view[j]) != "--help"@ && view[j] != "-h"@,
        decreases args@.len() - i,
    {
        assert(view[i as int] == args@[i as int]@);
        if same(args[i].as_str(), "--help") || same(args[i].as_str(), "-h") {
            assert(view.contains(view[i as int]));
            return true;
        }
        i += 1;
    }
    args.len() == 0
}

fn take_option(
    command: &str,
    args: &Vec<String>,
    index: usize,
    options: CliOptions,
) -> (r: Result<(CliOptions, usize), String>)
    requires
        index < args@.len(),
    ensures
        match (
            r,
            option_step(command@, args.deep_view().skip(index as int), options.deep_view()),
        ) {
            (Ok((next, taken)), Ok((wanted, n))) => next.deep_view() == wanted && taken == n && 1
                <= taken && index + taken <= args@.len(),
            (Err(message), Err(wanted)) => message@ == wanted,
            _ => false,
        },
{
    let ghost rest = args.deep_view().skip(index as int);
    assert(rest[0] == args@[index as int]@);
    let mut options = options;
    let value = args[index].as_str();
    let follows = args.len() - index >= 2;
    if follows {
        assert(rest[1] == args@[index + 1]@);
    }
    if same(value, "--codex-home") {
        if !follows {
            return Err("--codex-home requires a path".to_owned());
        }
        options.home = Some(args[index + 1].copy_of());
        Ok((options, 2))
    } else if same(value, "--target-provider") {
        if !follows {
            return Err("--target-provider requires an ID".to_owned());
        }
        options.target = Some(args[index + 1].copy_of());
        Ok((options, 2))
    } else if same(value, "--dry-run") {
        options.dry_run = true;
        Ok((options, 1))
    } else if same(value, "--apply") || same(value, "--write") {
        options.dry_run = false;
        Ok((options, 1))
    } else if same(value, "--plan-token") {
        if !follows {
            return Err("--plan-token requires a token".to_owned());
        }
        options.plan_token = Some(args[index + 1].copy_of());
        Ok((options, 2))
    } else if same(command, "restore") && !starts_with(value, "-") {
        if options.restore_path.is_some() {
            return Err("restore accepts at most one backup path".to_owned());
        }
        options.restore_path = Some(value.to_owned());
        Ok((options, 1))
    } else {
        Err(join2("unknown argument: ", value))
    }
}

fn parse_options(command: &str, args: &Vec<String>) -> (r: Result<CliOptions, String>)
    requires
        args@.len() > 0,
    ensures
        model::outcome(r) == options_of(command@, args.deep_view().skip(1), default_options()),
{
    let ghost view = args.deep_view();
    let mut options = CliOptions {
        home: None,
        target: None,
        dry_run: true,
        plan_token: None,
        restore_path: None,
    };
    let mut index: usize = 1;
    while index < args.len()
        invariant
            1 <= index <= args@.len(),
            view == args.deep_view(),
            options_of(command@, view.skip(index as int), options.deep_view()) == options_of(
                command@,
                view.skip(1),
                default_options(),
            ),
        decreases args@.len() - index,
    {
        match take_option(command, args, index, options) {
            Err(message) => {
                return Err(message);
            },
            Ok((next, taken)) => {
                assert(view.skip(index as int).skip(taken as int) =~= view.skip(index + taken));
                options = next;
                index += taken;
            },
        }
    }
    Ok(options)
}

/// Reads the arguments of a call: what it asks for, or what is wrong with it.
pub fn run_cli(args: &Vec<String>) -> (r: Result<CliRequest, String>)
    ensures
        model::outcome(r) == request(args.deep_view()),
{
    if find_help(args) {
        return Ok(CliRequest::Help);
    }
    let command = args[0].as_str();
    assert(args.deep_view()[0] == command@);
    let options = match parse_options(command, args) {
        Ok(options) => options,
        Err(message) => {
            return Err(message);
        },
    };
    if same(command, "scan") {
        Ok(CliRequest::Scan(options))
    } else if same(command, "backup") {
        Ok(CliRequest::Backup(options))
    } else if same(command, "repair") {
        if !options.dry_run && options.plan_token.is_none() {
            return Err(
                "repair --apply requires --plan-token from a prior dry-run".to_owned(),
            );
        }
        Ok(CliRequest::Repair(options))
    } else if same(command, "verify") {
        Ok(CliRequest::Verify(options))
    } else if same(command, "restore") {
        Ok(CliRequest::Restore(options))
    } else {
        Err(join2("unknown command: ", command))
    }
}

/// A repair that writes has the token of a preview.
pub proof fn law_apply_has_a_token(args: Seq<Seq<char>>)
    requires
        request(args) is Ok,
        request(args)->Ok_0 is Repair,
        !request(args)->Ok_0->Repair_0.dry_run,
    ensures
        request(args)->Ok_0->Repair_0.plan_token is Some,
{
}

/// Who asks for help gets it, whatever else stands in the call.
pub proof fn law_help_comes_first(args: Seq<Seq<char>>, more: Seq<Seq<char>>)
    ensures
        request(args.push("--help"@) + more) == Ok::<CliRequestView, Seq<char>>(
            CliRequestView::Help,
        ),
{
    let whole = args.push("--help"@) + more;
    assert(whole[args.len() as int] == "--help"@);
}

/// Without the word for it, nothing is written.
pub proof fn law_preview_is_the_default(
    command: Seq<char>,
    args: Seq<Seq<char>>,
    options: CliOptionsView,
)
    requires
        options.dry_run,
        !args.contains("--apply"@),
        !args.contains("--write"@),
        options_of(command, args, options) is Ok,
    ensures
        options_of(command, args, options)->Ok_0.dry_run,
    decreases args.len(),
{
    if args.len() > 0 {
        assert(args.contains(args[0]));
        let (next, taken) = option_step(command, args, options)->Ok_0;
        let rest = if taken == 2 {
            args.skip(2)
        } else {
            args.skip(1)
        };
        assert forall|x: Seq<char>| rest.contains(x) implies args.contains(x) by {
            let j = choose|j: int| 0 <= j < rest.len() && rest[j] == x;
            assert(args[j + args.len() - rest.len()] == x);
        }
        law_preview_is_the_default(command, rest, next);
    }
}

proof fn lemma_option_words()
    ensures
        "--codex-home"@.len() == 12 && "--codex-home"@[2] == 'c',
        "--plan-token"@.len() == 12 && "--plan-token"@[2] == 'p',
        "--target-provider"@.len() == 17,
        "--dry-run"@.len() == 9,
        "--apply"@.len() == 7 && "--apply"@[2] == 'a',
        "--write"@.len() == 7 && "--write"@[2] == 'w',
        "scan"@.len() == 4,
        "backup"@.len() == 6 && "backup"@[0] == 'b',
        "repair"@.len() == 6 && "repair"@[0] == 'r',
        "verify"@.len() == 6 && "verify"@[0] == 'v',
        "restore"@.len() == 7,
{
    reveal_strlit("--codex-home");
    reveal_strlit("--plan-token");
    reveal_strlit("--target-provider");
    reveal_strlit("--dry-run");
    reveal_strlit("--apply");
    reveal_strlit("--write");
    reveal_strlit("scan");
    reveal_strlit("backup");
    reveal_strlit("repair");
    reveal_strlit("verify");
    reveal_strlit("restore");
}

/// Each option sets what it is for and nothing else, and takes its value with it; one that needs a
/// value is refused without it; a word that is no option is the backup of a restore, given at most
/// once, and is refused otherwise.
pub proof fn law_options_set_what_they_are_for(
    command: Seq<char>,
    args: Seq<Seq<char>>,
    options: CliOptionsView,
)
    requires
        args.len() > 0,
    ensures
        ({
            let step = option_step(command, args, options);
            let word = args[0];
            &&& word == "--codex-home"@ || word == "--target-provider"@ || word == "--plan-token"@
                ==> (step is Ok <==> args.len() >= 2) && (step is Ok ==> (step->Ok_0).1 == 2)
            &&& word == "--codex-home"@ && args.len() >= 2 ==> (step->Ok_0).0 == (CliOptionsView {
                home: Some(args[1]),
                ..options
            })
            &&& word == "--target-provider"@ && args.len() >= 2 ==> (step->Ok_0).0 == (
            CliOptionsView { target: Some(args[1]), ..options })
            &&& word == "--plan-token"@ && args.len() >= 2 ==> (step->Ok_0).0 == (CliOptionsView {
                plan_token: Some(args[1]),
                ..options
            })
            &&& word == "--dry-run"@ ==> step == Ok::<(CliOptionsView, int), Seq<char>>(
                (CliOptionsView { dry_run: true, ..options }, 1),
            )
            &&& word == "--apply"@ || word == "--write"@ ==> step == Ok::<
                (CliOptionsView, int),
                Seq<char>,
            >((CliOptionsView { dry_run: false, ..options }, 1))
            &&& word != "--codex-home"@ && word != "--target-provider"@ && word != "--plan-token"@
                && word != "--dry-run"@ && word != "--apply"@ && word != "--write"@ ==> {
                &&& step is Ok <==> command == "restore"@ && !text::has_prefix(word, "-"@)
                    && options.restore_path is None
                &&& step is Ok ==> step->Ok_0 == (
                    CliOptionsView { restore_path: Some(word), ..options },
                    1int,
                )
            }
        }),
{
    lemma_option_words();
}

/// A call asks for what its first word says, with the options that were given; nothing but the five
/// commands is known; and a call without words asks for help.
pub proof fn law_commands_ask_for_what_they_say(command: Seq<char>, options: CliOptionsView)
    ensures
        command == "scan"@ ==> command_request(command, options) == Ok::<CliRequestView, Seq<char>>(
            CliRequestView::Scan(options),
        ),
        command == "backup"@ ==> command_request(command, options) == Ok::<
            CliRequestView,
            Seq<char>,
        >(CliRequestView::Backup(options)),
        command == "verify"@ ==> command_request(command, options) == Ok::<
            CliRequestView,
            Seq<char>,
        >(CliRequestView::Verify(options)),
        command == "restore"@ ==> command_request(command, options) == Ok::<
            CliRequestView,
            Seq<char>,
        >(CliRequestView::Restore(options)),
        command == "repair"@ ==> (command_request(command, options) is Ok <==> options.dry_run
            || options.plan_token is Some),
        command == "repair"@ && command_request(command, options) is Ok ==> command_request(
            command,
            options,
        )->Ok_0 == CliRequestView::Repair(options),
        command != "scan"@ && command != "backup"@ && command != "verify"@ && command != "restore"@
            && command != "repair"@ ==> command_request(command, options) is Err,
        request(Seq::empty()) == Ok::<CliRequestView, Seq<char>>(CliRequestView::Help),
        default_options().dry_run,
        default_options().home is None,
        default_options().target is None,
        default_options().plan_token is None,
        default_options().restore_path is None,
{
    lemma_option_words();
}

} // verus!
