//! How the commands of a plan are run: privileges, quiet package managers,
//! and the order of steps, stopping at the first failure.
use vstd::prelude::*;
use vstd::string::*;

use crate::model::command::{display_spec, CommandSpec, CommandView};
use crate::model::operation::{steps_view, OperationPlan, PlanStep, StepView};
use crate::text::{concat, eq_str, join, join_strings, lines, lines_of, nat_str, strs};

verus! {

/// Whether a command's output is captured or goes to the terminal.
#[derive(Clone, Copy, Debug, PartialEq, Eq, Structural)]
pub enum OutputMode {
    Capture,
    Inherit,
}

/// A command with extra environment variables.
#[derive(Clone, Debug, PartialEq, Eq)]
pub struct CommandInvocation {
    pub command: CommandSpec,
    pub env: Vec<(String, String)>,
}

/// The command and its environment as text.
pub type InvocationView = (CommandView, Seq<(Seq<char>, Seq<char>)>);

impl View for CommandInvocation {
    type V = InvocationView;

    open spec fn view(&self) -> InvocationView {
        (self.command@, self.env@.map_values(|p: (String, String)| (p.0@, p.1@)))
    }
}

impl CommandInvocation {
    /// The command with no extra environment.
    pub fn new(command: CommandSpec) -> (i: CommandInvocation)
        ensures
            i@ == (command@, Seq::<(Seq<char>, Seq<char>)>::empty()),
    {
        let i = CommandInvocation { command, env: Vec::new() };
        assert(i@.1 =~= Seq::<(Seq<char>, Seq<char>)>::empty());
        i
    }
}

/// How a command ended.
#[derive(Clone, Debug, PartialEq, Eq)]
pub struct CommandResult {
    pub success: bool,
    pub exit_code: Option<i32>,
    pub stdout: Vec<u8>,
    pub stderr: Vec<u8>,
}

/// `sudo ARGS...` with at least one argument.
pub open spec fn is_sudo(c: CommandView) -> bool {
    c.0 == "sudo"@ && c.1.len() > 0
}

/// The plan's commands, run as root: a leading `sudo` is dropped.
pub open spec fn without_sudo(c: CommandView) -> CommandView {
    if is_sudo(c) {
        (c.1[0], c.1.drop_first())
    } else {
        c
    }
}

pub open spec fn step_without_sudo(s: StepView) -> StepView {
    (s.0, without_sudo(s.1), s.2)
}

/// Drops the leading `sudo` of every step when already running as root.
pub fn normalize_for_user(plan: &mut OperationPlan, running_as_root: bool)
    ensures
        final(plan).title@ == old(plan).title@,
        final(plan).details@ == old(plan).details@,
        final(plan).devices@ == old(plan).devices@,
        final(plan).confirmation_warning@ == old(plan).confirmation_warning@,
        final(plan).completion_message@ == old(plan).completion_message@,
        final(plan).next_step == old(plan).next_step,
        steps_view(final(plan).steps@) == if running_as_root {
            steps_view(old(plan).steps@).map_values(|s: StepView| step_without_sudo(s))
        } else {
            steps_view(old(plan).steps@)
        },
{
    if !running_as_root {
        return;
    }
    let ghost original = steps_view(plan.steps@);
    let mut steps: Vec<PlanStep> = Vec::new();
    std::mem::swap(&mut steps, &mut plan.steps);
    let mut done: Vec<PlanStep> = Vec::new();
    let n = steps.len();
    let mut k: usize = 0;
    assert(original.take(0).map_values(|s: StepView| step_without_sudo(s)) =~= Seq::<StepView>::empty());
    while steps.len() > 0
        invariant
            k + steps@.len() == n,
            original.len() == n,
            steps_view(steps@) == original.skip(k as int),
            steps_view(done@) == original.take(k as int).map_values(|s: StepView| step_without_sudo(s)),
        decreases steps.len(),
    {
        let ghost before = steps@;
        let mut step = steps.remove(0);
        assert(step@ == original[k as int]) by {
            assert(steps_view(before)[0] == original.skip(k as int)[0]);
        }
        assert(steps_view(steps@) =~= original.skip(k + 1)) by {
            assert forall|j: int| 0 <= j < steps_view(steps@).len() implies steps_view(steps@)[j]
                == original.skip(k + 1)[j] by {
                assert(steps@[j] == before[j + 1]);
                assert(steps_view(before)[j + 1] == original.skip(k as int)[j + 1]);
            }
        }
        let ghost s0 = step@;
        if eq_str(step.command.program.as_str(), "sudo") && step.command.args.len() > 0 {
            let ghost args0 = strs(step.command.args@);
            let program = step.command.args.remove(0);
            assert(strs(step.command.args@) =~= args0.drop_first());
            step.command.program = program;
        }
        assert(step@ =~~= step_without_sudo(s0));
        let ghost d0 = steps_view(done@);
        done.push(step);
        assert(steps_view(done@) =~= d0.push(step_without_sudo(s0)));
        assert(original.take(k + 1).map_values(|s: StepView| step_without_sudo(s)) =~= original.take(
            k as int,
        ).map_values(|s: StepView| step_without_sudo(s)).push(step_without_sudo(original[k as int])));
        k = k + 1;
    }
    assert(original.take(k as int) =~= original);
    plan.steps = done;
}

pub open spec fn is_apt(program: Seq<char>) -> bool {
    program == "apt"@ || program == "apt-get"@
}

pub open spec fn is_package_manager(program: Seq<char>) -> bool {
    is_apt(program) || program == "dnf"@ || program == "yum"@ || program == "tdnf"@ || program == "zypper"@
}

/// The quiet options of a package manager.
pub open spec fn quiet_options(program: Seq<char>) -> Seq<Seq<char>> {
    if is_apt(program) {
        seq!["-q"@, "-o"@, "Dpkg::Use-Pty=0"@]
    } else if is_package_manager(program) {
        seq!["--quiet"@]
    } else {
        Seq::empty()
    }
}

/// The arguments with the package manager's quiet options in front, unless
/// they already ask for quiet output; apt also gets `Dpkg::Use-Pty=0`.
pub open spec fn quiet_args_spec(program: Seq<char>, args: Seq<Seq<char>>) -> Seq<Seq<char>> {
    if !args.contains("-q"@) && !args.contains("--quiet"@) {
        quiet_options(program) + args
    } else if is_apt(program) && !args.contains("Dpkg::Use-Pty=0"@) {
        seq!["-o"@, "Dpkg::Use-Pty=0"@] + args
    } else {
        args
    }
}

/// How a plan command is run: `sudo -n` instead of an interactive `sudo`,
/// quiet package managers when output is captured, and a non-interactive
/// Debian frontend for apt.
pub open spec fn prepare_spec(c: CommandView, quiet: bool) -> InvocationView {
    let sudo = is_sudo(c);
    let program = if sudo {
        c.1[0]
    } else {
        c.0
    };
    let rest = if sudo {
        c.1.drop_first()
    } else {
        c.1
    };
    let args = if quiet && is_package_manager(program) {
        quiet_args_spec(program, rest)
    } else {
        rest
    };
    if sudo {
        (
            (
                "sudo"@,
                seq!["-n"@] + (if is_apt(program) {
                    seq!["env"@, "DEBIAN_FRONTEND=noninteractive"@]
                } else {
                    Seq::empty()
                }) + seq![program] + args,
            ),
            Seq::empty(),
        )
    } else {
        (
            (program, args),
            if is_apt(program) {
                seq![("DEBIAN_FRONTEND"@, "noninteractive"@)]
            } else {
                Seq::empty()
            },
        )
    }
}

fn contains_arg(args: &Vec<String>, value: &str) -> (b: bool)
    ensures
        b == strs(args@).contains(value@),
{
    let mut i: usize = 0;
    while i < args.len()
        invariant
            i <= args.len(),
            forall|j: int| 0 <= j < i ==> args@[j]@ != value@,
        decreases args.len() - i,
    {
        if eq_str(args[i].as_str(), value) {
            assert(strs(args@)[i as int] == value@);
            return true;
        }
        i = i + 1;
    }
    assert forall|j: int| 0 <= j < strs(args@).len() implies strs(args@)[j] != value@ by {
        assert(strs(args@)[j] == args@[j]@);
    }
    false
}

fn is_apt_program(program: &str) -> (b: bool)
    ensures
        b == is_apt(program@),
{
    eq_str(program, "apt") || eq_str(program, "apt-get")
}

fn is_package_manager_program(program: &str) -> (b: bool)
    ensures
        b == is_package_manager(program@),
{
    is_apt_program(program) || eq_str(program, "dnf") || eq_str(program, "yum") || eq_str(program, "tdnf")
        || eq_str(program, "zypper")
}

fn prepend(front: &[&str], args: Vec<String>) -> (v: Vec<String>)
    ensures
        strs(v@) == crate::text::strs_ref(front@) + strs(args@),
{
    let mut v = crate::model::command::to_strings(front);
    let mut rest = args;
    let ghost f = strs(v@);
    let ghost all = strs(rest@);
    let n = rest.len();
    let mut k: usize = 0;
    while rest.len() > 0
        invariant
            all.len() == n,
            k + rest@.len() == n,
            strs(rest@) == all.skip(k as int),
            strs(v@) == f + all.take(k as int),
        decreases rest.len(),
    {
        let ghost before = rest@;
        let x = rest.remove(0);
        assert(x@ == all[k as int]) by {
            assert(strs(before)[0] == all.skip(k as int)[0]);
        }
        assert(strs(rest@) =~= all.skip(k + 1)) by {
            assert forall|j: int| 0 <= j < strs(rest@).len() implies strs(rest@)[j] == all.skip(k + 1)[j] by {
                assert(rest@[j] == before[j + 1]);
                assert(strs(before)[j + 1] == all.skip(k as int)[j + 1]);
            }
        }
        let ghost vv = strs(v@);
        v.push(x);
        assert(strs(v@) =~= vv.push(x@));
        assert(all.take(k + 1) =~= all.take(k as int).push(all[k as int]));
        k = k + 1;
    }
    assert(all.take(k as int) =~= all);
    v
}

/// The arguments with the package manager's quiet options.
pub fn quiet_package_args(program: &str, args: Vec<String>) -> (v: Vec<String>)
    ensures
        strs(v@) == quiet_args_spec(program@, strs(args@)),
{
    let quiet_given = contains_arg(&args, "-q") || contains_arg(&args, "--quiet");
    if !quiet_given {
        if is_apt_program(program) {
            let front = ["-q", "-o", "Dpkg::Use-Pty=0"];
            assert(crate::text::strs_ref(front@) =~= seq!["-q"@, "-o"@, "Dpkg::Use-Pty=0"@]);
            prepend(&front, args)
        } else if is_package_manager_program(program) {
            let front = ["--quiet"];
            assert(crate::text::strs_ref(front@) =~= seq!["--quiet"@]);
            prepend(&front, args)
        } else {
            let front: [&str; 0] = [];
            assert(crate::text::strs_ref(front@) =~= Seq::<Seq<char>>::empty());
            prepend(&front, args)
        }
    } else if is_apt_program(program) && !contains_arg(&args, "Dpkg::Use-Pty=0") {
        let front = ["-o", "Dpkg::Use-Pty=0"];
        assert(crate::text::strs_ref(front@) =~= seq!["-o"@, "Dpkg::Use-Pty=0"@]);
        prepend(&front, args)
    } else {
        args
    }
}

/// The invocation that runs a plan command.
pub fn prepare_invocation(original: &CommandSpec, quiet: bool) -> (i: CommandInvocation)
    ensures
        i@ == prepare_spec(original@, quiet),
{
    let sudo = eq_str(original.program.as_str(), "sudo") && original.args.len() > 0;
    let mut rest = original.args.clone();
    assert(rest@ == original.args@);
    let program = if sudo {
        let p = rest.remove(0);
        assert(strs(rest@) =~= strs(original.args@).drop_first());
        p
    } else {
        original.program.clone()
    };
    let args = if quiet && is_package_manager_program(program.as_str()) {
        quiet_package_args(program.as_str(), rest)
    } else {
        rest
    };
    let apt = is_apt_program(program.as_str());
    if sudo {
        let front: Vec<&str> = if apt {
            vec!["-n", "env", "DEBIAN_FRONTEND=noninteractive", program.as_str()]
        } else {
            vec!["-n", program.as_str()]
        };
        let all = prepend(front.as_slice(), args);
        let command = CommandSpec { program: String::from_str("sudo"), args: all };
        let i = CommandInvocation::new(command);
        assert(i@ =~~= prepare_spec(original@, quiet));
        i
    } else {
        let ghost pv = program@;
        let command = CommandSpec { program, args };
        let mut i = CommandInvocation::new(command);
        if apt {
            i.env.push((String::from_str("DEBIAN_FRONTEND"), String::from_str("noninteractive")));
        }
        assert(i@ =~~= prepare_spec(original@, quiet));
        i
    }
}

/// Progress of a plan's execution, as the user is shown it.
#[derive(Clone, Copy, Debug)]
pub enum ExecutionEvent<'a> {
    Started { index: usize, total: usize, step: &'a PlanStep },
    Completed { index: usize, total: usize, step: &'a PlanStep },
    Failed { index: usize, total: usize, step: &'a PlanStep },
}

/// Where the captured output of a quiet execution was written.
#[derive(Clone, Debug, PartialEq, Eq)]
pub struct ExecutionSummary {
    pub log_path: Option<String>,
}

/// The end of a command log, and where the whole log is.
#[derive(Clone, Debug, PartialEq, Eq)]
pub struct LogExcerpt {
    pub tail: String,
    pub path: String,
}

/// What the runner of a plan does next.
#[derive(Clone, Debug)]
pub enum ExecutionAction {
    /// Ask for the sudo password once, in the terminal, before any step.
    Authenticate(CommandInvocation),
    /// Report step `index` as started and run it.
    Run { index: usize, invocation: CommandInvocation, mode: OutputMode },
    /// Every step succeeded.
    Finished,
    /// Stop with this message; `failed_step` is the step that failed, if one did.
    Abort { failed_step: Option<usize>, message: String },
}

/// Some step runs through `sudo`.
pub open spec fn needs_sudo(steps: Seq<PlanStep>) -> bool {
    exists|i: int| 0 <= i < steps.len() && (#[trigger] steps[i]).command.program@ == "sudo"@
}

pub open spec fn authenticate_spec() -> InvocationView {
    (("sudo"@, seq!["-v"@]), Seq::empty())
}

pub open spec fn output_mode(verbose: bool) -> OutputMode {
    if verbose {
        OutputMode::Inherit
    } else {
        OutputMode::Capture
    }
}

/// Step `i` is run, quiet unless verbose; past the last step, the plan is finished.
pub open spec fn runs_step(a: ExecutionAction, steps: Seq<PlanStep>, verbose: bool, i: int) -> bool {
    if i < steps.len() {
        a matches ExecutionAction::Run { index, invocation, mode } && index == i && invocation@
            == prepare_spec(steps[i].command@, !verbose) && mode == output_mode(verbose)
    } else {
        a is Finished
    }
}

/// The decimal text of a signed number.
pub open spec fn int_str(n: int) -> Seq<char> {
    if n < 0 {
        "-"@ + nat_str((-n) as nat)
    } else {
        nat_str(n as nat)
    }
}

pub open spec fn exit_label_spec(code: Option<i32>) -> Seq<char> {
    match code {
        Some(c) => int_str(c as int),
        None => "terminated by signal"@,
    }
}

pub open spec fn log_part(log: Option<LogExcerpt>) -> Seq<char> {
    match log {
        Some(l) => "\n\nLast log lines:\n"@ + l.tail@ + "\n\nFull log: "@ + l.path@,
        None => Seq::empty(),
    }
}

/// The shown form of the command that step `i` runs.
pub open spec fn run_display(steps: Seq<PlanStep>, verbose: bool, i: int) -> Seq<char> {
    display_spec(prepare_spec(steps[i].command@, !verbose).0)
}

/// The exit code, or that a signal ended the command.
pub fn exit_label(result: &CommandResult) -> (s: String)
    ensures
        s@ == exit_label_spec(result.exit_code),
{
    match result.exit_code {
        Some(c) => if c < 0 {
            let magnitude: i64 = -(c as i64);
            let digits = crate::text::u64_to_string(magnitude as u64);
            concat("-", digits.as_str())
        } else {
            crate::text::u64_to_string(c as u64)
        },
        None => String::from_str("terminated by signal"),
    }
}

fn any_sudo(steps: &Vec<PlanStep>) -> (b: bool)
    ensures
        b == needs_sudo(steps@),
{
    let mut i: usize = 0;
    while i < steps.len()
        invariant
            i <= steps.len(),
            forall|j: int| 0 <= j < i ==> (#[trigger] steps@[j]).command.program@ != "sudo"@,
        decreases steps.len() - i,
    {
        if eq_str(steps[i].command.program.as_str(), "sudo") {
            return true;
        }
        i = i + 1;
    }
    false
}

fn run_step(plan: &OperationPlan, verbose: bool, index: usize) -> (a: ExecutionAction)
    ensures
        runs_step(a, plan.steps@, verbose, index as int),
{
    if index < plan.steps.len() {
        let invocation = prepare_invocation(&plan.steps[index].command, !verbose);
        ExecutionAction::Run {
            index,
            invocation,
            mode: if verbose {
                OutputMode::Inherit
            } else {
                OutputMode::Capture
            },
        }
    } else {
        ExecutionAction::Finished
    }
}

/// The first thing to do for a plan: authenticate with sudo once when any
/// step needs it, otherwise run the first step.
pub fn start_execution(plan: &OperationPlan, verbose: bool) -> (a: ExecutionAction)
    ensures
        needs_sudo(plan.steps@) ==> (a matches ExecutionAction::Authenticate(i) && i@ == authenticate_spec()),
        !needs_sudo(plan.steps@) ==> runs_step(a, plan.steps@, verbose, 0),
{
    if any_sudo(&plan.steps) {
        let command = CommandSpec::new("sudo", &["-v"]);
        let i = CommandInvocation::new(command);
        assert(i@ =~~= authenticate_spec());
        ExecutionAction::Authenticate(i)
    } else {
        run_step(plan, verbose, 0)
    }
}

/// After `sudo -v`: the first step, or no change at all when it failed.
pub fn after_authentication(plan: &OperationPlan, verbose: bool, result: &CommandResult) -> (a: ExecutionAction)
    ensures
        result.success ==> runs_step(a, plan.steps@, verbose, 0),
        !result.success ==> (a matches ExecutionAction::Abort { failed_step, message } && failed_step is None
            && message@ == "sudo authentication failed (exit status "@ + exit_label_spec(result.exit_code)
            + "). No changes were made."@),
{
    if result.success {
        run_step(plan, verbose, 0)
    } else {
        let mut message = String::from_str("sudo authentication failed (exit status ");
        let label = exit_label(result);
        message.append(label.as_str());
        message.append("). No changes were made.");
        ExecutionAction::Abort { failed_step: None, message }
    }
}

/// When `sudo -v` could not be run at all.
pub fn authentication_error(error: &str) -> (a: ExecutionAction)
    ensures
        a matches ExecutionAction::Abort { failed_step, message } && failed_step is None && message@
            == "could not authenticate with sudo: "@ + error@,
{
    ExecutionAction::Abort { failed_step: None, message: concat("could not authenticate with sudo: ", error) }
}

/// After step `index` ran: the next step, or a stop at the first failure.
pub fn after_step(
    plan: &OperationPlan,
    verbose: bool,
    index: usize,
    result: &CommandResult,
    log: Option<LogExcerpt>,
) -> (a: ExecutionAction)
    requires
        index < plan.steps@.len(),
    ensures
        result.success ==> runs_step(a, plan.steps@, verbose, index + 1),
        !result.success ==> (a matches ExecutionAction::Abort { failed_step, message } && failed_step
            == Some(index) && message@ == "command failed (exit status "@ + exit_label_spec(result.exit_code)
            + "): "@ + run_display(plan.steps@, verbose, index as int) + log_part(log)),
{
    let n = plan.steps.len();
    if result.success {
        run_step(plan, verbose, index + 1)
    } else {
        let invocation = prepare_invocation(&plan.steps[index].command, !verbose);
        let mut message = String::from_str("command failed (exit status ");
        let label = exit_label(result);
        message.append(label.as_str());
        message.append("): ");
        let shown = invocation.command.display();
        message.append(shown.as_str());
        let ghost before = message@;
        match log {
            Some(l) => {
                message.append("\n\nLast log lines:\n");
                message.append(l.tail.as_str());
                message.append("\n\nFull log: ");
                message.append(l.path.as_str());
            },
            None => {},
        }
        assert(message@ =~= before + log_part(log));
        ExecutionAction::Abort { failed_step: Some(index), message }
    }
}

/// When step `index` could not be run at all.
pub fn step_error(plan: &OperationPlan, verbose: bool, index: usize, error: &str, log: Option<LogExcerpt>) -> (a: ExecutionAction)
    requires
        index < plan.steps@.len(),
    ensures
        a matches ExecutionAction::Abort { failed_step, message } && failed_step == Some(index) && message@
            == match log {
            Some(l) => "could not execute command: "@ + run_display(plan.steps@, verbose, index as int)
                + log_part(log),
            None => "Failed command: "@ + run_display(plan.steps@, verbose, index as int) + ": "@ + error@,
        },
{
    let invocation = prepare_invocation(&plan.steps[index].command, !verbose);
    let shown = invocation.command.display();
    let message = match log {
        Some(l) => {
            let mut m = String::from_str("could not execute command: ");
            m.append(shown.as_str());
            m.append("\n\nLast log lines:\n");
            m.append(l.tail.as_str());
            m.append("\n\nFull log: ");
            m.append(l.path.as_str());
            m
        },
        None => {
            let mut m = String::from_str("Failed command: ");
            m.append(shown.as_str());
            m.append(": ");
            m.append(error);
            m
        },
    };
    ExecutionAction::Abort { failed_step: Some(index), message }
}

/// The last `count` lines of a log, joined by newlines.
pub open spec fn tail_spec(text: Seq<char>, count: nat) -> Seq<char> {
    let ls = lines(text);
    join(ls.skip(if ls.len() > count { ls.len() - count } else { 0 }), "\n"@)
}

/// The last `count` lines of a log, joined by newlines.
pub fn tail_lines(text: &str, count: usize) -> (s: String)
    ensures
        s@ == tail_spec(text@, count as nat),
{
    let ls = lines_of(text);
    let start = if ls.len() > count {
        ls.len() - count
    } else {
        0
    };
    let ghost all = strs(ls@);
    let mut kept: Vec<String> = Vec::new();
    let mut i: usize = start;
    assert(all.subrange(start as int, start as int) =~= Seq::<Seq<char>>::empty());
    while i < ls.len()
        invariant
            start <= i <= ls@.len(),
            all == strs(ls@),
            strs(kept@) == all.subrange(start as int, i as int),
        decreases ls.len() - i,
    {
        let ghost before = strs(kept@);
        let line = ls[i].clone();
        let ghost lv = line@;
        assert(lv == all[i as int]);
        kept.push(line);
        assert(strs(kept@) =~= before.push(lv));
        assert(strs(kept@) =~= all.subrange(start as int, i + 1));
        i = i + 1;
    }
    assert(all.subrange(start as int, ls.len() as int) =~= all.skip(start as int));
    join_strings(&kept, "\n")
}

/// The heading a quiet execution writes to its log before step `index`.
pub fn log_step_header(index: usize, total: usize, description: &str, shown: &str) -> (s: String)
    requires
        index < total,
    ensures
        s@ == "\n===== "@ + nat_str(index as nat + 1) + "/"@ + nat_str(total as nat) + ": "@ + description@
            + " =====\n$ "@ + shown@ + "\n"@,
{
    let mut s = String::from_str("\n===== ");
    let n = crate::text::u64_to_string((index + 1) as u64);
    s.append(n.as_str());
    s.append("/");
    let t = crate::text::u64_to_string(total as u64);
    s.append(t.as_str());
    s.append(": ");
    s.append(description);
    s.append(" =====\n$ ");
    s.append(shown);
    s.append("\n");
    s
}

} // verus!
