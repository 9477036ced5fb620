//! An operation plan as the lines a terminal shows before anything runs.
use vstd::prelude::*;
use vstd::string::*;

use crate::model::command::display_spec;
use crate::model::device::{vendor_label, GpuDevice};
use crate::model::operation::{steps_view, OperationPlan, PlanDetail, PlanStep, StepView};
use crate::text::{concat, nat_str, u64_to_string};
use crate::ui::output::{pad, pad_spec};

verus! {

/// What a line of a shown plan is, which decides how it is styled.
#[derive(Clone, Copy, Debug, PartialEq, Eq, Structural)]
pub enum PlanLineKind {
    Blank,
    Heading,
    Divider,
    Section,
    Detail,
    Device,
    NoChanges,
    Step,
    Command,
    Warning,
}

/// One line of a shown plan: its kind, the text in its label column and the rest of it.
#[derive(Clone, Debug, PartialEq, Eq)]
pub struct PlanLine {
    pub kind: PlanLineKind,
    pub label: String,
    pub text: String,
}

pub type LineView = (PlanLineKind, Seq<char>, Seq<char>);

impl View for PlanLine {
    type V = LineView;

    open spec fn view(&self) -> LineView {
        (self.kind, self.label@, self.text@)
    }
}

pub open spec fn line_views(v: Seq<PlanLine>) -> Seq<LineView> {
    v.map_values(|l: PlanLine| l@)
}

pub open spec fn blank() -> LineView {
    (PlanLineKind::Blank, Seq::empty(), Seq::empty())
}

/// The length of the longest detail label.
pub open spec fn max_label_len(details: Seq<PlanDetail>) -> nat
    decreases details.len(),
{
    if details.len() == 0 {
        0
    } else {
        let rest = max_label_len(details.drop_last());
        let n = details.last().label@.len();
        if n > rest {
            n
        } else {
            rest
        }
    }
}

/// The width of the label column: the longest detail label, or `GPU(s)` where
/// GPUs are listed and it is longer.
pub open spec fn label_width_spec(plan: OperationPlan) -> nat {
    let m = max_label_len(plan.details@);
    if plan.devices@.len() > 0 && m < 6 {
        6
    } else {
        m
    }
}

pub open spec fn divider_spec() -> Seq<char> {
    Seq::new(52, |i: int| '─')
}

pub open spec fn detail_lines(details: Seq<PlanDetail>, width: nat) -> Seq<LineView> {
    details.map_values(
        |d: PlanDetail| (PlanLineKind::Detail, pad_spec(d.label@, width), d.value@),
    )
}

pub open spec fn device_text(d: GpuDevice) -> Seq<char> {
    d.name@ + " ("@ + vendor_label(d.vendor) + ")"@
}

/// `GPU(s)` in front of the first GPU, blanks in front of the others.
pub open spec fn device_label(i: int, width: nat) -> Seq<char> {
    if i == 0 {
        pad_spec("GPU(s)"@, width)
    } else {
        Seq::new(width, |j: int| ' ')
    }
}

pub open spec fn device_lines(devices: Seq<GpuDevice>, width: nat) -> Seq<LineView> {
    Seq::new(
        devices.len(),
        |i: int| (PlanLineKind::Device, device_label(i, width), device_text(devices[i])),
    )
}

pub open spec fn step_count_text(n: nat) -> Seq<char> {
    if n == 1 {
        "1 step"@
    } else {
        nat_str(n) + " steps"@
    }
}

/// The number of a step with at least two digits, as `{:02}` writes it.
pub open spec fn step_number(n: nat) -> Seq<char> {
    if n < 10 {
        "0"@ + nat_str(n)
    } else {
        nat_str(n)
    }
}

/// The lines of the `n`-th step: its number and description, then its command if shown.
pub open spec fn one_step_lines(s: StepView, n: nat, show_commands: bool) -> Seq<LineView> {
    seq![(PlanLineKind::Step, step_number(n), s.0)] + if show_commands {
        seq![(PlanLineKind::Command, Seq::<char>::empty(), display_spec(s.1))]
    } else {
        Seq::<LineView>::empty()
    }
}

pub open spec fn step_lines(steps: Seq<StepView>, show_commands: bool) -> Seq<LineView>
    decreases steps.len(),
{
    if steps.len() == 0 {
        Seq::empty()
    } else {
        step_lines(steps.drop_last(), show_commands) + one_step_lines(
            steps.last(),
            steps.len(),
            show_commands,
        )
    }
}

pub open spec fn heading_lines(plan: OperationPlan) -> Seq<LineView> {
    seq![
        blank(),
        (PlanLineKind::Heading, Seq::<char>::empty(), plan.title@),
        (PlanLineKind::Divider, Seq::<char>::empty(), divider_spec()),
    ]
}

/// The environment section: its heading where there is anything to list, the
/// details, then the GPUs.
pub open spec fn environment_lines(plan: OperationPlan) -> Seq<LineView> {
    let w = label_width_spec(plan);
    (if plan.details@.len() > 0 || plan.devices@.len() > 0 {
        seq![blank(), (PlanLineKind::Section, "ENVIRONMENT"@, Seq::<char>::empty())]
    } else {
        Seq::<LineView>::empty()
    }) + detail_lines(plan.details@, w) + device_lines(plan.devices@, w)
}

/// The changes section: its heading with the number of steps, then the steps,
/// or a note that nothing changes.
pub open spec fn change_lines(plan: OperationPlan, show_commands: bool) -> Seq<LineView> {
    seq![blank(), (PlanLineKind::Section, "CHANGES"@, step_count_text(plan.steps@.len()))] + if plan.steps@.len()
        == 0 {
        seq![(PlanLineKind::NoChanges, Seq::<char>::empty(), "No changes required"@)]
    } else {
        step_lines(steps_view(plan.steps@), show_commands)
    }
}

pub open spec fn closing_lines(plan: OperationPlan) -> Seq<LineView> {
    if plan.confirmation_warning@.len() > 0 {
        seq![
            blank(),
            (PlanLineKind::Warning, Seq::<char>::empty(), plan.confirmation_warning@),
            blank(),
        ]
    } else {
        seq![blank()]
    }
}

pub open spec fn plan_lines_spec(plan: OperationPlan, show_commands: bool) -> Seq<LineView> {
    heading_lines(plan) + environment_lines(plan) + change_lines(plan, show_commands)
        + closing_lines(plan)
}

/// A line as plain text, without its newline.
pub open spec fn line_text(l: LineView) -> Seq<char> {
    match l.0 {
        PlanLineKind::Blank => Seq::empty(),
        PlanLineKind::Heading => "  arc  "@ + l.2,
        PlanLineKind::Divider => "  "@ + l.2,
        PlanLineKind::Section => if l.2.len() == 0 {
            "  "@ + l.1
        } else {
            "  "@ + l.1 + "  "@ + l.2
        },
        PlanLineKind::Detail => "  "@ + l.1 + "  "@ + l.2,
        PlanLineKind::Device => "  "@ + l.1 + "  ◆ "@ + l.2,
        PlanLineKind::NoChanges => "  ✓  "@ + l.2,
        PlanLineKind::Step => "  "@ + l.1 + "  "@ + l.2,
        PlanLineKind::Command => "      $ "@ + l.2,
        PlanLineKind::Warning => "  !  "@ + l.2,
    }
}

/// The lines as plain text, each ended by a newline.
pub open spec fn lines_text(ls: Seq<LineView>) -> Seq<char>
    decreases ls.len(),
{
    if ls.len() == 0 {
        Seq::empty()
    } else {
        lines_text(ls.drop_last()) + line_text(ls.last()) + "\n"@
    }
}

fn push_line(lines: &mut Vec<PlanLine>, kind: PlanLineKind, label: String, text: String)
    ensures
        line_views(final(lines)@) == line_views(old(lines)@).push((kind, label@, text@)),
{
    let ghost before = lines@;
    lines.push(PlanLine { kind, label, text });
    assert(line_views(lines@) =~= line_views(before).push((kind, label@, text@)));
}

fn push_blank(lines: &mut Vec<PlanLine>)
    ensures
        line_views(final(lines)@) == line_views(old(lines)@).push(blank()),
{
    push_line(lines, PlanLineKind::Blank, String::new(), String::new());
}

fn label_width(plan: &OperationPlan) -> (w: usize)
    ensures
        w == label_width_spec(*plan),
{
    let mut m: usize = 0;
    let mut i: usize = 0;
    while i < plan.details.len()
        invariant
            i <= plan.details@.len(),
            m == max_label_len(plan.details@.take(i as int)),
        decreases plan.details@.len() - i,
    {
        let n = plan.details[i].label.as_str().unicode_len();
        assert(plan.details@.take(i + 1).drop_last() =~= plan.details@.take(i as int));
        if n > m {
            m = n;
        }
        i = i + 1;
    }
    assert(plan.details@.take(i as int) =~= plan.details@);
    if plan.devices.len() > 0 && m < 6 {
        6
    } else {
        m
    }
}

fn divider() -> (s: String)
    ensures
        s@ == divider_spec(),
{
    let mut s = String::new();
    let mut k: usize = 0;
    while k < 52
        invariant
            k <= 52,
            s@ == Seq::new(k as nat, |i: int| '─'),
        decreases 52 - k,
    {
        let ghost before = s@;
        s.append("─");
        proof {
            reveal_strlit("─");
        }
        assert(s@ =~= Seq::new((k + 1) as nat, |i: int| '─'));
        k = k + 1;
    }
    s
}

fn spaces(width: usize) -> (s: String)
    ensures
        s@ == Seq::new(width as nat, |j: int| ' '),
{
    let s = pad("", width);
    proof {
        reveal_strlit("");
    }
    assert(s@ =~= Seq::new(width as nat, |j: int| ' '));
    s
}

fn push_detail_lines(lines: &mut Vec<PlanLine>, details: &Vec<PlanDetail>, width: usize)
    ensures
        line_views(final(lines)@) == line_views(old(lines)@) + detail_lines(details@, width as nat),
{
    let ghost start = line_views(lines@);
    let mut i: usize = 0;
    while i < details.len()
        invariant
            i <= details@.len(),
            line_views(lines@) == start + detail_lines(details@.take(i as int), width as nat),
        decreases details@.len() - i,
    {
        let d = &details[i];
        push_line(lines, PlanLineKind::Detail, pad(d.label.as_str(), width), d.value.clone());
        assert(detail_lines(details@.take(i + 1), width as nat) =~= detail_lines(
            details@.take(i as int),
            width as nat,
        ).push((PlanLineKind::Detail, pad_spec(d.label@, width as nat), d.value@)));
        i = i + 1;
    }
    assert(details@.take(i as int) =~= details@);
}

fn push_device_lines(lines: &mut Vec<PlanLine>, devices: &Vec<GpuDevice>, width: usize)
    ensures
        line_views(final(lines)@) == line_views(old(lines)@) + device_lines(devices@, width as nat),
{
    let ghost start = line_views(lines@);
    let mut i: usize = 0;
    while i < devices.len()
        invariant
            i <= devices@.len(),
            line_views(lines@) == start + device_lines(devices@.take(i as int), width as nat),
        decreases devices@.len() - i,
    {
        let d = &devices[i];
        let label = if i == 0 {
            pad("GPU(s)", width)
        } else {
            spaces(width)
        };
        let mut text = d.name.clone();
        text.append(" (");
        text.append(d.vendor.label());
        text.append(")");
        push_line(lines, PlanLineKind::Device, label, text);
        assert(device_lines(devices@.take(i + 1), width as nat) =~= device_lines(
            devices@.take(i as int),
            width as nat,
        ).push((PlanLineKind::Device, device_label(i as int, width as nat), device_text(*d))));
        i = i + 1;
    }
    assert(devices@.take(i as int) =~= devices@);
}

fn step_number_text(n: usize) -> (s: String)
    ensures
        s@ == step_number(n as nat),
{
    let digits = u64_to_string(n as u64);
    if n < 10 {
        concat("0", digits.as_str())
    } else {
        digits
    }
}

fn push_step_lines(lines: &mut Vec<PlanLine>, steps: &Vec<PlanStep>, show_commands: bool)
    ensures
        line_views(final(lines)@) == line_views(old(lines)@) + step_lines(
            steps_view(steps@),
            show_commands,
        ),
{
    let ghost start = line_views(lines@);
    let mut i: usize = 0;
    while i < steps.len()
        invariant
            i <= steps@.len(),
            line_views(lines@) == start + step_lines(
                steps_view(steps@.take(i as int)),
                show_commands,
            ),
        decreases steps@.len() - i,
    {
        let step = &steps[i];
        let ghost mid = line_views(lines@);
        push_line(lines, PlanLineKind::Step, step_number_text(i + 1), step.description.clone());
        if show_commands {
            push_line(lines, PlanLineKind::Command, String::new(), step.command.display());
        }
        let ghost prefix = steps_view(steps@.take(i as int));
        let ghost next = steps_view(steps@.take(i + 1));
        assert(next.drop_last() =~= prefix);
        assert(next.last() == step@);
        assert(line_views(lines@) =~= mid + one_step_lines(step@, (i + 1) as nat, show_commands));
        i = i + 1;
    }
    assert(steps@.take(i as int) =~= steps@);
}

fn push_heading(lines: &mut Vec<PlanLine>, plan: &OperationPlan)
    ensures
        line_views(final(lines)@) == line_views(old(lines)@) + heading_lines(*plan),
{
    let ghost start = line_views(lines@);
    push_blank(lines);
    push_line(lines, PlanLineKind::Heading, String::new(), plan.title.clone());
    push_line(lines, PlanLineKind::Divider, String::new(), divider());
    assert(line_views(lines@) =~= start + heading_lines(*plan));
}

fn push_environment(lines: &mut Vec<PlanLine>, plan: &OperationPlan)
    ensures
        line_views(final(lines)@) == line_views(old(lines)@) + environment_lines(*plan),
{
    let ghost start = line_views(lines@);
    let width = label_width(plan);
    if plan.details.len() > 0 || plan.devices.len() > 0 {
        push_blank(lines);
        push_line(lines, PlanLineKind::Section, String::from_str("ENVIRONMENT"), String::new());
    }
    push_detail_lines(lines, &plan.details, width);
    push_device_lines(lines, &plan.devices, width);
    assert(line_views(lines@) =~= start + environment_lines(*plan));
}

fn push_changes(lines: &mut Vec<PlanLine>, plan: &OperationPlan, show_commands: bool)
    ensures
        line_views(final(lines)@) == line_views(old(lines)@) + change_lines(*plan, show_commands),
{
    let ghost start = line_views(lines@);
    push_blank(lines);
    let count = if plan.steps.len() == 1 {
        String::from_str("1 step")
    } else {
        concat(u64_to_string(plan.steps.len() as u64).as_str(), " steps")
    };
    push_line(lines, PlanLineKind::Section, String::from_str("CHANGES"), count);
    if plan.steps.len() == 0 {
        push_line(
            lines,
            PlanLineKind::NoChanges,
            String::new(),
            String::from_str("No changes required"),
        );
    } else {
        push_step_lines(lines, &plan.steps, show_commands);
    }
    assert(line_views(lines@) =~= start + change_lines(*plan, show_commands));
}

fn push_closing(lines: &mut Vec<PlanLine>, plan: &OperationPlan)
    ensures
        line_views(final(lines)@) == line_views(old(lines)@) + closing_lines(*plan),
{
    let ghost start = line_views(lines@);
    if plan.confirmation_warning.unicode_len() > 0 {
        push_blank(lines);
        push_line(lines, PlanLineKind::Warning, String::new(), plan.confirmation_warning.clone());
        push_blank(lines);
    } else {
        push_blank(lines);
    }
    assert(line_views(lines@) =~= start + closing_lines(*plan));
}

/// The plan as the lines a terminal shows, before styling; commands are listed
/// under their steps where `show_commands` asks for them.
pub fn operation_plan_lines(plan: &OperationPlan, show_commands: bool) -> (lines: Vec<PlanLine>)
    ensures
        line_views(lines@) == plan_lines_spec(*plan, show_commands),
{
    let mut lines: Vec<PlanLine> = Vec::new();
    assert(line_views(lines@) =~= Seq::<LineView>::empty());
    push_heading(&mut lines, plan);
    push_environment(&mut lines, plan);
    push_changes(&mut lines, plan, show_commands);
    push_closing(&mut lines, plan);
    assert(line_views(lines@) =~= plan_lines_spec(*plan, show_commands));
    lines
}

/// A line as plain text, without its newline.
pub fn line_string(l: &PlanLine) -> (s: String)
    ensures
        s@ == line_text(l@),
{
    match l.kind {
        PlanLineKind::Blank => String::new(),
        PlanLineKind::Heading => concat("  arc  ", l.text.as_str()),
        PlanLineKind::Divider => concat("  ", l.text.as_str()),
        PlanLineKind::Section => {
            let mut s = concat("  ", l.label.as_str());
            if l.text.unicode_len() > 0 {
                s.append("  ");
                s.append(l.text.as_str());
            }
            s
        },
        PlanLineKind::Detail | PlanLineKind::Step => {
            let mut s = concat("  ", l.label.as_str());
            s.append("  ");
            s.append(l.text.as_str());
            s
        },
        PlanLineKind::Device => {
            let mut s = concat("  ", l.label.as_str());
            s.append("  ◆ ");
            s.append(l.text.as_str());
            s
        },
        PlanLineKind::NoChanges => concat("  ✓  ", l.text.as_str()),
        PlanLineKind::Command => concat("      $ ", l.text.as_str()),
        PlanLineKind::Warning => concat("  !  ", l.text.as_str()),
    }
}

/// The lines as plain text, each ended by a newline.
pub fn lines_string(lines: &Vec<PlanLine>) -> (s: String)
    ensures
        s@ == lines_text(line_views(lines@)),
{
    let mut s = String::new();
    let mut i: usize = 0;
    while i < lines.len()
        invariant
            i <= lines@.len(),
            s@ == lines_text(line_views(lines@.take(i as int))),
        decreases lines@.len() - i,
    {
        let l = line_string(&lines[i]);
        s.append(l.as_str());
        s.append("\n");
        assert(line_views(lines@.take(i + 1)).drop_last() =~= line_views(lines@.take(i as int)));
        i = i + 1;
    }
    assert(lines@.take(i as int) =~= lines@);
    s
}

/// The plan as plain text, with the command of each step: what a terminal
/// without colors shows.
pub fn format_operation_plan(plan: &OperationPlan) -> (s: String)
    ensures
        s@ == lines_text(plan_lines_spec(*plan, true)),
{
    let lines = operation_plan_lines(plan, true);
    lines_string(&lines)
}

} // verus!
