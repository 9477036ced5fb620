//! Operation plans: ordered, staged commands shown before anything runs.
use vstd::prelude::*;
use vstd::string::*;

use crate::model::command::{CommandSpec, CommandView};
use crate::model::device::GpuDevice;
use crate::text::concat;

verus! {

#[derive(Clone, Debug, PartialEq, Eq)]
pub struct PlanDetail {
    pub label: String,
    pub value: String,
}

impl PlanDetail {
    pub fn new(label: &str, value: &str) -> (d: PlanDetail)
        ensures
            d.label@ == label@,
            d.value@ == value@,
    {
        PlanDetail { label: String::from_str(label), value: String::from_str(value) }
    }
}

/// The messages of a group of commands shown as one stage.
#[derive(Clone, Debug, PartialEq, Eq)]
pub struct PlanStage {
    pub title: String,
    pub running: String,
    pub success: String,
    pub failure: String,
}

pub type StageView = (Seq<char>, Seq<char>, Seq<char>, Seq<char>);

impl View for PlanStage {
    type V = StageView;

    open spec fn view(&self) -> StageView {
        (self.title@, self.running@, self.success@, self.failure@)
    }
}

impl PlanStage {
    pub fn new(title: &str, running: &str, success: &str, failure: &str) -> (s: PlanStage)
        ensures
            s@ == (title@, running@, success@, failure@),
    {
        PlanStage {
            title: String::from_str(title),
            running: String::from_str(running),
            success: String::from_str(success),
            failure: String::from_str(failure),
        }
    }

    pub fn copy(&self) -> (s: PlanStage)
        ensures
            s@ == self@,
    {
        PlanStage {
            title: self.title.clone(),
            running: self.running.clone(),
            success: self.success.clone(),
            failure: self.failure.clone(),
        }
    }

    /// Whether two stages carry the same messages.
    pub fn same_as(&self, other: &PlanStage) -> (b: bool)
        ensures
            b == (self@ == other@),
    {
        self.title == other.title && self.running == other.running && self.success
            == other.success && self.failure == other.failure
    }
}

#[derive(Clone, Debug, PartialEq, Eq)]
pub struct PlanStep {
    pub description: String,
    pub command: CommandSpec,
    pub stage: PlanStage,
}

pub type StepView = (Seq<char>, CommandView, StageView);

impl View for PlanStep {
    type V = StepView;

    open spec fn view(&self) -> StepView {
        (self.description@, self.command@, self.stage@)
    }
}

pub open spec fn steps_view(v: Seq<PlanStep>) -> Seq<StepView> {
    v.map_values(|s: PlanStep| s@)
}

/// The stage a lone step forms by itself.
pub open spec fn own_stage(description: Seq<char>) -> StageView {
    (description, description + "..."@, description, description + " failed"@)
}

impl PlanStep {
    /// A step that forms its own stage.
    pub fn new(description: &str, command: CommandSpec) -> (s: PlanStep)
        ensures
            s.description@ == description@,
            s.command@ == command@,
            s.stage@ == own_stage(description@),
    {
        let stage = PlanStage {
            title: String::from_str(description),
            running: concat(description, "..."),
            success: String::from_str(description),
            failure: concat(description, " failed"),
        };
        PlanStep { description: String::from_str(description), command, stage }
    }

    /// This step, shown as part of `stage`.
    pub fn in_stage(self, stage: &PlanStage) -> (s: PlanStep)
        ensures
            s.description@ == self.description@,
            s.command@ == self.command@,
            s.stage@ == stage@,
    {
        PlanStep { description: self.description, command: self.command, stage: stage.copy() }
    }
}

#[derive(Clone, Copy, Debug, PartialEq, Eq, Structural)]
pub enum NextStep {
    LoadNvidiaDriver,
    RebootBeforeNvidiaInstall,
}

#[derive(Clone, Debug, PartialEq, Eq)]
pub struct OperationPlan {
    pub title: String,
    pub details: Vec<PlanDetail>,
    pub devices: Vec<GpuDevice>,
    pub steps: Vec<PlanStep>,
    pub confirmation_warning: String,
    pub completion_message: String,
    pub next_step: Option<NextStep>,
}

/// Step `i` starts a new stage: it is the first step or its stage differs
/// from the previous one.
pub open spec fn starts_stage(steps: Seq<PlanStep>, i: int) -> bool {
    i == 0 || steps[i - 1].stage@ != steps[i].stage@
}

/// The number of stage starts among steps `1..=i`.
pub open spec fn stage_index(steps: Seq<PlanStep>, i: int) -> nat
    decreases i,
{
    if i <= 0 {
        0
    } else {
        stage_index(steps, i - 1) + if starts_stage(steps, i) {
            1nat
        } else {
            0nat
        }
    }
}

/// Step `i` is the last of its stage.
pub open spec fn ends_stage(steps: Seq<PlanStep>, i: int) -> bool {
    i + 1 == steps.len() || steps[i + 1].stage@ != steps[i].stage@
}

impl OperationPlan {
    /// The plan changes nothing.
    pub fn is_noop(&self) -> (b: bool)
        ensures
            b == (self.steps@.len() == 0),
    {
        self.steps.len() == 0
    }

    /// How many stages the steps form.
    pub fn stage_count(&self) -> (n: usize)
        ensures
            n == (if self.steps@.len() == 0 {
                0
            } else {
                stage_index(self.steps@, self.steps@.len() - 1) + 1
            }),
    {
        if self.steps.len() == 0 {
            return 0;
        }
        let (index, _, _) = self.stage_position(self.steps.len() - 1);
        index + 1
    }

    /// The stage of step `command_index`, and whether the step starts and ends it.
    pub fn stage_position(&self, command_index: usize) -> (r: (usize, bool, bool))
        requires
            command_index < self.steps@.len(),
        ensures
            r.0 == stage_index(self.steps@, command_index as int),
            r.0 <= command_index,
            r.1 == starts_stage(self.steps@, command_index as int),
            r.2 == ends_stage(self.steps@, command_index as int),
    {
        let n = self.steps.len();
        let mut stage: usize = 0;
        let mut index: usize = 1;
        while index <= command_index
            invariant
                1 <= index <= command_index + 1,
                command_index < n,
                n == self.steps@.len(),
                stage == stage_index(self.steps@, index - 1),
                stage <= index - 1,
            decreases command_index + 1 - index,
        {
            if !self.steps[index - 1].stage.same_as(&self.steps[index].stage) {
                stage = stage + 1;
            }
            index = index + 1;
        }
        let first = command_index == 0 || !self.steps[command_index - 1].stage.same_as(
            &self.steps[command_index].stage,
        );
        let last = command_index + 1 == self.steps.len() || !self.steps[command_index
            + 1].stage.same_as(&self.steps[command_index].stage);
        (stage, first, last)
    }
}

} // verus!
