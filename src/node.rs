use vstd::prelude::*;

verus! {

/// Latest observed compilation status of one pipeline.
#[derive(Clone, Copy, Debug, PartialEq, Eq, Structural)]
pub enum PipelineStatus {
    Queued,
    Compiling,
    Ready,
    Failed,
}

/// The entry point of a stage's program that a dispatch runs.
#[derive(Clone, Copy, Debug, PartialEq, Eq, Structural)]
pub enum Program {
    Init,
    Update,
}

/// Lifecycle of one stage node.
#[derive(Clone, Copy, Debug, PartialEq, Eq, Structural)]
pub enum ShadertoyState {
    /// Waiting for the "init" pipeline.
    Loading,
    /// Dispatching "init" until the "update" pipeline is ready.
    Init,
    /// Dispatching "update" every frame; terminal.
    Update,
    /// The "init" pipeline failed; the stage never dispatches again.
    Error,
}

/// One advance of the state machine, given the current status of the
/// stage's "init" and "update" pipelines.
pub open spec fn next_state(
    s: ShadertoyState,
    init: PipelineStatus,
    update: PipelineStatus,
) -> ShadertoyState {
    match s {
        ShadertoyState::Loading => if init == PipelineStatus::Ready {
            ShadertoyState::Init
        } else if init == PipelineStatus::Failed {
            ShadertoyState::Error
        } else {
            ShadertoyState::Loading
        },
        ShadertoyState::Init => if update == PipelineStatus::Ready {
            ShadertoyState::Update
        } else {
            ShadertoyState::Init
        },
        ShadertoyState::Update => ShadertoyState::Update,
        ShadertoyState::Error => ShadertoyState::Error,
    }
}

/// The program a node in state `s` dispatches with, if any.
pub open spec fn program_of(s: ShadertoyState) -> Option<Program> {
    match s {
        ShadertoyState::Init => Some(Program::Init),
        ShadertoyState::Update => Some(Program::Update),
        _ => None,
    }
}

/// States reached from `s` by advancing once for each pair of pipeline
/// statuses in `polls`; element `i` is the state after `i + 1` advances.
pub open spec fn run_states(
    s: ShadertoyState,
    polls: Seq<(PipelineStatus, PipelineStatus)>,
) -> Seq<ShadertoyState>
    decreases polls.len(),
{
    if polls.len() == 0 {
        seq![]
    } else {
        let prev = run_states(s, polls.drop_last());
        let cur = if prev.len() == 0 {
            s
        } else {
            prev.last()
        };
        prev.push(next_state(cur, polls.last().0, polls.last().1))
    }
}

proof fn lemma_run_states_len(s: ShadertoyState, polls: Seq<(PipelineStatus, PipelineStatus)>)
    ensures
        run_states(s, polls).len() == polls.len(),
    decreases polls.len(),
{
    if polls.len() > 0 {
        lemma_run_states_len(s, polls.drop_last());
    }
}

proof fn lemma_run_states_prefix(
    s: ShadertoyState,
    polls: Seq<(PipelineStatus, PipelineStatus)>,
    i: int,
)
    requires
        0 <= i < polls.len(),
    ensures
        run_states(s, polls)[i] == run_states(s, polls.subrange(0, i + 1)).last(),
    decreases polls.len(),
{
    lemma_run_states_len(s, polls);
    if i < polls.len() - 1 {
        lemma_run_states_prefix(s, polls.drop_last(), i);
        assert(polls.drop_last().subrange(0, i + 1) =~= polls.subrange(0, i + 1));
        lemma_run_states_len(s, polls.drop_last());
    } else {
        assert(polls.subrange(0, i + 1) =~= polls);
    }
}

/// A node never leaves Update or Error, whatever the pipelines report: once
/// it reaches one of them at some frame it stays there at every later frame,
/// so it never regresses to Init or Loading.
pub proof fn lemma_terminal_states_stay(
    s: ShadertoyState,
    polls: Seq<(PipelineStatus, PipelineStatus)>,
    i: int,
    j: int,
)
    requires
        0 <= i <= j < polls.len(),
        run_states(s, polls)[i] == ShadertoyState::Update || run_states(s, polls)[i]
            == ShadertoyState::Error,
    ensures
        run_states(s, polls)[j] == run_states(s, polls)[i],
    decreases j - i,
{
    lemma_run_states_len(s, polls);
    if j > i {
        lemma_terminal_states_stay(s, polls, i, j - 1);
        lemma_run_states_prefix(s, polls, j);
        lemma_run_states_prefix(s, polls, j - 1);
        let q = polls.subrange(0, j + 1);
        assert(q.drop_last() =~= polls.subrange(0, j));
        lemma_run_states_len(s, polls.subrange(0, j));
    }
}

/// A node dispatches nothing while Loading or in Error, the "init" program
/// exactly while in Init, and the "update" program exactly while in Update.
pub proof fn lemma_program_by_state(s: ShadertoyState)
    ensures
        (s == ShadertoyState::Loading || s == ShadertoyState::Error) <==> program_of(s) is None,
        program_of(s) == Some(Program::Init) <==> s == ShadertoyState::Init,
        program_of(s) == Some(Program::Update) <==> s == ShadertoyState::Update,
{
}

/// A stage node: its lifecycle state.
#[derive(Clone, Copy, Debug, PartialEq, Eq, Structural)]
pub struct MainNode {
    pub state: ShadertoyState,
}

impl MainNode {
    /// A fresh node, waiting for its "init" pipeline.
    pub fn new() -> (r: MainNode)
        ensures
            r.state == ShadertoyState::Loading,
    {
        MainNode { state: ShadertoyState::Loading }
    }

    /// Advances the state machine by one step from the statuses of the
    /// "init" and "update" pipelines.
    pub fn update(&mut self, init: PipelineStatus, update: PipelineStatus)
        ensures
            final(self).state == next_state(old(self).state, init, update),
    {
        match self.state {
            ShadertoyState::Loading => {
                if init == PipelineStatus::Ready {
                    self.state = ShadertoyState::Init;
                } else if init == PipelineStatus::Failed {
                    self.state = ShadertoyState::Error;
                }
            },
            ShadertoyState::Init => {
                if update == PipelineStatus::Ready {
                    self.state = ShadertoyState::Update;
                }
            },
            ShadertoyState::Update => {},
            ShadertoyState::Error => {},
        }
    }

    /// The program this node dispatches with in its current state.
    pub fn run(&self) -> (r: Option<Program>)
        ensures
            r == program_of(self.state),
    {
        match self.state {
            ShadertoyState::Init => Some(Program::Init),
            ShadertoyState::Update => Some(Program::Update),
            _ => None,
        }
    }
}

impl Default for MainNode {
    fn default() -> (r: MainNode)
        ensures
            r.state == ShadertoyState::Loading,
    {
        MainNode::new()
    }
}

} // verus!
