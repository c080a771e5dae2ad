//! Agents and their dispatcher.
//!
//! An agent is a unit of work over one capability, `execute`: given an
//! approved command it produces a result string or a classified failure. The
//! dispatcher runs a batch of agents against one command and aggregates with
//! fail-fast semantics: the first failure in submission order is surfaced,
//! and when every agent succeeds the payloads are joined in submission order.

use vstd::prelude::*;
use vstd::string::StringExecFns;

use crate::ethics::{check_spec, EthicalGuard, PolicyViolation};
use crate::res_view;

verus! {

/// Why one agent failed on a command.
#[derive(Debug, Clone, Copy, PartialEq, Eq, Structural)]
pub enum AgentError {
    /// The policy gate rejected the command before any other work.
    PolicyRejected(PolicyViolation),
    /// The scorer judged the command above the fixed threshold.
    ScoreExceeded,
    /// An external collaborator the agent consulted failed.
    Collaborator,
}

/// Why the dispatcher failed a whole batch.
#[derive(Debug, Clone, Copy, PartialEq, Eq, Structural)]
pub enum DispatchError {
    /// One agent returned a failure; it is surfaced unchanged.
    Agent(AgentError),
    /// One agent's task terminated abnormally instead of returning.
    AgentFault,
}

/// Scores in `[0, 1]` are carried in thousandths.
pub const SCORE_SCALE: u32 = 1000;

/// The fixed threshold (in thousandths) above which the scoring agent
/// refuses a command.
pub const SCORE_THRESHOLD: u32 = 500;

/// The decimal digit character for `d`.
pub open spec fn digit_char(d: u32) -> char {
    if d == 0 {
        '0'
    } else if d == 1 {
        '1'
    } else if d == 2 {
        '2'
    } else if d == 3 {
        '3'
    } else if d == 4 {
        '4'
    } else if d == 5 {
        '5'
    } else if d == 6 {
        '6'
    } else if d == 7 {
        '7'
    } else if d == 8 {
        '8'
    } else {
        '9'
    }
}

/// A score in thousandths rendered as a number in `[0, 1]` with three
/// decimal places.
pub open spec fn score_chars(m: u32) -> Seq<char> {
    seq![
        digit_char(m / 1000),
        '.',
        digit_char((m / 100) % 10),
        digit_char((m / 10) % 10),
        digit_char(m % 10),
    ]
}

/// The success message of the scoring agent.
pub open spec fn ethical_message(m: u32, task: Seq<char>) -> Seq<char> {
    "Ethically approved (score: "@ + score_chars(m) + "): "@ + task
}

/// The success message of the compute agent's accelerated path.
pub open spec fn gpu_message(task: Seq<char>) -> Seq<char> {
    "GPU processed: "@ + task
}

/// The success message of the compute agent's fallback path.
pub open spec fn cpu_message(task: Seq<char>) -> Seq<char> {
    "CPU fallback processed: "@ + task
}

fn digit_str(d: u32) -> (r: &'static str)
    requires
        d <= 9,
    ensures
        r@ == seq![digit_char(d)],
{
    let r = match d {
        0 => "0",
        1 => "1",
        2 => "2",
        3 => "3",
        4 => "4",
        5 => "5",
        6 => "6",
        7 => "7",
        8 => "8",
        _ => "9",
    };
    proof {
        reveal_strlit("0");
        reveal_strlit("1");
        reveal_strlit("2");
        reveal_strlit("3");
        reveal_strlit("4");
        reveal_strlit("5");
        reveal_strlit("6");
        reveal_strlit("7");
        reveal_strlit("8");
        reveal_strlit("9");
        assert(r@ =~= seq![digit_char(d)]);
    }
    r
}

/// Render a score in thousandths with three decimal places.
fn score_string(m: u32) -> (r: String)
    requires
        m <= SCORE_SCALE,
    ensures
        r@ == score_chars(m),
{
    let mut s: String = digit_str(m / 1000).to_owned();
    s.append(".");
    s.append(digit_str((m / 100) % 10));
    s.append(digit_str((m / 10) % 10));
    s.append(digit_str(m % 10));
    proof {
        reveal_strlit(".");
        assert(s@ =~= score_chars(m));
    }
    s
}

/// The capability every agent offers: a result string for a command, or a
/// classified failure.
pub trait Agent {
    /// Produce this agent's result for `task`.
    fn execute(&self, task: &str) -> Result<String, AgentError>;
}

/// The verdict of the scoring agent on a task: the policy gate decides
/// first; only an approved command is judged against the score.
pub open spec fn ethical_verdict(
    constraints: Seq<Seq<char>>,
    task: Seq<char>,
    score_milli: u32,
) -> Result<Seq<char>, AgentError> {
    match check_spec(constraints, task) {
        Err(v) => Err(AgentError::PolicyRejected(v)),
        Ok(_) => if score_milli > SCORE_THRESHOLD {
            Err(AgentError::ScoreExceeded)
        } else {
            Ok(ethical_message(score_milli, task))
        },
    }
}

/// Reference agent A: screens a command through the policy gate, then applies
/// the external scorer's verdict.
///
/// The scorer itself is an external collaborator; the bounded score it
/// reported (in thousandths of the `[0, 1]` interval) is what this agent
/// carries.
#[derive(Debug)]
pub struct EthicalAgent {
    guard: EthicalGuard,
    score_milli: u32,
}

impl Clone for EthicalAgent {
    /// An agent over the same constraint set and reported score.
    fn clone(&self) -> (r: Self)
        ensures
            r.constraints_view() == self.constraints_view(),
            r.score_milli_spec() == self.score_milli_spec(),
    {
        proof {
            use_type_invariant(&*self);
        }
        EthicalAgent { guard: self.guard.clone(), score_milli: self.score_milli }
    }
}

impl EthicalAgent {
    #[verifier::type_invariant]
    spec fn type_inv(self) -> bool {
        self.score_milli <= SCORE_SCALE
    }

    /// The constraint set this agent screens commands against.
    pub closed spec fn constraints_view(&self) -> Seq<Seq<char>> {
        self.guard.constraints_view()
    }

    /// The score the external scorer reported, in thousandths.
    pub closed spec fn score_milli_spec(&self) -> u32 {
        self.score_milli
    }

    /// An agent over a gate and the score its scorer reported.
    pub fn new(guard: EthicalGuard, score_milli: u32) -> (r: Self)
        requires
            score_milli <= SCORE_SCALE,
        ensures
            r.constraints_view() == guard.constraints_view(),
            r.score_milli_spec() == score_milli,
    {
        EthicalAgent { guard, score_milli }
    }

    /// This agent's verdict on `task`: exactly `ethical_verdict`.
    pub fn execute(&self, task: &str) -> (r: Result<String, AgentError>)
        ensures
            res_view(r) == ethical_verdict(
                self.constraints_view(),
                task@,
                self.score_milli_spec(),
            ),
    {
        proof {
            use_type_invariant(&*self);
        }
        match self.guard.check_command(task) {
            Err(v) => Err(AgentError::PolicyRejected(v)),
            Ok(_) => {
                if self.score_milli > SCORE_THRESHOLD {
                    Err(AgentError::ScoreExceeded)
                } else {
                    let sc = score_string(self.score_milli);
                    let mut s: String = "Ethically approved (score: ".to_owned();
                    s.append(sc.as_str());
                    s.append("): ");
                    s.append(task);
                    proof {
                        assert(s@ =~= ethical_message(self.score_milli, task@));
                    }
                    Ok(s)
                }
            },
        }
    }
}

impl Agent for EthicalAgent {
    fn execute(&self, task: &str) -> Result<String, AgentError> {
        EthicalAgent::execute(self, task)
    }
}

/// The verdict of the compute agent on a task: both paths succeed, and they
/// differ only in which transform produced the payload.
pub open spec fn compute_verdict(accelerated: bool, task: Seq<char>) -> Result<
    Seq<char>,
    AgentError,
> {
    if accelerated {
        Ok(gpu_message(task))
    } else {
        Ok(cpu_message(task))
    }
}

/// Reference agent B: hands the command to an accelerator transform when one
/// is available, and to an identity fallback otherwise. The reference
/// transform is the identity, so both paths carry the task itself; the two
/// are indistinguishable to the dispatcher in success and failure shape.
#[derive(Debug, Clone)]
pub struct ComputeAgent {
    accelerated: bool,
}

impl ComputeAgent {
    /// Whether an accelerator is available to this agent.
    pub closed spec fn accelerated_spec(&self) -> bool {
        self.accelerated
    }

    /// An agent with or without an accelerator.
    pub fn new(accelerated: bool) -> (r: Self)
        ensures
            r.accelerated_spec() == accelerated,
    {
        ComputeAgent { accelerated }
    }

    /// This agent's verdict on `task`: exactly `compute_verdict`.
    pub fn execute(&self, task: &str) -> (r: Result<String, AgentError>)
        ensures
            res_view(r) == compute_verdict(self.accelerated_spec(), task@),
    {
        if self.accelerated {
            let mut s: String = "GPU processed: ".to_owned();
            s.append(task);
            Ok(s)
        } else {
            let mut s: String = "CPU fallback processed: ".to_owned();
            s.append(task);
            Ok(s)
        }
    }

    /// Wrap the output of an external accelerator transform, in the same
    /// success shape as the fallback path.
    pub fn wrap_transformed(&self, transformed: &str) -> (r: Result<String, AgentError>)
        ensures
            res_view(r) == Ok::<Seq<char>, AgentError>(gpu_message(transformed@)),
    {
        let mut s: String = "GPU processed: ".to_owned();
        s.append(transformed);
        Ok(s)
    }
}

impl Agent for ComputeAgent {
    fn execute(&self, task: &str) -> Result<String, AgentError> {
        ComputeAgent::execute(self, task)
    }
}

/// One agent of the closed reference set, dispatched as a tagged value.
#[derive(Debug, Clone)]
pub enum AgentImpl {
    /// The scoring agent.
    Ethical(EthicalAgent),
    /// The compute agent.
    Compute(ComputeAgent),
}

/// The verdict of one agent of the reference set on a task.
pub open spec fn agent_verdict(a: AgentImpl, task: Seq<char>) -> Result<Seq<char>, AgentError> {
    match a {
        AgentImpl::Ethical(e) => ethical_verdict(
            e.constraints_view(),
            task,
            e.score_milli_spec(),
        ),
        AgentImpl::Compute(c) => compute_verdict(c.accelerated_spec(), task),
    }
}

impl AgentImpl {
    /// Run this agent on `task`.
    pub fn execute(&self, task: &str) -> (r: Result<String, AgentError>)
        ensures
            res_view(r) == agent_verdict(*self, task@),
    {
        match self {
            AgentImpl::Ethical(e) => e.execute(task),
            AgentImpl::Compute(c) => c.execute(task),
        }
    }
}

impl Agent for AgentImpl {
    fn execute(&self, task: &str) -> Result<String, AgentError> {
        AgentImpl::execute(self, task)
    }
}

/// The delimiter between joined success payloads.
pub open spec fn delim() -> Seq<char> {
    " | "@
}

/// Aggregate per-agent verdicts from position `i` on: the first error in
/// submission order wins; otherwise the payloads joined by the delimiter, in
/// submission order.
pub open spec fn agg_from(rs: Seq<Result<Seq<char>, AgentError>>, i: int) -> Result<
    Seq<char>,
    DispatchError,
>
    decreases rs.len() - i,
{
    if i < 0 || i >= rs.len() {
        Ok(Seq::empty())
    } else {
        match rs[i] {
            Err(e) => Err(DispatchError::Agent(e)),
            Ok(s) => match agg_from(rs, i + 1) {
                Err(d) => Err(d),
                Ok(rest) => Ok(
                    if i + 1 == rs.len() {
                        s
                    } else {
                        s + delim() + rest
                    },
                ),
            },
        }
    }
}

/// The dispatch outcome on a batch: every agent's verdict on the one task,
/// aggregated fail-fast in submission order.
pub open spec fn dispatch_spec(agents: Seq<AgentImpl>, task: Seq<char>) -> Result<
    Seq<char>,
    DispatchError,
> {
    agg_from(agents.map_values(|a: AgentImpl| agent_verdict(a, task)), 0)
}

fn orchestrate_from(agents: &Vec<AgentImpl>, task: &str, i: usize) -> (r: Result<
    String,
    DispatchError,
>)
    requires
        i <= agents@.len(),
    ensures
        res_view(r) == agg_from(
            agents@.map_values(|a: AgentImpl| agent_verdict(a, task@)),
            i as int,
        ),
    decreases agents@.len() - i,
{
    let ghost verdicts = agents@.map_values(|a: AgentImpl| agent_verdict(a, task@));
    if i == agents.len() {
        return Ok(String::new());
    }
    let step = agents[i].execute(task);
    proof {
        assert(verdicts[i as int] == agent_verdict(agents@[i as int], task@));
    }
    match step {
        Err(e) => Err(DispatchError::Agent(e)),
        Ok(s) => match orchestrate_from(agents, task, i + 1) {
            Err(d) => Err(d),
            Ok(rest) => {
                if i + 1 == agents.len() {
                    Ok(s)
                } else {
                    let mut joined = s;
                    joined.append(" | ");
                    joined.append(rest.as_str());
                    Ok(joined)
                }
            },
        },
    }
}

/// Run every agent of the batch against one command, in submission order,
/// and aggregate fail-fast: the first failure is returned at once and the
/// agents after it are not run; when all succeed, the payloads are joined by
/// `" | "` in submission order.
pub fn orchestrate(agents: &Vec<AgentImpl>, task: &str) -> (r: Result<String, DispatchError>)
    ensures
        res_view(r) == dispatch_spec(agents@, task@),
{
    orchestrate_from(agents, task, 0)
}

/// What one concurrently run agent task came back with: a completed verdict,
/// or abnormal termination of the task itself.
#[derive(Debug)]
pub enum TaskOutcome {
    /// The task ran to completion and the agent returned this verdict.
    Completed(Result<String, AgentError>),
    /// The task terminated abnormally instead of returning a verdict.
    Faulted,
}

/// Aggregate concurrently gathered task outcomes from position `i` on: a
/// fault becomes `DispatchError::AgentFault`; otherwise as `agg_from`.
pub open spec fn aggregate_spec(os: Seq<TaskOutcome>, i: int) -> Result<Seq<char>, DispatchError>
    decreases os.len() - i,
{
    if i < 0 || i >= os.len() {
        Ok(Seq::empty())
    } else {
        match os[i] {
            TaskOutcome::Faulted => Err(DispatchError::AgentFault),
            TaskOutcome::Completed(Err(e)) => Err(DispatchError::Agent(e)),
            TaskOutcome::Completed(Ok(s)) => match aggregate_spec(os, i + 1) {
                Err(d) => Err(d),
                Ok(rest) => Ok(
                    if i + 1 == os.len() {
                        s@
                    } else {
                        s@ + delim() + rest
                    },
                ),
            },
        }
    }
}

fn aggregate_from(outcomes: &Vec<TaskOutcome>, i: usize) -> (r: Result<String, DispatchError>)
    requires
        i <= outcomes@.len(),
    ensures
        res_view(r) == aggregate_spec(outcomes@, i as int),
    decreases outcomes@.len() - i,
{
    if i == outcomes.len() {
        return Ok(String::new());
    }
    match &outcomes[i] {
        TaskOutcome::Faulted => Err(DispatchError::AgentFault),
        TaskOutcome::Completed(Err(e)) => Err(DispatchError::Agent(*e)),
        TaskOutcome::Completed(Ok(s)) => match aggregate_from(outcomes, i + 1) {
            Err(d) => Err(d),
            Ok(rest) => {
                if i + 1 == outcomes.len() {
                    Ok(s.clone())
                } else {
                    let mut joined = s.clone();
                    joined.append(" | ");
                    joined.append(rest.as_str());
                    Ok(joined)
                }
            },
        },
    }
}

/// Aggregate the outcomes a concurrent runner gathered, one per agent in
/// submission order: the first failure or fault in that order is surfaced;
/// when every task completed successfully, the payloads are joined by
/// `" | "` in submission order.
pub fn aggregate(outcomes: &Vec<TaskOutcome>) -> (r: Result<String, DispatchError>)
    ensures
        res_view(r) == aggregate_spec(outcomes@, 0),
{
    aggregate_from(outcomes, 0)
}

proof fn lemma_err_surfaces_from(rs: Seq<Result<Seq<char>, AgentError>>, i: int, e: AgentError, k: int)
    requires
        0 <= k <= i < rs.len(),
        rs[i] == Err::<Seq<char>, AgentError>(e),
        forall|j: int| 0 <= j < i ==> rs[j] is Ok,
    ensures
        agg_from(rs, k) == Err::<Seq<char>, DispatchError>(DispatchError::Agent(e)),
    decreases i - k,
{
    if k < i {
        lemma_err_surfaces_from(rs, i, e, k + 1);
    }
}

/// Fail-fast: when one agent fails and every agent before it succeeds, the
/// dispatch outcome is exactly that agent's failure. In particular, when
/// exactly one agent of a batch fails, its failure is surfaced.
pub proof fn lemma_fail_fast(rs: Seq<Result<Seq<char>, AgentError>>, i: int, e: AgentError)
    requires
        0 <= i < rs.len(),
        rs[i] == Err::<Seq<char>, AgentError>(e),
        forall|j: int| 0 <= j < i ==> rs[j] is Ok,
    ensures
        agg_from(rs, 0) == Err::<Seq<char>, DispatchError>(DispatchError::Agent(e)),
{
    lemma_err_surfaces_from(rs, i, e, 0);
}

proof fn lemma_all_ok_from(rs: Seq<Result<Seq<char>, AgentError>>, k: int)
    requires
        0 <= k <= rs.len(),
        forall|j: int| 0 <= j < rs.len() ==> rs[j] is Ok,
    ensures
        agg_from(rs, k) is Ok,
    decreases rs.len() - k,
{
    if k < rs.len() {
        lemma_all_ok_from(rs, k + 1);
    }
}

/// When every agent succeeds, dispatch succeeds: its payload is the ordered
/// join that `agg_from` defines, independent of any scheduling.
pub proof fn lemma_all_ok_joined(rs: Seq<Result<Seq<char>, AgentError>>)
    requires
        forall|j: int| 0 <= j < rs.len() ==> rs[j] is Ok,
    ensures
        agg_from(rs, 0) is Ok,
{
    lemma_all_ok_from(rs, 0);
}

} // verus!
