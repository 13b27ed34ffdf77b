//! The steps of one trial: one backend under one load.
use crate::backend::Backend;
use crate::exchange::Phase;
use vstd::prelude::*;

verus! {

/// A step of a trial.
#[derive(Clone, Copy, Debug, PartialEq, Eq, Structural)]
pub enum Op {
    /// Tells which trial begins.
    Announce,
    /// Mounts a memory file system for MySQL's data.
    MountRamdisk,
    /// Copies the clean database to the memory file system.
    CopyDatabase,
    /// Hands the database to MySQL's user.
    OwnDatabase,
    /// Kills what is left of an earlier worker.
    KillSouplet,
    /// Kills what is left of an earlier shim.
    KillShim,
    /// Wipes what Soup keeps in ZooKeeper.
    WipeState,
    /// Waits for Soup's old registration to time out.
    AwaitExpiry,
    StartMysql,
    StartSouplet,
    StartShim,
    /// Gives Soup a chance to start.
    AwaitStart,
    /// Announces a phase, with the time of day.
    Announced { phase: Phase },
    /// Fills the database.
    Prime,
    /// Touches all keys alike.
    RunUniform,
    /// Warms the backend up.
    Warm,
    /// Runs the measurement and keeps what the client prints.
    Measure,
    /// Reads the server's load averages.
    ReadServerLoad,
    /// Reads the client's load averages.
    ReadClientLoad,
    /// Writes both to the load log.
    RecordLoad,
    /// Fetches the latency histogram.
    FetchHistogram,
    StopMysql,
    /// Unmounts the memory file system.
    UnmountRamdisk,
    /// Fetches Soup's statistics.
    FetchStatistics,
    StopSouplet,
    StopShim,
    /// Gives Soup some time to stop.
    AwaitStop,
    /// Tells whether the load averages are too high.
    JudgeLoad,
    /// Tells whether the rates are too low.
    JudgeRates,
}

/// What is done to have a clean machine.
pub open spec fn clean_ops(backend: Backend) -> Seq<Op> {
    match backend {
        Backend::Mysql => seq![Op::MountRamdisk, Op::CopyDatabase, Op::OwnDatabase],
        Backend::Soup | Backend::Soupy => seq![
            Op::KillSouplet,
            Op::KillShim,
            Op::WipeState,
            Op::AwaitExpiry,
        ],
    }
}

/// What is done to start the backend.
pub open spec fn start_ops(backend: Backend) -> Seq<Op> {
    match backend {
        Backend::Mysql => seq![Op::StartMysql],
        Backend::Soup | Backend::Soupy => seq![Op::StartSouplet, Op::StartShim, Op::AwaitStart],
    }
}

/// What is done to bring data into the backend and to warm it up. All keys are touched alike
/// where the backend's memory is limited.
pub open spec fn warm_ops(limited: bool) -> Seq<Op> {
    seq![Op::Announced { phase: Phase::Priming }, Op::Prime] + (if limited {
        seq![Op::Announced { phase: Phase::Uniform }, Op::RunUniform]
    } else {
        seq![]
    }) + seq![Op::Announced { phase: Phase::Warming }, Op::Warm]
}

/// What is done to measure the backend, and to keep the results.
pub open spec fn measure_ops() -> Seq<Op> {
    seq![
        Op::Announced { phase: Phase::Started },
        Op::Measure,
        Op::Announced { phase: Phase::Finished },
        Op::ReadServerLoad,
        Op::ReadClientLoad,
        Op::RecordLoad,
        Op::FetchHistogram,
    ]
}

/// What is done to stop the backend.
pub open spec fn stop_ops(backend: Backend) -> Seq<Op> {
    match backend {
        Backend::Mysql => seq![Op::StopMysql, Op::UnmountRamdisk],
        Backend::Soup | Backend::Soupy => seq![
            Op::FetchStatistics,
            Op::StopSouplet,
            Op::StopShim,
            Op::AwaitStop,
        ],
    }
}

/// All steps of a trial of `backend`, in order; `limited` tells whether its memory is limited.
pub open spec fn trial_ops(backend: Backend, limited: bool) -> Seq<Op> {
    seq![Op::Announce] + clean_ops(backend) + start_ops(backend) + warm_ops(limited)
        + measure_ops() + stop_ops(backend) + seq![Op::JudgeLoad, Op::JudgeRates]
}

/// All steps of a trial of `backend`, in order.
pub fn steps_of_trial(backend: Backend, limited: bool) -> (ops: Vec<Op>)
    ensures
        ops@ == trial_ops(backend, limited),
{
    let mut ops: Vec<Op> = Vec::new();
    ops.push(Op::Announce);
    match backend {
        Backend::Mysql => {
            ops.push(Op::MountRamdisk);
            ops.push(Op::CopyDatabase);
            ops.push(Op::OwnDatabase);
            ops.push(Op::StartMysql);
        },
        Backend::Soup | Backend::Soupy => {
            ops.push(Op::KillSouplet);
            ops.push(Op::KillShim);
            ops.push(Op::WipeState);
            ops.push(Op::AwaitExpiry);
            ops.push(Op::StartSouplet);
            ops.push(Op::StartShim);
            ops.push(Op::AwaitStart);
        },
    }
    assert(ops@ == seq![Op::Announce] + clean_ops(backend) + start_ops(backend));
    let ghost started = ops@;
    ops.push(Op::Announced { phase: Phase::Priming });
    ops.push(Op::Prime);
    if limited {
        ops.push(Op::Announced { phase: Phase::Uniform });
        ops.push(Op::RunUniform);
    }
    ops.push(Op::Announced { phase: Phase::Warming });
    ops.push(Op::Warm);
    assert(ops@ == started + warm_ops(limited));
    let ghost warm = ops@;
    ops.push(Op::Announced { phase: Phase::Started });
    ops.push(Op::Measure);
    ops.push(Op::Announced { phase: Phase::Finished });
    ops.push(Op::ReadServerLoad);
    ops.push(Op::ReadClientLoad);
    ops.push(Op::RecordLoad);
    ops.push(Op::FetchHistogram);
    assert(ops@ == warm + measure_ops());
    let ghost measured = ops@;
    match backend {
        Backend::Mysql => {
            ops.push(Op::StopMysql);
            ops.push(Op::UnmountRamdisk);
        },
        Backend::Soup | Backend::Soupy => {
            ops.push(Op::FetchStatistics);
            ops.push(Op::StopSouplet);
            ops.push(Op::StopShim);
            ops.push(Op::AwaitStop);
        },
    }
    assert(ops@ == measured + stop_ops(backend));
    let ghost stopped = ops@;
    ops.push(Op::JudgeLoad);
    ops.push(Op::JudgeRates);
    assert(ops@ == stopped + seq![Op::JudgeLoad, Op::JudgeRates]);
    ops
}

/// The rates are judged once, in the last step of a trial.
pub proof fn lemma_judged_last(backend: Backend, limited: bool)
    ensures
        trial_ops(backend, limited).len() > 0,
        forall|i: int|
            0 <= i < trial_ops(backend, limited).len() ==> (#[trigger] trial_ops(
                backend,
                limited,
            )[i] == Op::JudgeRates <==> i == trial_ops(backend, limited).len() - 1),
{
}

/// The number of steps of the longest trial.
pub const LONGEST_TRIAL: usize = 27;

/// No trial has more steps than the longest one.
pub proof fn lemma_longest_trial(backend: Backend, limited: bool)
    ensures
        trial_ops(backend, limited).len() <= LONGEST_TRIAL,
{
}

/// Every trial has a step that reads the server's load averages.
pub proof fn a_trial_reads_its_load(backend: Backend, limited: bool) -> (k: int)
    ensures
        0 <= k < trial_ops(backend, limited).len(),
        trial_ops(backend, limited)[k] == Op::ReadServerLoad,
{
    let k = 4 + clean_ops(backend).len() + start_ops(backend).len() + warm_ops(limited).len();
    assert(trial_ops(backend, limited)[k as int] == Op::ReadServerLoad);
    k as int
}

/// The two load averages are read once, the client's right after the server's, and written to the
/// load log once, right after that.
pub proof fn lemma_load_is_read_and_recorded(backend: Backend, limited: bool, k: int)
    requires
        0 <= k < trial_ops(backend, limited).len(),
        trial_ops(backend, limited)[k] == Op::ReadServerLoad,
    ensures
        k + 3 < trial_ops(backend, limited).len(),
        forall|i: int|
            0 <= i < trial_ops(backend, limited).len() ==> {
                &&& (#[trigger] trial_ops(backend, limited)[i] == Op::ReadServerLoad <==> i == k)
                &&& (trial_ops(backend, limited)[i] == Op::ReadClientLoad <==> i == k + 1)
                &&& (trial_ops(backend, limited)[i] == Op::RecordLoad <==> i == k + 2)
            },
{
}

/// What runs on a machine, or is set up there, for the time of a trial.
#[derive(Clone, Copy, Debug, PartialEq, Eq, Structural)]
pub enum Service {
    Ramdisk,
    Mysql,
    Souplet,
    Shim,
}

/// What the step `op` starts.
pub open spec fn starts(op: Op) -> Option<Service> {
    match op {
        Op::MountRamdisk => Some(Service::Ramdisk),
        Op::StartMysql => Some(Service::Mysql),
        Op::StartSouplet => Some(Service::Souplet),
        Op::StartShim => Some(Service::Shim),
        _ => None,
    }
}

/// What the step `op` stops.
pub open spec fn stops(op: Op) -> Option<Service> {
    match op {
        Op::UnmountRamdisk => Some(Service::Ramdisk),
        Op::StopMysql => Some(Service::Mysql),
        Op::StopSouplet => Some(Service::Souplet),
        Op::StopShim => Some(Service::Shim),
        _ => None,
    }
}

/// What a trial starts, it stops in a later step.
pub proof fn what_is_started_is_stopped(backend: Backend, limited: bool, i: int)
    requires
        0 <= i < trial_ops(backend, limited).len(),
        starts(trial_ops(backend, limited)[i]) is Some,
    ensures
        exists|j: int|
            i < j < trial_ops(backend, limited).len() && stops(
                #[trigger] trial_ops(backend, limited)[j],
            ) == starts(trial_ops(backend, limited)[i]),
{
    let ops = trial_ops(backend, limited);
    let n = ops.len() as int;
    match ops[i] {
        Op::MountRamdisk => {
            assert(ops[n - 3] == Op::UnmountRamdisk);
        },
        Op::StartSouplet => {
            assert(ops[n - 5] == Op::StopSouplet);
        },
        _ => {
            assert(ops[n - 4] == Op::StopMysql || ops[n - 4] == Op::StopShim);
        },
    }
}

/// The backend is measured while it runs: all that a trial starts is started before the
/// measurement, and nothing is stopped before it is over.
pub proof fn measured_while_it_runs(backend: Backend, limited: bool, m: int, i: int)
    requires
        0 <= m < trial_ops(backend, limited).len(),
        trial_ops(backend, limited)[m] == Op::Measure,
        0 <= i < trial_ops(backend, limited).len(),
    ensures
        starts(trial_ops(backend, limited)[i]) is Some ==> i < m,
        stops(trial_ops(backend, limited)[i]) is Some ==> m < i,
{
}

/// All keys are touched alike exactly where the memory is limited.
pub proof fn uniform_exactly_where_limited(backend: Backend, limited: bool)
    ensures
        trial_ops(backend, limited).contains(Op::RunUniform) <==> limited,
{
    let ops = trial_ops(backend, limited);
    if limited {
        let start: int = 1 + clean_ops(backend).len() + start_ops(backend).len() as int;
        assert(ops[start + 3] == Op::RunUniform);
    }
}

/// After the first `n` of the steps `ops`, `service` was started and not stopped since.
pub open spec fn runs_after(ops: Seq<Op>, n: int, service: Service) -> bool
    decreases n,
{
    n > 0 && if starts(ops[n - 1]) == Some(service) {
        true
    } else if stops(ops[n - 1]) == Some(service) {
        false
    } else {
        runs_after(ops, n - 1, service)
    }
}

/// What does not run stays so as long as it is not started.
proof fn lemma_stays_stopped(ops: Seq<Op>, m: int, n: int, service: Service)
    requires
        0 <= m <= n <= ops.len(),
        !runs_after(ops, m, service),
        forall|i: int| m <= i < n ==> starts(#[trigger] ops[i]) != Some(service),
    ensures
        !runs_after(ops, n, service),
    decreases n - m,
{
    if m < n {
        lemma_stays_stopped(ops, m, n - 1, service);
    }
}

/// What runs stays so as long as it is not stopped.
proof fn lemma_stays_started(ops: Seq<Op>, m: int, n: int, service: Service)
    requires
        0 <= m <= n <= ops.len(),
        runs_after(ops, m, service),
        forall|i: int| m <= i < n ==> stops(#[trigger] ops[i]) != Some(service),
    ensures
        runs_after(ops, n, service),
    decreases n - m,
{
    if m < n {
        lemma_stays_started(ops, m, n - 1, service);
    }
}

/// The step of a trial that measures.
proof fn lemma_measured_at(backend: Backend, limited: bool) -> (m: int)
    ensures
        0 <= m < trial_ops(backend, limited).len(),
        trial_ops(backend, limited)[m] == Op::Measure,
{
    let m = 2 + clean_ops(backend).len() + start_ops(backend).len() + warm_ops(limited).len();
    assert(trial_ops(backend, limited)[m as int] == Op::Measure);
    m as int
}

/// After a trial, nothing that it started runs any more.
pub proof fn nothing_runs_after_a_trial(backend: Backend, limited: bool, service: Service)
    ensures
        !runs_after(
            trial_ops(backend, limited),
            trial_ops(backend, limited).len() as int,
            service,
        ),
{
    let ops = trial_ops(backend, limited);
    let m = lemma_measured_at(backend, limited);
    assert forall|i: int| 0 <= i < ops.len() implies {
        &&& (starts(#[trigger] ops[i]) is Some ==> i < m)
        &&& (stops(ops[i]) is Some ==> m < i)
    } by {
        measured_while_it_runs(backend, limited, m, i);
    }
    if exists|i: int| 0 <= i < ops.len() && starts(#[trigger] ops[i]) == Some(service) {
        let i = choose|i: int| 0 <= i < ops.len() && starts(#[trigger] ops[i]) == Some(service);
        what_is_started_is_stopped(backend, limited, i);
        let j = choose|j: int|
            i < j < ops.len() && stops(#[trigger] ops[j]) == starts(ops[i]);
        assert(!runs_after(ops, j + 1, service));
        lemma_stays_stopped(ops, j + 1, ops.len() as int, service);
    } else {
        lemma_stays_stopped(ops, 0, ops.len() as int, service);
    }
}

/// While a backend is measured, all that its trial starts is running.
pub proof fn all_runs_during_the_measurement(
    backend: Backend,
    limited: bool,
    m: int,
    service: Service,
)
    requires
        0 <= m < trial_ops(backend, limited).len(),
        trial_ops(backend, limited)[m] == Op::Measure,
    ensures
        runs_after(trial_ops(backend, limited), m, service) <==> exists|i: int|
            0 <= i < trial_ops(backend, limited).len() && starts(
                #[trigger] trial_ops(backend, limited)[i],
            ) == Some(service),
{
    let ops = trial_ops(backend, limited);
    assert forall|i: int| 0 <= i < ops.len() implies {
        &&& (starts(#[trigger] ops[i]) is Some ==> i < m)
        &&& (stops(ops[i]) is Some ==> m < i)
    } by {
        measured_while_it_runs(backend, limited, m, i);
    }
    if exists|i: int| 0 <= i < ops.len() && starts(#[trigger] ops[i]) == Some(service) {
        let i = choose|i: int| 0 <= i < ops.len() && starts(#[trigger] ops[i]) == Some(service);
        assert(runs_after(ops, i + 1, service));
        lemma_stays_started(ops, i + 1, m, service);
    } else {
        lemma_stays_stopped(ops, 0, m, service);
    }
}

/// Where a step comes, of all the steps that a trial can have.
pub open spec fn place_of(op: Op) -> int {
    match op {
        Op::Announce => 0,
        Op::MountRamdisk => 1,
        Op::CopyDatabase => 2,
        Op::OwnDatabase => 3,
        Op::KillSouplet => 4,
        Op::KillShim => 5,
        Op::WipeState => 6,
        Op::AwaitExpiry => 7,
        Op::StartMysql => 8,
        Op::StartSouplet => 9,
        Op::StartShim => 10,
        Op::AwaitStart => 11,
        Op::Announced { phase } => match phase {
            Phase::Priming => 12,
            Phase::Uniform => 14,
            Phase::Warming => 16,
            Phase::Started => 18,
            Phase::Finished => 20,
        },
        Op::Prime => 13,
        Op::RunUniform => 15,
        Op::Warm => 17,
        Op::Measure => 19,
        Op::ReadServerLoad => 21,
        Op::ReadClientLoad => 22,
        Op::RecordLoad => 23,
        Op::FetchHistogram => 24,
        Op::StopMysql => 25,
        Op::UnmountRamdisk => 26,
        Op::FetchStatistics => 27,
        Op::StopSouplet => 28,
        Op::StopShim => 29,
        Op::AwaitStop => 30,
        Op::JudgeLoad => 31,
        Op::JudgeRates => 32,
    }
}

/// The step `op` is one that a trial of `backend` has. MySQL gets a memory file system with a clean
/// database. What is left of Soup is killed and wiped, and Soup's statistics are fetched. All keys
/// are touched alike where the memory is limited. Every other step is the same for all.
pub open spec fn belongs(op: Op, backend: Backend, limited: bool) -> bool {
    match op {
        Op::MountRamdisk
        | Op::CopyDatabase
        | Op::OwnDatabase
        | Op::StartMysql
        | Op::StopMysql
        | Op::UnmountRamdisk => backend == Backend::Mysql,
        Op::KillSouplet
        | Op::KillShim
        | Op::WipeState
        | Op::AwaitExpiry
        | Op::StartSouplet
        | Op::StartShim
        | Op::AwaitStart
        | Op::FetchStatistics
        | Op::StopSouplet
        | Op::StopShim
        | Op::AwaitStop => backend == Backend::Soup || backend == Backend::Soupy,
        Op::RunUniform => limited,
        Op::Announced { phase } => phase == Phase::Uniform ==> limited,
        _ => true,
    }
}

/// A trial has exactly the steps that belong to it, each once, and in their order: it cleans, starts,
/// fills, warms, measures, collects, stops and judges.
pub proof fn a_trial_has_its_steps_in_their_order(backend: Backend, limited: bool)
    ensures
        forall|op: Op|
            #[trigger] trial_ops(backend, limited).contains(op) <==> belongs(op, backend, limited),
        forall|i: int, j: int|
            0 <= i < j < trial_ops(backend, limited).len() ==> place_of(
                #[trigger] trial_ops(backend, limited)[i],
            ) < place_of(#[trigger] trial_ops(backend, limited)[j]),
{
    let ops = trial_ops(backend, limited);
    assert forall|op: Op| #[trigger] ops.contains(op) <==> belongs(op, backend, limited) by {
        if belongs(op, backend, limited) {
            let i = index_of(op, backend, limited);
            lemma_index_of(op, backend, limited);
            assert(ops[i] == op);
        } else {
            lemma_only_what_belongs(op, backend, limited);
        }
    }
    assert forall|i: int, j: int| 0 <= i < j < ops.len() implies place_of(#[trigger] ops[i])
        < place_of(#[trigger] ops[j]) by {
        lemma_later_steps(backend, limited, i, j);
    }
}

/// Each step comes before the next.
proof fn lemma_next_step(backend: Backend, limited: bool, i: int)
    requires
        0 <= i < trial_ops(backend, limited).len() - 1,
    ensures
        place_of(trial_ops(backend, limited)[i]) < place_of(trial_ops(backend, limited)[i + 1]),
{
}

/// Each step comes before all that stand behind it.
proof fn lemma_later_steps(backend: Backend, limited: bool, i: int, j: int)
    requires
        0 <= i < j < trial_ops(backend, limited).len(),
    ensures
        place_of(trial_ops(backend, limited)[i]) < place_of(trial_ops(backend, limited)[j]),
    decreases j - i,
{
    lemma_next_step(backend, limited, j - 1);
    if i < j - 1 {
        lemma_later_steps(backend, limited, i, j - 1);
    }
}

/// A step that belongs to a trial stands where it is said to.
proof fn lemma_index_of(op: Op, backend: Backend, limited: bool)
    requires
        belongs(op, backend, limited),
    ensures
        0 <= index_of(op, backend, limited) < trial_ops(backend, limited).len(),
        trial_ops(backend, limited)[index_of(op, backend, limited)] == op,
{
}

/// A step that does not belong to a trial does not stand in it.
proof fn lemma_only_what_belongs(op: Op, backend: Backend, limited: bool)
    requires
        !belongs(op, backend, limited),
    ensures
        !trial_ops(backend, limited).contains(op),
{
}

/// Where a step that belongs to a trial stands among its steps.
spec fn index_of(op: Op, backend: Backend, limited: bool) -> int {
    let w = 1 + clean_ops(backend).len() + start_ops(backend).len() as int;
    let m = w + warm_ops(limited).len();
    let n = trial_ops(backend, limited).len() as int;
    match op {
        Op::Announce => 0,
        Op::MountRamdisk => 1,
        Op::CopyDatabase => 2,
        Op::OwnDatabase => 3,
        Op::KillSouplet => 1,
        Op::KillShim => 2,
        Op::WipeState => 3,
        Op::AwaitExpiry => 4,
        Op::StartMysql => 4,
        Op::StartSouplet => 5,
        Op::StartShim => 6,
        Op::AwaitStart => 7,
        Op::Announced { phase } => match phase {
            Phase::Priming => w,
            Phase::Uniform => w + 2,
            Phase::Warming => m - 2,
            Phase::Started => m,
            Phase::Finished => m + 2,
        },
        Op::Prime => w + 1,
        Op::RunUniform => w + 3,
        Op::Warm => m - 1,
        Op::Measure => m + 1,
        Op::ReadServerLoad => m + 3,
        Op::ReadClientLoad => m + 4,
        Op::RecordLoad => m + 5,
        Op::FetchHistogram => m + 6,
        Op::StopMysql => m + 7,
        Op::UnmountRamdisk => m + 8,
        Op::FetchStatistics => m + 7,
        Op::StopSouplet => m + 8,
        Op::StopShim => m + 9,
        Op::AwaitStop => m + 10,
        Op::JudgeLoad => n - 2,
        Op::JudgeRates => n - 1,
    }
}

/// `op` stands exactly once among `ops`, at `i`.
pub open spec fn only_at(ops: Seq<Op>, op: Op, i: int) -> bool {
    0 <= i < ops.len() && forall|j: int| 0 <= j < ops.len() ==> (#[trigger] ops[j] == op <==> j == i)
}

/// Every backend, with or without a memory limit, is filled once, warmed once and measured once, in
/// this order. It is filled after all that its trial starts has been started, and before all keys
/// are touched alike.
pub proof fn filled_then_warmed_then_measured(backend: Backend, limited: bool)
    ensures
        exists|prime: int, warm: int, measure: int|
            {
                &&& #[trigger] only_at(trial_ops(backend, limited), Op::Prime, prime)
                &&& #[trigger] only_at(trial_ops(backend, limited), Op::Warm, warm)
                &&& #[trigger] only_at(trial_ops(backend, limited), Op::Measure, measure)
                &&& prime < warm < measure
                &&& forall|i: int|
                    0 <= i < trial_ops(backend, limited).len() ==> {
                        &&& starts(#[trigger] trial_ops(backend, limited)[i]) is Some ==> i < prime
                        &&& trial_ops(backend, limited)[i] == Op::RunUniform ==> prime < i < warm
                    }
            },
{
    let ops = trial_ops(backend, limited);
    let w = 1 + clean_ops(backend).len() + start_ops(backend).len() as int;
    let m = w + warm_ops(limited).len();
    assert(only_at(ops, Op::Prime, w + 1));
    assert(only_at(ops, Op::Warm, m - 1));
    assert(only_at(ops, Op::Measure, m + 1));
}

/// A memory limit adds one thing to a trial: right after the backend is filled, all keys are touched
/// alike. Everything before and after stays as it is.
pub proof fn a_limit_adds_the_uniform_run_only(backend: Backend) -> (k: int)
    ensures
        0 < k <= trial_ops(backend, false).len(),
        trial_ops(backend, false)[k - 1] == Op::Prime,
        trial_ops(backend, true) == trial_ops(backend, false).take(k) + seq![
            Op::Announced { phase: Phase::Uniform },
            Op::RunUniform,
        ] + trial_ops(backend, false).skip(k),
{
    let k = 3 + clean_ops(backend).len() + start_ops(backend).len() as int;
    assert(trial_ops(backend, true) == trial_ops(backend, false).take(k) + seq![
        Op::Announced { phase: Phase::Uniform },
        Op::RunUniform,
    ] + trial_ops(backend, false).skip(k));
    k
}

/// Soup is tried in the same steps with either set of queries.
pub proof fn soup_and_soupy_have_the_same_steps(limited: bool)
    ensures
        trial_ops(Backend::Soup, limited) == trial_ops(Backend::Soupy, limited),
{
}

} // verus!
