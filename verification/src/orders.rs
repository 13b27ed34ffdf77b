//! What the steps of a trial ask for, of every job and every trial.
use crate::backend::Backend;
use crate::clock;
use crate::command;
use crate::exchange::{ActionView, Host, Phase, ReplyView};
use crate::exchange;
use crate::plan::Op;
use crate::text;
use crate::trial::{JobView, TrialView};
use crate::trial;
use vstd::prelude::*;

verus! {

/// The command that `action` runs, on whichever machine.
pub open spec fn command_of(action: ActionView) -> Option<Seq<char>> {
    match action {
        ActionView::Run { host, command } => Some(command),
        ActionView::Save { host, command, file } => Some(command),
        _ => None,
    }
}

/// The machine on which `action` runs its command.
pub open spec fn host_of(action: ActionView) -> Option<Host> {
    match action {
        ActionView::Run { host, command } => Some(host),
        ActionView::Save { host, command, file } => Some(host),
        _ => None,
    }
}

/// MySQL gets a memory file system with a copy of the clean database, which it owns; it is then
/// started, and later stopped and unmounted. All this happens on the server, in the same way for
/// every job and trial.
pub proof fn mysql_runs_in_memory_on_the_server(job: JobView, trial: TrialView)
    ensures
        trial::op_action(job, trial, Op::MountRamdisk) == (ActionView::Run {
            host: Host::Server,
            command: "sudo mount -t tmpfs -o size=16G tmpfs /mnt"@,
        }),
        trial::op_action(job, trial, Op::CopyDatabase) == (ActionView::Run {
            host: Host::Server,
            command: "sudo cp -r /var/lib/mysql.clean /mnt/mysql"@,
        }),
        trial::op_action(job, trial, Op::OwnDatabase) == (ActionView::Run {
            host: Host::Server,
            command: "sudo chown -R mysql:mysql /var/lib/mysql/"@,
        }),
        trial::op_action(job, trial, Op::StartMysql) == (ActionView::Run {
            host: Host::Server,
            command: "bash -c 'sudo systemctl start mysql 2>&1'"@,
        }),
        trial::op_action(job, trial, Op::StopMysql) == (ActionView::Run {
            host: Host::Server,
            command: "bash -c 'sudo systemctl stop mysql 2>&1'"@,
        }),
        trial::op_action(job, trial, Op::UnmountRamdisk) == (ActionView::Run {
            host: Host::Server,
            command: "sudo umount /mnt"@,
        }),
{
}

/// What is left of Soup is killed for good before it is started, the worker on the server and the
/// shim on the client, and what ZooKeeper keeps of it is wiped. At the end both are stopped gently.
/// This is the same for every job and trial.
pub proof fn soup_is_killed_wiped_and_stopped(job: JobView, trial: TrialView)
    ensures
        trial::op_action(job, trial, Op::KillSouplet) == (ActionView::Run {
            host: Host::Server,
            command: "bash -c 'pkill -9 -f souplet 2>&1'"@,
        }),
        trial::op_action(job, trial, Op::KillShim) == (ActionView::Run {
            host: Host::Trawler,
            command: "bash -c 'pkill -9 -f distributary-mysql 2>&1'"@,
        }),
        trial::op_action(job, trial, Op::WipeState) == (ActionView::Run {
            host: Host::Server,
            command: "distributary/target/release/zk-util --clean --deployment trawler"@,
        }),
        trial::op_action(job, trial, Op::StopSouplet) == (ActionView::Run {
            host: Host::Server,
            command: "bash -c 'pkill -f souplet 2>&1'"@,
        }),
        trial::op_action(job, trial, Op::StopShim) == (ActionView::Run {
            host: Host::Trawler,
            command: "bash -c 'pkill -f distributary-mysql 2>&1'"@,
        }),
{
}

/// Ten seconds let Soup's old registration expire, five let it start, and two let it stop.
pub proof fn soup_is_given_time(job: JobView, trial: TrialView)
    ensures
        trial::op_action(job, trial, Op::AwaitExpiry) == (ActionView::Pause { seconds: 10 }),
        trial::op_action(job, trial, Op::AwaitStart) == (ActionView::Pause { seconds: 5 }),
        trial::op_action(job, trial, Op::AwaitStop) == (ActionView::Pause { seconds: 2 }),
{
}

/// Soup's worker is started on the server, under the server's address, with 60 readers and without
/// shards. A memory limit is handed on as it was given, and is all that it adds to the command.
pub proof fn the_worker_is_started_with_the_limit(job: JobView, trial: TrialView)
    ensures
        ({
            let start = "bash -c 'nohup env RUST_BACKTRACE=1 distributary/target/release/souplet \
                --deployment trawler --durability memory --no-reuse --address "@ + job.server_ip
                + " --readers 60 -w 5 --shards 0 "@;
            let end = " &> souplet.log &'"@;
            let command = command_of(trial::op_action(job, trial, Op::StartSouplet));
            &&& trial::op_action(job, trial, Op::StartSouplet) is Run
            &&& host_of(trial::op_action(job, trial, Op::StartSouplet)) == Some(Host::Server)
            &&& job.memlimit is None ==> command == Some(start + end)
            &&& job.memlimit matches Some(bytes) ==> {
                &&& command == Some(start + "--memory "@ + bytes + " "@ + end)
                &&& text::occurs_in("--memory "@ + bytes + " "@, command->0)
            }
        }),
{
    if job.memlimit is Some {
        let bytes = job.memlimit->0;
        let start = "bash -c 'nohup env RUST_BACKTRACE=1 distributary/target/release/souplet \
            --deployment trawler --durability memory --no-reuse --address "@ + job.server_ip
            + " --readers 60 -w 5 --shards 0 "@;
        let end = " &> souplet.log &'"@;
        let part = "--memory "@ + bytes + " "@;
        text::lemma_stands_between(start, part, end);
        assert(start + part + end == start + "--memory "@ + bytes + " "@ + end);
    }
}

/// The shim is started on the client; it finds ZooKeeper at the server's address, and takes MySQL's
/// place. Soup's statistics are asked for from the client, at the server's address.
pub proof fn the_shim_finds_soup_on_the_server(job: JobView, trial: TrialView)
    ensures
        trial::op_action(job, trial, Op::StartShim) == (ActionView::Run {
            host: Host::Trawler,
            command: "bash -c 'nohup env RUST_BACKTRACE=1 shim/target/release/distributary-mysql \
                --deployment trawler --no-sanitize --no-static-responses -z "@ + job.server_ip
                + ":2181 -p 3306 &> shim.log &'"@,
        }),
        trial::op_action(job, trial, Op::FetchStatistics) is Save,
        host_of(trial::op_action(job, trial, Op::FetchStatistics)) == Some(Host::Trawler),
        command_of(trial::op_action(job, trial, Op::FetchStatistics)) == Some(
            "wget http://"@ + job.server_ip + ":9000/get_statistics"@,
        ),
{
}

/// `command` runs the client that is built for `backend` with `options`. MySQL is reached at the
/// server's address; what the shim serves is reached on the client itself.
pub open spec fn runs_client(
    command: Seq<char>,
    backend: Backend,
    server_ip: Seq<char>,
    options: Seq<char>,
) -> bool {
    let dir = match backend {
        Backend::Mysql => "benchmarks"@,
        Backend::Soup => "benchmarks-soup"@,
        Backend::Soupy => "benchmarks-soupy"@,
    };
    let database = if backend == Backend::Mysql {
        server_ip
    } else {
        "127.0.0.1"@
    };
    command == "env RUST_BACKTRACE=1 "@ + dir + "/lobsters/mysql/target/release/trawler-mysql "@
        + options + "\"mysql://lobsters:$(cat ~/mysql.pass)@"@ + database + "/lobsters\""@
}

/// The database is filled, its keys are touched alike, and it is warmed up, each by a run of the
/// backend's own client on the client's machine. Each run names the job's data scale, and takes no
/// measurement; only the first fills the database.
pub proof fn the_client_fills_and_warms(job: JobView, trial: TrialView)
    ensures
        ({
            let scale = text::decimal_of(job.memscale as nat);
            let prime = trial::op_action(job, trial, Op::Prime);
            let uniform = trial::op_action(job, trial, Op::RunUniform);
            let warm = trial::op_action(job, trial, Op::Warm);
            &&& prime is Run && uniform is Run && warm is Run
            &&& host_of(prime) == Some(Host::Trawler)
            &&& host_of(uniform) == Some(Host::Trawler)
            &&& host_of(warm) == Some(Host::Trawler)
            &&& runs_client(
                command_of(prime)->0,
                trial.backend,
                job.server_ip,
                "--memscale "@ + scale + " --warmup 0 --runtime 0 --issuers 24 --prime "@,
            )
            &&& runs_client(
                command_of(uniform)->0,
                trial.backend,
                job.server_ip,
                "--uniform --reqscale 3000 --memscale "@ + scale
                    + " --warmup 300 --runtime 0 --issuers 24 "@,
            )
            &&& runs_client(
                command_of(warm)->0,
                trial.backend,
                job.server_ip,
                "--reqscale 3000 --memscale "@ + scale
                    + " --warmup 120 --runtime 0 --issuers 24 "@,
            )
        }),
{
}

/// The mark of a memory limit in a file's name: `l` and the limit as it was given, or `unlimited`.
pub open spec fn limit_in_names(limit: Option<Seq<char>>) -> Seq<char> {
    if limit is Some {
        "l"@ + limit->0
    } else {
        "unlimited"@
    }
}

/// A backend is measured by a run of its own client on the client's machine, under the trial's load
/// and at the job's data scale. The client writes a histogram whose name tells backend, data scale,
/// load and limit; what it prints is kept in a file whose name tells backend and load. The histogram
/// is then copied to a file of that name, and Soup's statistics go to a file called as the
/// histogram.
pub proof fn the_measurement_is_kept_under_its_trial(job: JobView, trial: TrialView)
    ensures
        ({
            let load = text::decimal_of(trial.scale as nat);
            let data = text::decimal_of(job.memscale as nat);
            let name = trial.backend.name_text();
            let result = "lobsters-"@ + name + "-m"@ + data + "-r"@ + load + "-"@ + limit_in_names(
                job.memlimit,
            );
            let stem = "lobsters-"@ + name + "-"@ + load;
            let measure = trial::op_action(job, trial, Op::Measure);
            let histogram = trial::op_action(job, trial, Op::FetchHistogram);
            let statistics = trial::op_action(job, trial, Op::FetchStatistics);
            &&& measure is Save && host_of(measure) == Some(Host::Trawler)
            &&& runs_client(
                command_of(measure)->0,
                trial.backend,
                job.server_ip,
                "--reqscale "@ + load + " --memscale "@ + data
                    + " --warmup 20 --runtime 30 --issuers 24 --histogram "@ + (result + ".hist"@)
                    + " \n                         "@,
            )
            &&& measure->Save_file == stem + ".log"@
            &&& histogram == (ActionView::Save {
                host: Host::Trawler,
                command: "cat "@ + (result + ".hist"@),
                file: stem + ".hist"@,
            })
            &&& statistics->Save_file == result + ".json"@
        }),
{
}

/// All runs of the client name the same data scale, the job's, in full.
#[verifier::rlimit(60)]
#[verifier::spinoff_prover]
pub proof fn every_run_names_the_jobs_data_scale(job: JobView, trial: TrialView, op: Op)
    requires
        op == Op::Prime || op == Op::RunUniform || op == Op::Warm || op == Op::Measure,
    ensures
        command_of(trial::op_action(job, trial, op)) matches Some(command) && text::occurs_in(
            "--memscale "@ + text::decimal_of(job.memscale as nat) + " "@,
            command,
        ),
{
    let scale = text::decimal_of(job.memscale as nat);
    let part = "--memscale "@ + scale + " "@;
    let command = command_of(trial::op_action(job, trial, op))->0;
    let head = "env RUST_BACKTRACE=1 "@ + trial.backend.client_dir_text()
        + "/lobsters/mysql/target/release/trawler-mysql "@;
    let tail = "\"mysql://lobsters:$(cat ~/mysql.pass)@"@ + trial.backend.database_text(
        job.server_ip,
    ) + "/lobsters\""@;
    lemma_flags();
    match op {
        Op::Prime => {
            let more = "--warmup 0 --runtime 0 --issuers 24 --prime "@;
            text::lemma_stands_between(head, part, more + tail);
            assert(command == head + part + (more + tail));
        },
        Op::RunUniform => {
            let first = "--uniform --reqscale 3000 "@;
            let more = "--warmup 300 --runtime 0 --issuers 24 "@;
            text::lemma_stands_between(head + first, part, more + tail);
            assert(command == (head + first) + part + (more + tail));
        },
        Op::Warm => {
            let first = "--reqscale 3000 "@;
            let more = "--warmup 120 --runtime 0 --issuers 24 "@;
            text::lemma_stands_between(head + first, part, more + tail);
            assert(command == (head + first) + part + (more + tail));
        },
        _ => {
            lemma_measured_at_its_scale(job, trial);
        },
    }
}

/// The run that measures names the job's data scale.
#[verifier::rlimit(60)]
#[verifier::spinoff_prover]
proof fn lemma_measured_at_its_scale(job: JobView, trial: TrialView)
    ensures
        command_of(trial::op_action(job, trial, Op::Measure)) matches Some(command)
            && text::occurs_in(
            "--memscale "@ + text::decimal_of(job.memscale as nat) + " "@,
            command,
        ) && text::occurs_in(
            "--reqscale "@ + text::decimal_of(trial.scale as nat) + " "@,
            command,
        ),
{
    let scale = text::decimal_of(job.memscale as nat);
    let load = text::decimal_of(trial.scale as nat);
    let command = command_of(trial::op_action(job, trial, Op::Measure))->0;
    let head = "env RUST_BACKTRACE=1 "@ + trial.backend.client_dir_text()
        + "/lobsters/mysql/target/release/trawler-mysql "@;
    let tail = "\"mysql://lobsters:$(cat ~/mysql.pass)@"@ + trial.backend.database_text(
        job.server_ip,
    ) + "/lobsters\""@;
    lemma_flags();
    reveal_strlit(" ");
    reveal_strlit("--reqscale ");
    let data = "--memscale "@ + scale + " "@;
    let asked = "--reqscale "@ + load + " "@;
    let name = command::histogram_name(trial.backend, job.memscale, trial.scale, job.memlimit);
    let more = "--warmup 20 --runtime 30 --issuers 24 --histogram "@ + name
        + " \n                         "@;
    assert(command == head + (asked + data + more) + tail);
    text::lemma_stands_between(head + asked, data, more + tail);
    assert(command == (head + asked) + data + (more + tail));
    text::lemma_stands_between(head, asked, data + more + tail);
    assert(command == head + asked + (data + more + tail));
}

/// How the client's flags are cut at the data scale.
proof fn lemma_flags()
    ensures
        " --warmup 0 --runtime 0 --issuers 24 --prime "@ == " "@
            + "--warmup 0 --runtime 0 --issuers 24 --prime "@,
        " --warmup 300 --runtime 0 --issuers 24 "@ == " "@
            + "--warmup 300 --runtime 0 --issuers 24 "@,
        " --warmup 120 --runtime 0 --issuers 24 "@ == " "@
            + "--warmup 120 --runtime 0 --issuers 24 "@,
        " --warmup 20 --runtime 30 --issuers 24 --histogram "@ == " "@
            + "--warmup 20 --runtime 30 --issuers 24 --histogram "@,
        "--uniform --reqscale 3000 --memscale "@ == "--uniform --reqscale 3000 "@ + "--memscale "@,
        "--reqscale 3000 --memscale "@ == "--reqscale 3000 "@ + "--memscale "@,
        " --memscale "@ == " "@ + "--memscale "@,
{
    reveal_strlit(" ");
    reveal_strlit("--memscale ");
    reveal_strlit(" --memscale ");
    reveal_strlit("--reqscale 3000 ");
    reveal_strlit("--reqscale 3000 --memscale ");
    reveal_strlit("--uniform --reqscale 3000 ");
    reveal_strlit("--uniform --reqscale 3000 --memscale ");
    reveal_strlit(" --warmup 0 --runtime 0 --issuers 24 --prime ");
    reveal_strlit("--warmup 0 --runtime 0 --issuers 24 --prime ");
    reveal_strlit(" --warmup 300 --runtime 0 --issuers 24 ");
    reveal_strlit("--warmup 300 --runtime 0 --issuers 24 ");
    reveal_strlit(" --warmup 120 --runtime 0 --issuers 24 ");
    reveal_strlit("--warmup 120 --runtime 0 --issuers 24 ");
    reveal_strlit(" --warmup 20 --runtime 30 --issuers 24 --histogram ");
    reveal_strlit("--warmup 20 --runtime 30 --issuers 24 --histogram ");
    assert(" --warmup 0 --runtime 0 --issuers 24 --prime "@ == " "@
        + "--warmup 0 --runtime 0 --issuers 24 --prime "@);
    assert(" --warmup 300 --runtime 0 --issuers 24 "@ == " "@
        + "--warmup 300 --runtime 0 --issuers 24 "@);
    assert(" --warmup 120 --runtime 0 --issuers 24 "@ == " "@
        + "--warmup 120 --runtime 0 --issuers 24 "@);
    assert(" --warmup 20 --runtime 30 --issuers 24 --histogram "@ == " "@
        + "--warmup 20 --runtime 30 --issuers 24 --histogram "@);
    assert("--uniform --reqscale 3000 --memscale "@ == "--uniform --reqscale 3000 "@
        + "--memscale "@);
    assert("--reqscale 3000 --memscale "@ == "--reqscale 3000 "@ + "--memscale "@);
    assert(" --memscale "@ == " "@ + "--memscale "@);
}

/// The run that measures names the trial's load in full. What is done before it does not depend on
/// that load, nor on any load averages: a backend is brought into the same state for every load.
pub proof fn only_the_measurement_depends_on_the_load(
    job: JobView,
    trial: TrialView,
    other: TrialView,
    op: Op,
)
    requires
        trial.backend == other.backend,
    ensures
        command_of(trial::op_action(job, trial, Op::Measure)) matches Some(command)
            && text::occurs_in(
            "--reqscale "@ + text::decimal_of(trial.scale as nat) + " "@,
            command,
        ),
        match op {
            Op::Announce
            | Op::Measure
            | Op::FetchHistogram
            | Op::FetchStatistics
            | Op::RecordLoad
            | Op::JudgeLoad
            | Op::JudgeRates => true,
            _ => trial::op_action(job, trial, op) == trial::op_action(job, other, op),
        },
{
    lemma_measured_at_its_scale(job, trial);
}

/// The load averages of both machines are read alike, each on its own machine; the line of the load
/// log tells the load and the backend, and then what was read on the server and on the client, in
/// this order. Of either it is the first word that is judged.
pub proof fn the_load_averages_are_read_and_told(job: JobView, trial: TrialView)
    ensures
        trial::op_action(job, trial, Op::ReadServerLoad) == (ActionView::Run {
            host: Host::Server,
            command: "awk '{print $1\" \"$2}' /proc/loadavg"@,
        }),
        trial::op_action(job, trial, Op::ReadClientLoad) == (ActionView::Run {
            host: Host::Trawler,
            command: "awk '{print $1\" \"$2}' /proc/loadavg"@,
        }),
        trial::op_action(job, trial, Op::RecordLoad) == (ActionView::Record {
            entry: text::decimal_of(trial.scale as nat) + " "@ + trial.backend.name_text() + " "@
                + trial.server_load + " "@ + trial.client_load + "\n"@,
        }),
        trial::op_action(job, trial, Op::JudgeLoad) == (ActionView::JudgeLoad {
            server: text::first_word_of(trial.server_load),
            client: text::first_word_of(trial.client_load),
        }),
{
}

/// A trial is announced with its backend and its load; a phase is announced with the time of day;
/// and the rates are looked for in the log of this very trial.
pub proof fn trials_and_phases_are_announced(job: JobView, trial: TrialView, phase: Phase)
    ensures
        trial::op_action(job, trial, Op::Announce) == (ActionView::Say {
            text: "==> benchmark "@ + trial.backend.name_text() + " w/ "@ + text::decimal_of(
                trial.scale as nat,
            ) + "x load"@,
        }),
        trial::op_action(job, trial, Op::Announced { phase }) == (ActionView::Clock { phase }),
        trial::op_action(job, trial, Op::JudgeRates) == (ActionView::JudgeRates {
            log: "lobsters-"@ + trial.backend.name_text() + "-"@ + text::decimal_of(
                trial.scale as nat,
            ) + ".log"@,
        }),
{
}

/// The replies that a step takes are those that fit what it asks for.
pub proof fn steps_take_what_fits(job: JobView, trial: TrialView, op: Op, reply: ReplyView)
    ensures
        trial::answers(op, reply) <==> exchange::fits(trial::op_action(job, trial, op), reply),
{
}

/// The words in front of what a command printed, for the commands whose output is shown.
pub open spec fn shown_under(op: Op) -> Option<Seq<char>> {
    match op {
        Op::KillSouplet => Some(" -> force stopped soup...\n"@),
        Op::KillShim => Some(" -> force stopped shim...\n"@),
        Op::WipeState => Some(" -> wiped soup state...\n"@),
        Op::StartMysql => Some(" -> started mysql...\n"@),
        Op::StopMysql => Some(" -> stopped mysql...\n"@),
        Op::StopSouplet => Some(" -> stopped soup...\n"@),
        Op::StopShim => Some(" -> stopped shim...\n"@),
        Op::Prime => Some(" -> priming finished...\n"@),
        Op::RunUniform => Some(" -> uniform finished...\n"@),
        Op::Warm => Some(" -> warming finished...\n"@),
        _ => None,
    }
}

/// What a command printed is shown under its own words, without the white space at its end, unless
/// nothing is left; of a command without such words nothing is shown. A bad judgement is told, a
/// good one is not; nor is that something is done, or that it failed.
pub proof fn what_a_trial_shows(op: Op, text: Seq<char>, reason: Seq<char>, bad: bool)
    ensures
        trial::note_text(op, ReplyView::Output { text }) is None <==> shown_under(op) is None || (
        forall|i: int| 0 <= i < text.len() ==> text::is_white_space(#[trigger] text[i])),
        trial::note_text(op, ReplyView::Output { text }) matches Some(note) ==> note
            == shown_under(op)->0 + text::without_trailing_space(text),
        trial::note_text(op, ReplyView::Overload { overloaded: bad }) == (if bad {
            Some(" -> backend is probably not keeping up"@)
        } else {
            None
        }),
        trial::note_text(op, ReplyView::Rates { behind: bad }) == (if bad {
            Some(" -> backend is really not keeping up"@)
        } else {
            None
        }),
        trial::note_text(op, ReplyView::NoRates) is None,
        trial::note_text(op, ReplyView::Done) is None,
        trial::note_text(op, ReplyView::Failed { reason }) is None,
{
    text::trimming_takes_space_only(text);
    let shown = text::without_trailing_space(text);
    if shown.len() > 0 {
        assert(shown.last() == text[shown.len() - 1]);
    }
}

/// A phase is announced in its own words, with the time that was told: hour, minute and second, two
/// digits each.
pub proof fn phases_are_announced_with_the_time(phase: Phase, hour: u32, minute: u32, second: u32)
    requires
        hour <= 23,
        minute <= 59,
        second <= 59,
    ensures
        ({
            let words = match phase {
                Phase::Priming => "priming"@,
                Phase::Uniform => "running uniform"@,
                Phase::Warming => "warming"@,
                Phase::Started => "started"@,
                Phase::Finished => "finished"@,
            };
            trial::note_text(
                Op::Announced { phase },
                ReplyView::Time { hour, minute, second },
            ) == Some(
                " -> "@ + words + " at "@ + (two_digits(hour as nat) + ":"@ + two_digits(
                    minute as nat,
                ) + ":"@ + two_digits(second as nat)),
            )
        }),
{
    clock::times_are_written_in_decimal(hour);
    clock::times_are_written_in_decimal(minute);
    clock::times_are_written_in_decimal(second);
}

/// A number below a hundred in decimal, with a zero in front where it has one digit only.
pub open spec fn two_digits(n: nat) -> Seq<char> {
    if n < 10 {
        "0"@ + text::decimal_of(n)
    } else {
        text::decimal_of(n)
    }
}

/// The client is run with whatever options it is given, in full: they stand between the program's
/// name and the database.
pub proof fn clients_get_their_options_whole(
    backend: Backend,
    server_ip: Seq<char>,
    options: Seq<char>,
)
    ensures
        runs_client(
            command::client_line(backend, server_ip, options),
            backend,
            server_ip,
            options,
        ),
{
}

/// A fetch names the checkout twice and the branch at its end, each in full.
pub proof fn fetches_name_checkout_and_branch(dir: Seq<char>, branch: Seq<char>)
    ensures
        ("bash -c 'git -C "@ + dir + " fetch && git -C "@ + dir + " reset --hard origin/"@
            + branch + " 2>&1'"@) == command::fetch_line(dir, branch),
        (branch + " 2>&1'"@).is_suffix_of(command::fetch_line(dir, branch)),
{
    let head = "bash -c 'git -C "@ + dir + " fetch && git -C "@ + dir + " reset --hard origin/"@;
    let tail = branch + " 2>&1'"@;
    let line = command::fetch_line(dir, branch);
    assert(line == head + tail);
    assert(line.subrange(head.len() as int, line.len() as int) == tail);
}

} // verus!
