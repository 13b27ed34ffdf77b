//! What each step of a trial asks for, and what is printed when it is done.
use crate::backend::Backend;
use crate::clock;
use crate::command;
use crate::exchange::{Action, ActionView, Host, Reply, ReplyView};
use crate::plan::Op;
use crate::text;
use vstd::prelude::*;
use vstd::string::*;

verus! {

/// What a campaign is run with.
#[derive(Debug)]
pub struct Job {
    /// The server's address in the machines' network.
    pub server_ip: String,
    /// The factor by which the data set is scaled.
    pub memscale: usize,
    /// The limit on Soup's memory, in bytes, as it was given.
    pub memlimit: Option<String>,
    /// The loads, in order; `None` stands for a text that is no number.
    pub scales: Vec<Option<usize>>,
}

/// What `Job` stands for.
pub struct JobView {
    pub server_ip: Seq<char>,
    pub memscale: usize,
    pub memlimit: Option<Seq<char>>,
    pub scales: Seq<Option<usize>>,
}

impl View for Job {
    type V = JobView;

    open spec fn view(&self) -> JobView {
        JobView {
            server_ip: self.server_ip@,
            memscale: self.memscale,
            memlimit: command::text_of(self.memlimit),
            scales: self.scales@,
        }
    }
}

/// What is told of one trial: its backend, its load, and the load averages read so far.
pub struct TrialView {
    pub backend: Backend,
    pub scale: usize,
    pub server_load: Seq<char>,
    pub client_load: Seq<char>,
}

/// What the step `op` of a trial asks for.
pub open spec fn op_action(job: JobView, trial: TrialView, op: Op) -> ActionView {
    let backend = trial.backend;
    let scale = trial.scale;
    match op {
        Op::Announce => ActionView::Say { text: command::announcement_text(backend, scale) },
        Op::MountRamdisk => ActionView::Run {
            host: Host::Server,
            command: "sudo mount -t tmpfs -o size=16G tmpfs /mnt"@,
        },
        Op::CopyDatabase => ActionView::Run {
            host: Host::Server,
            command: "sudo cp -r /var/lib/mysql.clean /mnt/mysql"@,
        },
        Op::OwnDatabase => ActionView::Run {
            host: Host::Server,
            command: "sudo chown -R mysql:mysql /var/lib/mysql/"@,
        },
        Op::KillSouplet => ActionView::Run {
            host: Host::Server,
            command: "bash -c 'pkill -9 -f souplet 2>&1'"@,
        },
        Op::KillShim => ActionView::Run {
            host: Host::Trawler,
            command: "bash -c 'pkill -9 -f distributary-mysql 2>&1'"@,
        },
        Op::WipeState => ActionView::Run {
            host: Host::Server,
            command: "distributary/target/release/zk-util --clean --deployment trawler"@,
        },
        Op::StartMysql => ActionView::Run {
            host: Host::Server,
            command: "bash -c 'sudo systemctl start mysql 2>&1'"@,
        },
        Op::ReadServerLoad => ActionView::Run {
            host: Host::Server,
            command: "awk '{print $1\" \"$2}' /proc/loadavg"@,
        },
        Op::ReadClientLoad => ActionView::Run {
            host: Host::Trawler,
            command: "awk '{print $1\" \"$2}' /proc/loadavg"@,
        },
        Op::StopMysql => ActionView::Run {
            host: Host::Server,
            command: "bash -c 'sudo systemctl stop mysql 2>&1'"@,
        },
        Op::UnmountRamdisk => ActionView::Run {
            host: Host::Server,
            command: "sudo umount /mnt"@,
        },
        Op::StopSouplet => ActionView::Run {
            host: Host::Server,
            command: "bash -c 'pkill -f souplet 2>&1'"@,
        },
        Op::StopShim => ActionView::Run {
            host: Host::Trawler,
            command: "bash -c 'pkill -f distributary-mysql 2>&1'"@,
        },
        Op::StartSouplet => ActionView::Run {
            host: Host::Server,
            command: command::souplet_line(job.server_ip, job.memlimit),
        },
        Op::StartShim => ActionView::Run {
            host: Host::Trawler,
            command: command::shim_line(job.server_ip),
        },
        Op::Prime => ActionView::Run {
            host: Host::Trawler,
            command: command::client_line(
                backend,
                job.server_ip,
                command::prime_option_text(job.memscale),
            ),
        },
        Op::RunUniform => ActionView::Run {
            host: Host::Trawler,
            command: command::client_line(
                backend,
                job.server_ip,
                command::uniform_option_text(job.memscale),
            ),
        },
        Op::Warm => ActionView::Run {
            host: Host::Trawler,
            command: command::client_line(
                backend,
                job.server_ip,
                command::warm_option_text(job.memscale),
            ),
        },
        Op::AwaitExpiry => ActionView::Pause { seconds: 10 },
        Op::AwaitStart => ActionView::Pause { seconds: 5 },
        Op::AwaitStop => ActionView::Pause { seconds: 2 },
        Op::Announced { phase } => ActionView::Clock { phase },
        Op::Measure => ActionView::Save {
            host: Host::Trawler,
            command: command::client_line(
                backend,
                job.server_ip,
                command::measure_option_text(backend, job.memscale, scale, job.memlimit),
            ),
            file: command::log_name(backend, scale),
        },
        Op::FetchHistogram => ActionView::Save {
            host: Host::Trawler,
            command: command::histogram_line(backend, job.memscale, scale, job.memlimit),
            file: command::histogram_copy_name(backend, scale),
        },
        Op::FetchStatistics => ActionView::Save {
            host: Host::Trawler,
            command: command::statistics_line(job.server_ip),
            file: command::statistics_name(backend, job.memscale, scale, job.memlimit),
        },
        Op::RecordLoad => ActionView::Record {
            entry: command::load_entry_text(backend, scale, trial.server_load, trial.client_load),
        },
        Op::JudgeLoad => ActionView::JudgeLoad {
            server: text::first_word_of(trial.server_load),
            client: text::first_word_of(trial.client_load),
        },
        Op::JudgeRates => ActionView::JudgeRates { log: command::log_name(backend, scale) },
    }
}

/// What the step `op` of a trial asks for.
pub fn action_for(
    job: &Job,
    backend: Backend,
    scale: usize,
    server_load: &str,
    client_load: &str,
    op: Op,
) -> (action: Action)
    ensures
        action@ == op_action(
            job@,
            (TrialView {
                backend,
                scale,
                server_load: server_load@,
                client_load: client_load@,
            }),
            op,
        ),
{
    match op {
        Op::Announce => Action::Say { text: command::announcement(backend, scale) },
        Op::MountRamdisk => Action::Run {
            host: Host::Server,
            command: String::from_str("sudo mount -t tmpfs -o size=16G tmpfs /mnt"),
        },
        Op::CopyDatabase => Action::Run {
            host: Host::Server,
            command: String::from_str("sudo cp -r /var/lib/mysql.clean /mnt/mysql"),
        },
        Op::OwnDatabase => Action::Run {
            host: Host::Server,
            command: String::from_str("sudo chown -R mysql:mysql /var/lib/mysql/"),
        },
        Op::KillSouplet => Action::Run {
            host: Host::Server,
            command: String::from_str("bash -c 'pkill -9 -f souplet 2>&1'"),
        },
        Op::KillShim => Action::Run {
            host: Host::Trawler,
            command: String::from_str("bash -c 'pkill -9 -f distributary-mysql 2>&1'"),
        },
        Op::WipeState => Action::Run {
            host: Host::Server,
            command: String::from_str(
                "distributary/target/release/zk-util --clean --deployment trawler",
            ),
        },
        Op::StartMysql => Action::Run {
            host: Host::Server,
            command: String::from_str("bash -c 'sudo systemctl start mysql 2>&1'"),
        },
        Op::ReadServerLoad => Action::Run {
            host: Host::Server,
            command: String::from_str("awk '{print $1\" \"$2}' /proc/loadavg"),
        },
        Op::ReadClientLoad => Action::Run {
            host: Host::Trawler,
            command: String::from_str("awk '{print $1\" \"$2}' /proc/loadavg"),
        },
        Op::StopMysql => Action::Run {
            host: Host::Server,
            command: String::from_str("bash -c 'sudo systemctl stop mysql 2>&1'"),
        },
        Op::UnmountRamdisk => Action::Run {
            host: Host::Server,
            command: String::from_str("sudo umount /mnt"),
        },
        Op::StopSouplet => Action::Run {
            host: Host::Server,
            command: String::from_str("bash -c 'pkill -f souplet 2>&1'"),
        },
        Op::StopShim => Action::Run {
            host: Host::Trawler,
            command: String::from_str("bash -c 'pkill -f distributary-mysql 2>&1'"),
        },
        Op::StartSouplet => Action::Run {
            host: Host::Server,
            command: command::souplet_command(job.server_ip.as_str(), &job.memlimit),
        },
        Op::StartShim => Action::Run {
            host: Host::Trawler,
            command: command::shim_command(job.server_ip.as_str()),
        },
        Op::Prime => Action::Run {
            host: Host::Trawler,
            command: command::client_command(
                backend,
                job.server_ip.as_str(),
                command::prime_options(job.memscale).as_str(),
            ),
        },
        Op::RunUniform => Action::Run {
            host: Host::Trawler,
            command: command::client_command(
                backend,
                job.server_ip.as_str(),
                command::uniform_options(job.memscale).as_str(),
            ),
        },
        Op::Warm => Action::Run {
            host: Host::Trawler,
            command: command::client_command(
                backend,
                job.server_ip.as_str(),
                command::warm_options(job.memscale).as_str(),
            ),
        },
        Op::AwaitExpiry => Action::Pause { seconds: 10 },
        Op::AwaitStart => Action::Pause { seconds: 5 },
        Op::AwaitStop => Action::Pause { seconds: 2 },
        Op::Announced { phase } => Action::Clock { phase },
        Op::Measure => Action::Save {
            host: Host::Trawler,
            command: command::client_command(
                backend,
                job.server_ip.as_str(),
                command::measure_options(backend, job.memscale, scale, &job.memlimit).as_str(),
            ),
            file: command::log_file(backend, scale),
        },
        Op::FetchHistogram => Action::Save {
            host: Host::Trawler,
            command: command::histogram_command(backend, job.memscale, scale, &job.memlimit),
            file: command::histogram_copy(backend, scale),
        },
        Op::FetchStatistics => Action::Save {
            host: Host::Trawler,
            command: command::statistics_command(job.server_ip.as_str()),
            file: command::statistics_file(backend, job.memscale, scale, &job.memlimit),
        },
        Op::RecordLoad => Action::Record {
            entry: command::load_entry(backend, scale, server_load, client_load),
        },
        Op::JudgeLoad => Action::JudgeLoad {
            server: text::first_word(server_load),
            client: text::first_word(client_load),
        },
        Op::JudgeRates => Action::JudgeRates { log: command::log_file(backend, scale) },
    }
}

/// The words in front of what a step prints, where that is shown.
pub open spec fn heading_text(op: Op) -> Option<Seq<char>> {
    match op {
        Op::KillSouplet => Some(" -> force stopped soup...\n"@),
        Op::KillShim => Some(" -> force stopped shim...\n"@),
        Op::WipeState => Some(" -> wiped soup state...\n"@),
        Op::StartMysql => Some(" -> started mysql...\n"@),
        Op::StopMysql => Some(" -> stopped mysql...\n"@),
        Op::StopSouplet => Some(" -> stopped soup...\n"@),
        Op::StopShim => Some(" -> stopped shim...\n"@),
        Op::Prime => Some(" -> priming finished...\n"@),
        Op::RunUniform => Some(" -> uniform finished...\n"@),
        Op::Warm => Some(" -> warming finished...\n"@),
        _ => None,
    }
}

/// The words in front of what a step prints, where that is shown.
pub fn heading(op: Op) -> (words: Option<&'static str>)
    ensures
        match words {
            Some(words) => heading_text(op) == Some(words@),
            None => heading_text(op) is None,
        },
{
    match op {
        Op::KillSouplet => Some(" -> force stopped soup...\n"),
        Op::KillShim => Some(" -> force stopped shim...\n"),
        Op::WipeState => Some(" -> wiped soup state...\n"),
        Op::StartMysql => Some(" -> started mysql...\n"),
        Op::StopMysql => Some(" -> stopped mysql...\n"),
        Op::StopSouplet => Some(" -> stopped soup...\n"),
        Op::StopShim => Some(" -> stopped shim...\n"),
        Op::Prime => Some(" -> priming finished...\n"),
        Op::RunUniform => Some(" -> uniform finished...\n"),
        Op::Warm => Some(" -> warming finished...\n"),
        _ => None,
    }
}

/// The step `op` is a command on one of the machines whose output is told.
pub open spec fn is_command(op: Op) -> bool {
    match op {
        Op::MountRamdisk
        | Op::CopyDatabase
        | Op::OwnDatabase
        | Op::KillSouplet
        | Op::KillShim
        | Op::WipeState
        | Op::StartMysql
        | Op::ReadServerLoad
        | Op::ReadClientLoad
        | Op::StopMysql
        | Op::UnmountRamdisk
        | Op::StopSouplet
        | Op::StopShim
        | Op::StartSouplet
        | Op::StartShim
        | Op::Prime
        | Op::RunUniform
        | Op::Warm => true,
        _ => false,
    }
}

/// `reply` can be the reply to the step `op`. Waiting, printing, reading the clock and judging the
/// load averages cannot fail.
pub open spec fn answers(op: Op, reply: ReplyView) -> bool {
    match reply {
        ReplyView::Done => match op {
            Op::Announce
            | Op::AwaitExpiry
            | Op::AwaitStart
            | Op::AwaitStop
            | Op::Measure
            | Op::FetchHistogram
            | Op::FetchStatistics
            | Op::RecordLoad => true,
            _ => false,
        },
        ReplyView::Output { text } => is_command(op),
        ReplyView::Time { hour, minute, second } => op is Announced && clock::is_time(
            hour,
            minute,
            second,
        ),
        ReplyView::Overload { overloaded } => op == Op::JudgeLoad,
        ReplyView::Rates { behind } => op == Op::JudgeRates,
        ReplyView::NoRates => op == Op::JudgeRates,
        ReplyView::Failed { reason } => is_command(op) || match op {
            Op::Measure
            | Op::FetchHistogram
            | Op::FetchStatistics
            | Op::RecordLoad
            | Op::JudgeRates => true,
            _ => false,
        },
    }
}

/// Tells whether the step `op` is a command whose output is told.
fn runs_command(op: Op) -> (yes: bool)
    ensures
        yes == is_command(op),
{
    match op {
        Op::MountRamdisk
        | Op::CopyDatabase
        | Op::OwnDatabase
        | Op::KillSouplet
        | Op::KillShim
        | Op::WipeState
        | Op::StartMysql
        | Op::ReadServerLoad
        | Op::ReadClientLoad
        | Op::StopMysql
        | Op::UnmountRamdisk
        | Op::StopSouplet
        | Op::StopShim
        | Op::StartSouplet
        | Op::StartShim
        | Op::Prime
        | Op::RunUniform
        | Op::Warm => true,
        _ => false,
    }
}

/// Tells whether `reply` can be the reply to the step `op`.
pub fn is_answer(op: Op, reply: &Reply) -> (yes: bool)
    ensures
        yes == answers(op, reply@),
{
    match reply {
        Reply::Done => match op {
            Op::Announce
            | Op::AwaitExpiry
            | Op::AwaitStart
            | Op::AwaitStop
            | Op::Measure
            | Op::FetchHistogram
            | Op::FetchStatistics
            | Op::RecordLoad => true,
            _ => false,
        },
        Reply::Output { text: _ } => runs_command(op),
        Reply::Time { hour, minute, second } => match op {
            Op::Announced { phase: _ } => *hour < 24 && *minute < 60 && *second < 60,
            _ => false,
        },
        Reply::Overload { overloaded: _ } => op == Op::JudgeLoad,
        Reply::Rates { behind: _ } => op == Op::JudgeRates,
        Reply::NoRates => op == Op::JudgeRates,
        Reply::Failed { reason: _ } => runs_command(op) || match op {
            Op::Measure
            | Op::FetchHistogram
            | Op::FetchStatistics
            | Op::RecordLoad
            | Op::JudgeRates => true,
            _ => false,
        },
    }
}

/// What is printed when `reply` comes back for the step `op`: the output of a command that has a
/// heading, unless it is blank; the time of a phase; and a warning where a judgement is bad.
pub open spec fn note_text(op: Op, reply: ReplyView) -> Option<Seq<char>> {
    match reply {
        ReplyView::Output { text } => match heading_text(op) {
            Some(words) => {
                let shown = text::without_trailing_space(text);
                if shown.len() > 0 {
                    Some(words + shown)
                } else {
                    None
                }
            },
            None => None,
        },
        ReplyView::Time { hour, minute, second } => match op {
            Op::Announced { phase } => Some(clock::phase_note_text(phase, hour, minute, second)),
            _ => None,
        },
        ReplyView::Overload { overloaded } => if overloaded {
            Some(" -> backend is probably not keeping up"@)
        } else {
            None
        },
        ReplyView::Rates { behind } => if behind {
            Some(" -> backend is really not keeping up"@)
        } else {
            None
        },
        ReplyView::Done => None,
        ReplyView::NoRates => None,
        ReplyView::Failed { reason } => None,
    }
}

/// What is printed when `reply` comes back for the step `op`.
pub fn note_for(op: Op, reply: &Reply) -> (note: Option<String>)
    requires
        answers(op, reply@),
    ensures
        command::text_of(note) == note_text(op, reply@),
{
    match reply {
        Reply::Output { text } => match heading(op) {
            Some(words) => {
                let shown: &str = text::trim_end(text.as_str());
                if shown.is_empty() {
                    None
                } else {
                    let mut note: String = String::from_str(words);
                    note.append(shown);
                    Some(note)
                }
            },
            None => None,
        },
        Reply::Time { hour, minute, second } => match op {
            Op::Announced { phase } => Some(clock::phase_note(phase, *hour, *minute, *second)),
            _ => None,
        },
        Reply::Overload { overloaded } => if *overloaded {
            Some(String::from_str(" -> backend is probably not keeping up"))
        } else {
            None
        },
        Reply::Rates { behind } => if *behind {
            Some(String::from_str(" -> backend is really not keeping up"))
        } else {
            None
        },
        Reply::Done => None,
        Reply::NoRates => None,
        Reply::Failed { reason: _ } => None,
    }
}

/// What a campaign is run with is taken in whole.
pub proof fn jobs_are_seen_whole(job: Job)
    ensures
        job@.server_ip == job.server_ip@,
        job@.memscale == job.memscale,
        job@.memlimit == command::text_of(job.memlimit),
        job@.scales == job.scales@,
{
}

} // verus!
