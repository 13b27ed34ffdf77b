//! What the orchestrator asks for, and what it is told in return.
use crate::command;
use vstd::prelude::*;
use vstd::string::*;

verus! {

/// One of the two machines.
#[derive(Clone, Copy, Debug, PartialEq, Eq, Structural)]
pub enum Host {
    /// The machine that serves the queries.
    Server,
    /// The machine that runs the benchmark client.
    Trawler,
}

impl Host {
    /// The name under which the machine is launched.
    pub open spec fn name_text(self) -> Seq<char> {
        match self {
            Host::Server => "server"@,
            Host::Trawler => "trawler"@,
        }
    }

    /// The name under which the machine is launched.
    pub fn name(&self) -> (name: &'static str)
        ensures
            name@ == self.name_text(),
    {
        match self {
            Host::Server => "server",
            Host::Trawler => "trawler",
        }
    }
}

/// A moment of a trial that is announced with the time of day.
#[derive(Clone, Copy, Debug, PartialEq, Eq, Structural)]
pub enum Phase {
    Priming,
    Uniform,
    Warming,
    Started,
    Finished,
}

impl Phase {
    /// The words that announce the phase.
    pub open spec fn words_text(self) -> Seq<char> {
        match self {
            Phase::Priming => "priming"@,
            Phase::Uniform => "running uniform"@,
            Phase::Warming => "warming"@,
            Phase::Started => "started"@,
            Phase::Finished => "finished"@,
        }
    }

    /// The words that announce the phase.
    pub fn words(&self) -> (words: &'static str)
        ensures
            words@ == self.words_text(),
    {
        match self {
            Phase::Priming => "priming",
            Phase::Uniform => "running uniform",
            Phase::Warming => "warming",
            Phase::Started => "started",
            Phase::Finished => "finished",
        }
    }
}

/// What is to be done next.
#[derive(Debug)]
pub enum Action {
    /// Print `text`, on a line of its own.
    Say { text: String },
    /// Tell the local time of day, for the announcement of `phase`.
    Clock { phase: Phase },
    /// Run `command` on `host` and tell what it prints.
    Run { host: Host, command: String },
    /// Create the local `file`, run `command` on `host`, and write what it prints to the file.
    Save { host: Host, command: String, file: String },
    /// Wait.
    Pause { seconds: u64 },
    /// Append `entry` to the load log.
    Record { entry: String },
    /// Read the two load averages, each 0 where there is none, print them, and tell whether the
    /// server is overloaded.
    JudgeLoad { server: Option<String>, client: Option<String> },
    /// Read the rates in the local file `log`, and tell whether the backend fell behind, or that
    /// the file does not give both rates.
    JudgeRates { log: String },
    /// Stop: all is done.
    Finish,
    /// Give up: the scale at the place `index` is no number.
    BadScale { index: usize },
    /// Give up, with the failure that was told.
    Abort,
}

/// What `Action` stands for.
pub enum ActionView {
    Say { text: Seq<char> },
    Clock { phase: Phase },
    Run { host: Host, command: Seq<char> },
    Save { host: Host, command: Seq<char>, file: Seq<char> },
    Pause { seconds: u64 },
    Record { entry: Seq<char> },
    JudgeLoad { server: Option<Seq<char>>, client: Option<Seq<char>> },
    JudgeRates { log: Seq<char> },
    Finish,
    BadScale { index: usize },
    Abort,
}

impl View for Action {
    type V = ActionView;

    open spec fn view(&self) -> ActionView {
        match *self {
            Action::Say { text } => ActionView::Say { text: text@ },
            Action::Clock { phase } => ActionView::Clock { phase },
            Action::Run { host, command } => ActionView::Run { host, command: command@ },
            Action::Save { host, command, file } => ActionView::Save {
                host,
                command: command@,
                file: file@,
            },
            Action::Pause { seconds } => ActionView::Pause { seconds },
            Action::Record { entry } => ActionView::Record { entry: entry@ },
            Action::JudgeLoad { server, client } => ActionView::JudgeLoad {
                server: command::text_of(server),
                client: command::text_of(client),
            },
            Action::JudgeRates { log } => ActionView::JudgeRates { log: log@ },
            Action::Finish => ActionView::Finish,
            Action::BadScale { index } => ActionView::BadScale { index },
            Action::Abort => ActionView::Abort,
        }
    }
}

/// How an action went.
#[derive(Debug)]
pub enum Reply {
    /// It is done.
    Done,
    /// The command ran, and this is what it printed.
    Output { text: String },
    /// The local time of day.
    Time { hour: u32, minute: u32, second: u32 },
    /// Whether the server is overloaded.
    Overload { overloaded: bool },
    /// Whether the backend fell behind the load that was asked of it.
    Rates { behind: bool },
    /// The log does not give both rates.
    NoRates,
    /// It failed.
    Failed { reason: String },
}

/// What `Reply` stands for.
pub enum ReplyView {
    Done,
    Output { text: Seq<char> },
    Time { hour: u32, minute: u32, second: u32 },
    Overload { overloaded: bool },
    Rates { behind: bool },
    NoRates,
    Failed { reason: Seq<char> },
}

impl View for Reply {
    type V = ReplyView;

    open spec fn view(&self) -> ReplyView {
        match *self {
            Reply::Done => ReplyView::Done,
            Reply::Output { text } => ReplyView::Output { text: text@ },
            Reply::Time { hour, minute, second } => ReplyView::Time { hour, minute, second },
            Reply::Overload { overloaded } => ReplyView::Overload { overloaded },
            Reply::Rates { behind } => ReplyView::Rates { behind },
            Reply::NoRates => ReplyView::NoRates,
            Reply::Failed { reason } => ReplyView::Failed { reason: reason@ },
        }
    }
}

/// `reply` fits `action`. Saying, waiting, telling the time and judging the load averages cannot
/// fail; everything else can. A time is one of the day's. Nothing is told once all is over.
pub open spec fn fits(action: ActionView, reply: ReplyView) -> bool {
    match action {
        ActionView::Say { text } => reply is Done,
        ActionView::Pause { seconds } => reply is Done,
        ActionView::Clock { phase } => match reply {
            ReplyView::Time { hour, minute, second } => hour <= 23 && minute <= 59 && second <= 59,
            _ => false,
        },
        ActionView::Run { host, command } => reply is Output || reply is Failed,
        ActionView::Save { host, command, file } => reply is Done || reply is Failed,
        ActionView::Record { entry } => reply is Done || reply is Failed,
        ActionView::JudgeLoad { server, client } => reply is Overload,
        ActionView::JudgeRates { log } => reply is Rates || reply is NoRates || reply is Failed,
        ActionView::Finish | ActionView::BadScale { .. } | ActionView::Abort => false,
    }
}

/// What is asked for is told whole.
pub proof fn actions_are_seen_whole(action: Action)
    ensures
        action matches Action::Say { text } ==> action@ == (ActionView::Say { text: text@ }),
        action matches Action::Clock { phase } ==> action@ == (ActionView::Clock { phase }),
        action matches Action::Run { host, command } ==> action@ == (ActionView::Run {
            host,
            command: command@,
        }),
        action matches Action::Save { host, command, file } ==> action@ == (ActionView::Save {
            host,
            command: command@,
            file: file@,
        }),
        action matches Action::Pause { seconds } ==> action@ == (ActionView::Pause { seconds }),
        action matches Action::Record { entry } ==> action@ == (ActionView::Record {
            entry: entry@,
        }),
        action matches Action::JudgeLoad { server, client } ==> action@ == (
        ActionView::JudgeLoad {
            server: command::text_of(server),
            client: command::text_of(client),
        }),
        action matches Action::JudgeRates { log } ==> action@ == (ActionView::JudgeRates {
            log: log@,
        }),
        action is Finish ==> action@ is Finish,
        action matches Action::BadScale { index } ==> action@ == (ActionView::BadScale { index }),
        action is Abort ==> action@ is Abort,
{
}

/// What is told in return is taken in whole.
pub proof fn replies_are_seen_whole(reply: Reply)
    ensures
        reply is Done ==> reply@ is Done,
        reply matches Reply::Output { text } ==> reply@ == (ReplyView::Output { text: text@ }),
        reply matches Reply::Time { hour, minute, second } ==> reply@ == (ReplyView::Time {
            hour,
            minute,
            second,
        }),
        reply matches Reply::Overload { overloaded } ==> reply@ == (ReplyView::Overload {
            overloaded,
        }),
        reply matches Reply::Rates { behind } ==> reply@ == (ReplyView::Rates { behind }),
        reply is NoRates ==> reply@ is NoRates,
        reply matches Reply::Failed { reason } ==> reply@ == (ReplyView::Failed {
            reason: reason@,
        }),
{
}

} // verus!
