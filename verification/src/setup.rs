//! Setting the machines up: which machines there are, and how each gets its programs.
use crate::backend::Backend;
use crate::command;
use crate::exchange::{Action, ActionView, Host, Reply, ReplyView};
use crate::text;
use vstd::prelude::*;
use vstd::string::*;

verus! {

/// The machine image that every machine is started from.
pub const AMI: &'static str = "ami-7342f90c";

/// The user under whom commands are run.
pub const USER: &'static str = "ubuntu";

/// The hours after which the machines are taken away.
pub const MAX_HOURS: usize = 5;

/// The seconds within which the machines have to be there.
pub const WAIT_SECONDS: u64 = 60;

/// A program that is built on a machine.
#[derive(Debug)]
pub struct Project {
    /// The message that opens the build.
    pub title: &'static str,
    /// The checkout.
    pub dir: &'static str,
    /// The program's name.
    pub bin: &'static str,
    /// The branch that is built, where it is not the usual one.
    pub branch: Option<&'static str>,
}

/// What `Project` stands for.
pub struct ProjectView {
    pub title: Seq<char>,
    pub dir: Seq<char>,
    pub bin: Seq<char>,
    pub branch: Option<Seq<char>>,
}

/// The characters of an optional text.
pub open spec fn slice_text(s: Option<&str>) -> Option<Seq<char>> {
    match s {
        Some(s) => Some(s@),
        None => None,
    }
}

impl View for Project {
    type V = ProjectView;

    open spec fn view(&self) -> ProjectView {
        ProjectView {
            title: self.title@,
            dir: self.dir@,
            bin: self.bin@,
            branch: slice_text(self.branch),
        }
    }
}

/// A machine, and what is built on it.
#[derive(Debug)]
pub struct MachineSet {
    pub host: Host,
    /// The kind of machine, by the name that the provider gives it.
    pub instance: &'static str,
    pub projects: Vec<Project>,
}

/// What `MachineSet` stands for.
pub struct MachineSetView {
    pub host: Host,
    pub instance: Seq<char>,
    pub projects: Seq<ProjectView>,
}

/// What a list of projects stands for.
pub open spec fn project_views(projects: Seq<Project>) -> Seq<ProjectView> {
    projects.map_values(|p: Project| p@)
}

impl View for MachineSet {
    type V = MachineSetView;

    open spec fn view(&self) -> MachineSetView {
        MachineSetView {
            host: self.host,
            instance: self.instance@,
            projects: project_views(self.projects@),
        }
    }
}

/// What is built on the client: one benchmark client for each backend, and the shim.
pub open spec fn trawler_projects() -> Seq<ProjectView> {
    seq![
        ProjectView {
            title: "==> setting up trawler"@,
            dir: "benchmarks/lobsters/mysql"@,
            bin: "trawler-mysql"@,
            branch: None,
        },
        ProjectView {
            title: "==> setting up trawler w/ soup hacks"@,
            dir: "benchmarks-soup/lobsters/mysql"@,
            bin: "trawler-mysql"@,
            branch: Some("hacks-for-soup-evict"@),
        },
        ProjectView {
            title: "==> setting up trawler w/ soupy"@,
            dir: "benchmarks-soupy/lobsters/mysql"@,
            bin: "trawler-mysql"@,
            branch: Some("soupy-evict"@),
        },
        ProjectView {
            title: "==> setting up shim"@,
            dir: "shim"@,
            bin: "distributary-mysql"@,
            branch: None,
        },
    ]
}

/// What is built on the server: Soup's worker, and the tool that wipes its state.
pub open spec fn server_projects() -> Seq<ProjectView> {
    seq![
        ProjectView {
            title: "==> setting up souplet"@,
            dir: "distributary"@,
            bin: "souplet"@,
            branch: None,
        },
        ProjectView {
            title: "==> setting up zk-util"@,
            dir: "distributary/consensus"@,
            bin: "zk-util"@,
            branch: None,
        },
    ]
}

/// The machine that runs the benchmark client.
pub fn trawler_machine() -> (machine: MachineSet)
    ensures
        machine@ == (MachineSetView {
            host: Host::Trawler,
            instance: "m5.12xlarge"@,
            projects: trawler_projects(),
        }),
{
    let projects: Vec<Project> = vec![
        Project {
            title: "==> setting up trawler",
            dir: "benchmarks/lobsters/mysql",
            bin: "trawler-mysql",
            branch: None,
        },
        Project {
            title: "==> setting up trawler w/ soup hacks",
            dir: "benchmarks-soup/lobsters/mysql",
            bin: "trawler-mysql",
            branch: Some("hacks-for-soup-evict"),
        },
        Project {
            title: "==> setting up trawler w/ soupy",
            dir: "benchmarks-soupy/lobsters/mysql",
            bin: "trawler-mysql",
            branch: Some("soupy-evict"),
        },
        Project {
            title: "==> setting up shim",
            dir: "shim",
            bin: "distributary-mysql",
            branch: None,
        },
    ];
    assert(project_views(projects@) == trawler_projects());
    MachineSet { host: Host::Trawler, instance: "m5.12xlarge", projects }
}

/// The machine that serves the queries.
pub fn server_machine() -> (machine: MachineSet)
    ensures
        machine@ == (MachineSetView {
            host: Host::Server,
            instance: "c5.4xlarge"@,
            projects: server_projects(),
        }),
{
    let projects: Vec<Project> = vec![
        Project {
            title: "==> setting up souplet",
            dir: "distributary",
            bin: "souplet",
            branch: None,
        },
        Project {
            title: "==> setting up zk-util",
            dir: "distributary/consensus",
            bin: "zk-util",
            branch: None,
        },
    ];
    assert(project_views(projects@) == server_projects());
    MachineSet { host: Host::Server, instance: "c5.4xlarge", projects }
}

/// A step of a machine's setup.
#[derive(Debug)]
pub enum SetupStep {
    /// Prints a message.
    Say { text: String },
    /// Brings a checkout up to date.
    Fetch { command: String },
    /// Builds a program.
    Build { command: String },
}

/// What `SetupStep` stands for.
pub enum SetupStepView {
    Say { text: Seq<char> },
    Fetch { command: Seq<char> },
    Build { command: Seq<char> },
}

impl View for SetupStep {
    type V = SetupStepView;

    open spec fn view(&self) -> SetupStepView {
        match *self {
            SetupStep::Say { text } => SetupStepView::Say { text: text@ },
            SetupStep::Fetch { command } => SetupStepView::Fetch { command: command@ },
            SetupStep::Build { command } => SetupStepView::Build { command: command@ },
        }
    }
}

/// What a list of steps stands for.
pub open spec fn step_views(steps: Seq<SetupStep>) -> Seq<SetupStepView> {
    steps.map_values(|s: SetupStep| s@)
}

/// How the program `bin` in the checkout `dir` is brought up to date. `distributary` is taken as
/// it stands; every other checkout is first set to the tip of its branch, which is `master`
/// unless another is given.
pub open spec fn checkout_steps(
    dir: Seq<char>,
    bin: Seq<char>,
    branch: Option<Seq<char>>,
) -> Seq<SetupStepView> {
    let tip = match branch {
        Some(name) => name,
        None => "master"@,
    };
    (if dir == "distributary"@ {
        seq![]
    } else {
        seq![
            SetupStepView::Say { text: " -> git fetch && reset"@ },
            SetupStepView::Fetch { command: command::fetch_line(dir, tip) },
        ]
    }) + seq![
        SetupStepView::Say { text: " -> rebuild"@ },
        SetupStepView::Build { command: command::build_line(dir, bin) },
    ]
}

/// How all `projects` are brought up to date, one after the other.
pub open spec fn setup_steps(projects: Seq<ProjectView>) -> Seq<SetupStepView>
    decreases projects.len(),
{
    if projects.len() == 0 {
        seq![]
    } else {
        let project = projects.last();
        setup_steps(projects.drop_last()) + seq![SetupStepView::Say { text: project.title }]
            + checkout_steps(project.dir, project.bin, project.branch)
    }
}

/// Appends the steps that bring the program `bin` in the checkout `dir` up to date.
pub fn git_and_cargo(steps: &mut Vec<SetupStep>, dir: &str, bin: &str, branch: Option<&str>)
    ensures
        step_views(final(steps)@) == step_views(old(steps)@) + checkout_steps(
            dir@,
            bin@,
            slice_text(branch),
        ),
{
    let ghost before = step_views(steps@);
    let tip: &str = match branch {
        Some(name) => name,
        None => "master",
    };
    if !text::same(dir, "distributary") {
        steps.push(SetupStep::Say { text: String::from_str(" -> git fetch && reset") });
        steps.push(SetupStep::Fetch { command: command::fetch_command(dir, tip) });
    }
    steps.push(SetupStep::Say { text: String::from_str(" -> rebuild") });
    steps.push(SetupStep::Build { command: command::build_command(dir, bin) });
    assert(step_views(steps@) == before + checkout_steps(dir@, bin@, slice_text(branch)));
}

/// The state of a machine's setup.
pub struct SetupView {
    pub host: Host,
    pub steps: Seq<SetupStepView>,
    /// How many steps are done.
    pub done: int,
    pub failed: bool,
}

impl SetupView {
    /// The number of steps that are done is one of those that can be.
    pub open spec fn well_formed(self) -> bool {
        0 <= self.done <= self.steps.len()
    }

    /// A setup that was not begun.
    pub open spec fn start(machine: MachineSetView) -> SetupView {
        SetupView {
            host: machine.host,
            steps: setup_steps(machine.projects),
            done: 0,
            failed: false,
        }
    }

    /// What is to be done next.
    pub open spec fn action(self) -> ActionView {
        if self.failed {
            ActionView::Abort
        } else if self.done >= self.steps.len() {
            ActionView::Finish
        } else {
            match self.steps[self.done] {
                SetupStepView::Say { text } => ActionView::Say { text },
                SetupStepView::Fetch { command } => ActionView::Run { host: self.host, command },
                SetupStepView::Build { command } => ActionView::Run { host: self.host, command },
            }
        }
    }

    /// `reply` can be the reply to what is to be done next.
    pub open spec fn accepts(self, reply: ReplyView) -> bool {
        !self.failed && self.done < self.steps.len() && match self.steps[self.done] {
            SetupStepView::Say { text } => reply is Done,
            SetupStepView::Fetch { command } => reply is Output || reply is Failed,
            SetupStepView::Build { command } => reply is Output || reply is Failed,
        }
    }

    /// What is printed when `reply` comes back: what the command printed, unless it is blank, and
    /// unless it says that there was nothing to fetch; and why a build failed.
    pub open spec fn note(self, reply: ReplyView) -> Option<Seq<char>> {
        match (self.steps[self.done], reply) {
            (SetupStepView::Fetch { command }, ReplyView::Output { text }) => {
                let shown = text::without_trailing_space(text);
                if shown.len() > 0 && !text::occurs_in("Already up-to-date."@, shown) {
                    Some(shown)
                } else {
                    None
                }
            },
            (SetupStepView::Build { command }, ReplyView::Output { text }) => {
                let shown = text::without_trailing_space(text);
                if shown.len() > 0 {
                    Some(shown)
                } else {
                    None
                }
            },
            (SetupStepView::Build { command }, ReplyView::Failed { reason }) => Some(
                " -> rebuild failed!\n"@ + reason,
            ),
            _ => None,
        }
    }

    /// The setup after `reply` has come back. A failure ends it.
    pub open spec fn next(self, reply: ReplyView) -> SetupView {
        if reply is Failed {
            SetupView { failed: true, ..self }
        } else {
            SetupView { done: self.done + 1, ..self }
        }
    }
}

/// A machine's setup. It does nothing by itself: it tells what is to be done, and is told how
/// that went.
#[derive(Debug)]
pub struct Setup {
    host: Host,
    steps: Vec<SetupStep>,
    done: usize,
    failed: bool,
}

impl View for Setup {
    type V = SetupView;

    closed spec fn view(&self) -> SetupView {
        SetupView {
            host: self.host,
            steps: step_views(self.steps@),
            done: self.done as int,
            failed: self.failed,
        }
    }
}

impl Setup {
    /// The setup of `machine`, not begun.
    pub fn new(machine: &MachineSet) -> (setup: Setup)
        ensures
            setup@ == SetupView::start(machine@),
            setup@.well_formed(),
    {
        let mut steps: Vec<SetupStep> = Vec::new();
        let ghost projects = machine@.projects;
        let mut i: usize = 0;
        assert(step_views(steps@) == setup_steps(projects.take(0)));
        while i < machine.projects.len()
            invariant
                i <= machine.projects.len(),
                projects == project_views(machine.projects@),
                step_views(steps@) == setup_steps(projects.take(i as int)),
            decreases machine.projects.len() - i,
        {
            let project: &Project = &machine.projects[i];
            let ghost before = step_views(steps@);
            steps.push(SetupStep::Say { text: String::from_str(project.title) });
            assert(step_views(steps@) == before + seq![
                SetupStepView::Say { text: project@.title },
            ]);
            git_and_cargo(&mut steps, project.dir, project.bin, project.branch);
            assert(projects.take(i + 1).drop_last() == projects.take(i as int));
            assert(projects.take(i + 1).last() == project@);
            i = i + 1;
        }
        assert(projects.take(projects.len() as int) == projects);
        Setup { host: machine.host, steps, done: 0, failed: false }
    }

    /// What is to be done next.
    pub fn action(&self) -> (action: Action)
        requires
            self@.well_formed(),
        ensures
            action@ == self@.action(),
    {
        if self.failed {
            Action::Abort
        } else if self.done >= self.steps.len() {
            Action::Finish
        } else {
            assert(self@.steps[self.done as int] == self.steps@[self.done as int]@);
            match &self.steps[self.done] {
                SetupStep::Say { text } => Action::Say { text: text.clone() },
                SetupStep::Fetch { command } => Action::Run {
                    host: self.host,
                    command: command.clone(),
                },
                SetupStep::Build { command } => Action::Run {
                    host: self.host,
                    command: command.clone(),
                },
            }
        }
    }

    /// Tells whether `reply` can be the reply to what is to be done next.
    pub fn accepts(&self, reply: &Reply) -> (yes: bool)
        requires
            self@.well_formed(),
        ensures
            yes == self@.accepts(reply@),
    {
        if self.failed || self.done >= self.steps.len() {
            return false;
        }
        assert(self@.steps[self.done as int] == self.steps@[self.done as int]@);
        match &self.steps[self.done] {
            SetupStep::Say { text: _ } => match reply {
                Reply::Done => true,
                _ => false,
            },
            _ => match reply {
                Reply::Output { text: _ } => true,
                Reply::Failed { reason: _ } => true,
                _ => false,
            },
        }
    }

    /// Takes in the reply to what was to be done. Gives what is printed on that account.
    pub fn advance(&mut self, reply: &Reply) -> (note: Option<String>)
        requires
            old(self)@.well_formed(),
            old(self)@.accepts(reply@),
        ensures
            final(self)@ == old(self)@.next(reply@),
            final(self)@.well_formed(),
            command::text_of(note) == old(self)@.note(reply@),
    {
        assert(self.done < self.steps.len());
        assert(self@.steps[self.done as int] == self.steps@[self.done as int]@);
        let note: Option<String> = match (&self.steps[self.done], reply) {
            (SetupStep::Fetch { command: _ }, Reply::Output { text }) => {
                let shown: &str = text::trim_end(text.as_str());
                if !shown.is_empty() && !text::holds(shown, "Already up-to-date.") {
                    Some(String::from_str(shown))
                } else {
                    None
                }
            },
            (SetupStep::Build { command: _ }, Reply::Output { text }) => {
                let shown: &str = text::trim_end(text.as_str());
                if !shown.is_empty() {
                    Some(String::from_str(shown))
                } else {
                    None
                }
            },
            (SetupStep::Build { command: _ }, Reply::Failed { reason }) => {
                let mut note: String = String::from_str(" -> rebuild failed!\n");
                note.append(reason.as_str());
                Some(note)
            },
            _ => None,
        };
        match reply {
            Reply::Failed { reason: _ } => {
                self.failed = true;
            },
            _ => {
                self.done = self.done + 1;
            },
        }
        note
    }
}

/// A checkout is fetched unless it is `distributary`, and in any case built at the end.
pub proof fn only_distributary_is_not_fetched(
    dir: Seq<char>,
    bin: Seq<char>,
    branch: Option<Seq<char>>,
)
    ensures
        (exists|i: int|
            0 <= i < checkout_steps(dir, bin, branch).len() && #[trigger] checkout_steps(
                dir,
                bin,
                branch,
            )[i] is Fetch) <==> dir != "distributary"@,
        checkout_steps(dir, bin, branch).last() == (SetupStepView::Build {
            command: command::build_line(dir, bin),
        }),
{
    let steps = checkout_steps(dir, bin, branch);
    if dir != "distributary"@ {
        assert(steps[1] is Fetch);
    }
}

/// Every project of a machine is built.
pub proof fn every_project_is_built(projects: Seq<ProjectView>, i: int)
    requires
        0 <= i < projects.len(),
    ensures
        setup_steps(projects).contains(
            SetupStepView::Build { command: command::build_line(projects[i].dir, projects[i].bin) },
        ),
    decreases projects.len(),
{
    let earlier = projects.drop_last();
    let last = projects.last();
    let steps = setup_steps(projects);
    let build = SetupStepView::Build {
        command: command::build_line(projects[i].dir, projects[i].bin),
    };
    if i < earlier.len() {
        every_project_is_built(earlier, i);
        let k = choose|k: int|
            0 <= k < setup_steps(earlier).len() && setup_steps(earlier)[k] == build;
        assert(steps[k] == build);
    } else {
        only_distributary_is_not_fetched(last.dir, last.bin, last.branch);
        assert(steps[steps.len() - 1] == build);
    }
}

/// The setup `start` after `replies` have come back, in order.
pub open spec fn run_setup(start: SetupView, replies: Seq<ReplyView>) -> SetupView
    decreases replies.len(),
{
    if replies.len() == 0 {
        start
    } else {
        run_setup(start, replies.drop_last()).next(replies.last())
    }
}

/// Each of `replies` can come back when it does.
pub open spec fn legal_setup(start: SetupView, replies: Seq<ReplyView>) -> bool
    decreases replies.len(),
{
    replies.len() == 0 || {
        &&& legal_setup(start, replies.drop_last())
        &&& run_setup(start, replies.drop_last()).accepts(replies.last())
    }
}

/// A setup ends after no more replies than it has steps: it is given up at the first failure, and
/// finished when all its steps are done; before that it goes on.
pub proof fn setups_end(machine: MachineSetView, replies: Seq<ReplyView>)
    requires
        legal_setup(SetupView::start(machine), replies),
    ensures
        ({
            let start = SetupView::start(machine);
            let state = run_setup(start, replies);
            &&& state.well_formed()
            &&& replies.len() <= start.steps.len()
            &&& state.steps == start.steps
            &&& state.failed <==> replies.len() > 0 && replies.last() is Failed
            &&& state.done == (if state.failed {
                replies.len() - 1
            } else {
                replies.len() as int
            })
            &&& state.action() is Abort <==> state.failed
            &&& state.action() is Finish <==> !state.failed && replies.len() == start.steps.len()
        }),
    decreases replies.len(),
{
    if replies.len() > 0 {
        setups_end(machine, replies.drop_last());
    }
}

/// The client that a trial runs is one that the setup of the client's machine has built.
pub proof fn every_client_is_built(backend: Backend)
    ensures
        exists|i: int|
            0 <= i < trawler_projects().len() && #[trigger] trawler_projects()[i].dir
                == backend.client_dir_text() + "/lobsters/mysql"@ && trawler_projects()[i].bin
                == "trawler-mysql"@,
{
    reveal_strlit("benchmarks");
    reveal_strlit("benchmarks-soup");
    reveal_strlit("benchmarks-soupy");
    reveal_strlit("/lobsters/mysql");
    reveal_strlit("benchmarks/lobsters/mysql");
    reveal_strlit("benchmarks-soup/lobsters/mysql");
    reveal_strlit("benchmarks-soupy/lobsters/mysql");
    let i = backend.turn();
    assert(trawler_projects()[i].dir == backend.client_dir_text() + "/lobsters/mysql"@);
}

/// A checkout that is not `distributary` is brought up to date in four steps: it is said so, then
/// the checkout is set to the tip of its branch; again it is said so, then the program is built.
/// `distributary` is only built. The branch is named whole, and is `master` where none is given; the
/// checkout is named whole, wherever it is named.
pub proof fn a_checkout_is_set_to_its_branch_and_built(
    dir: Seq<char>,
    bin: Seq<char>,
    branch: Option<Seq<char>>,
)
    ensures
        ({
            let steps = checkout_steps(dir, bin, branch);
            let n = steps.len() as int;
            &&& n == (if dir == "distributary"@ {
                2int
            } else {
                4
            })
            &&& forall|i: int|
                0 <= i < n ==> {
                    &&& (#[trigger] steps[i] is Fetch <==> i == n - 3)
                    &&& (steps[i] is Build <==> i == n - 1)
                    &&& (steps[i] matches SetupStepView::Say { text } ==> text == (if i == n - 2 {
                        " -> rebuild"@
                    } else {
                        " -> git fetch && reset"@
                    }))
                    &&& (steps[i] matches SetupStepView::Fetch { command } ==> {
                        &&& command == "bash -c 'git -C "@ + dir + " fetch && git -C "@ + dir
                            + " reset --hard "@ + ("origin/"@ + tip_of(branch) + " 2>&1'"@)
                        &&& ("origin/"@ + tip_of(branch) + " 2>&1'"@).is_suffix_of(command)
                    })
                    &&& (steps[i] matches SetupStepView::Build { command } ==> command
                        == "bash -c 'cd "@ + dir + " && cargo b --release --bin "@ + bin
                        + " 2>&1'"@)
                }
        }),
{
    reveal_strlit(" reset --hard origin/");
    reveal_strlit(" reset --hard ");
    reveal_strlit("origin/");
    assert(" reset --hard origin/"@ == " reset --hard "@ + "origin/"@);
    let tail = "origin/"@ + tip_of(branch) + " 2>&1'"@;
    let head = "bash -c 'git -C "@ + dir + " fetch && git -C "@ + dir + " reset --hard "@;
    assert(command::fetch_line(dir, tip_of(branch)) == head + tail);
    assert((head + tail).subrange(head.len() as int, (head + tail).len() as int) == tail);
}

/// The branch that is built: the one that is given, or else `master`.
pub open spec fn tip_of(branch: Option<Seq<char>>) -> Seq<char> {
    if branch is Some {
        branch->0
    } else {
        "master"@
    }
}

/// Different checkouts are fetched and built with different commands, and so are different branches
/// and different programs of one checkout.
pub proof fn different_checkouts_have_different_commands(
    dir: Seq<char>,
    bin: Seq<char>,
    branch: Seq<char>,
    other_bin: Seq<char>,
    other_branch: Seq<char>,
)
    requires
        dir != "distributary"@,
    ensures
        checkout_steps(dir, bin, Some(branch))[1] == checkout_steps(
            dir,
            other_bin,
            Some(other_branch),
        )[1] <==> branch == other_branch,
        checkout_steps(dir, bin, Some(branch))[3] == checkout_steps(
            dir,
            other_bin,
            Some(other_branch),
        )[3] <==> bin == other_bin,
{
    let head = "bash -c 'git -C "@ + dir + " fetch && git -C "@ + dir + " reset --hard origin/"@;
    let start = "bash -c 'cd "@ + dir + " && cargo b --release --bin "@;
    let tail = " 2>&1'"@;
    lemma_middle(head, branch, other_branch, tail);
    lemma_middle(start, bin, other_bin, tail);
}

/// Texts with the same start and the same end are the same where what stands between is.
proof fn lemma_middle(head: Seq<char>, x: Seq<char>, y: Seq<char>, tail: Seq<char>)
    ensures
        head + x + tail == head + y + tail <==> x == y,
{
    let (s, t) = (head + x + tail, head + y + tail);
    if s == t {
        assert(s.len() == t.len());
        assert(x == s.subrange(head.len() as int, head.len() + x.len() as int));
        assert(y == t.subrange(head.len() as int, head.len() + y.len() as int));
    }
}

/// A list of projects is set up one after the other, each by itself: first its title is said.
pub proof fn projects_are_set_up_one_by_one(some: Seq<ProjectView>, more: Seq<ProjectView>)
    ensures
        setup_steps(some + more) == setup_steps(some) + setup_steps(more),
        more.len() == 1 ==> setup_steps(more) == seq![
            SetupStepView::Say { text: more[0].title },
        ] + checkout_steps(more[0].dir, more[0].bin, more[0].branch),
    decreases more.len(),
{
    if more.len() == 0 {
        assert(some + more == some);
        assert(setup_steps(some) + setup_steps(more) == setup_steps(some));
    } else {
        let fewer = more.drop_last();
        projects_are_set_up_one_by_one(some, fewer);
        assert((some + more).drop_last() == some + fewer);
        assert((some + more).last() == more.last());
        let last = more.last();
        let own = seq![SetupStepView::Say { text: last.title }];
        let rest = checkout_steps(last.dir, last.bin, last.branch);
        assert(setup_steps(some) + setup_steps(fewer) + own + rest == setup_steps(some) + (
        setup_steps(fewer) + own + rest));
        if more.len() == 1 {
            assert(fewer.len() == 0);
            assert(setup_steps(fewer) + own + rest == own + rest);
        }
    }
}

/// A setup begins on its own machine, with the steps of all the machine's projects.
pub proof fn a_setup_begins_at_its_first_step(machine: MachineSetView)
    ensures
        SetupView::start(machine).host == machine.host,
        SetupView::start(machine).steps == setup_steps(machine.projects),
        SetupView::start(machine).done == 0,
        !SetupView::start(machine).failed,
{
}

/// What a setup asks for is its next step, on its own machine; the replies that it takes are those
/// that fit. Saying something cannot fail. A reply that is no failure brings it one step further, and
/// changes nothing else; a failure ends it, and changes nothing else.
pub proof fn a_setup_goes_step_by_step(state: SetupView, reply: ReplyView)
    requires
        0 <= state.done < state.steps.len(),
        !state.failed,
    ensures
        match state.steps[state.done] {
            SetupStepView::Say { text } => state.action() == (ActionView::Say { text }),
            SetupStepView::Fetch { command } => state.action() == (ActionView::Run {
                host: state.host,
                command,
            }),
            SetupStepView::Build { command } => state.action() == (ActionView::Run {
                host: state.host,
                command,
            }),
        },
        state.accepts(reply) <==> match reply {
            ReplyView::Done => state.steps[state.done] is Say,
            ReplyView::Output { text } => !(state.steps[state.done] is Say),
            ReplyView::Failed { reason } => !(state.steps[state.done] is Say),
            _ => false,
        },
        state.next(reply).host == state.host,
        state.next(reply).steps == state.steps,
        state.next(reply).failed <==> reply is Failed,
        state.next(reply).done == (if reply is Failed {
            state.done
        } else {
            state.done + 1
        }),
{
}

/// What a command printed is shown without the white space at its end, unless nothing is left. What
/// a fetch printed is not shown where it says that there was nothing to fetch. Of a failed build it
/// is shown why; a failed fetch shows nothing.
pub proof fn what_a_setup_shows(state: SetupView, text: Seq<char>, reason: Seq<char>)
    requires
        0 <= state.done < state.steps.len(),
    ensures
        state.note(ReplyView::Done) is None,
        state.steps[state.done] is Say ==> state.note(ReplyView::Output { text }) is None
            && state.note(ReplyView::Failed { reason }) is None,
        state.steps[state.done] is Build ==> {
            &&& (state.note(ReplyView::Output { text }) is None <==> forall|i: int|
                0 <= i < text.len() ==> text::is_white_space(#[trigger] text[i]))
            &&& (state.note(ReplyView::Output { text }) matches Some(shown) ==> shown
                == text::without_trailing_space(text))
            &&& state.note(ReplyView::Failed { reason }) == Some(
                " -> rebuild failed!\n"@ + reason,
            )
        },
        state.steps[state.done] is Fetch ==> {
            &&& (state.note(ReplyView::Output { text }) is None <==> (forall|i: int|
                0 <= i < text.len() ==> text::is_white_space(#[trigger] text[i]))
                || text::occurs_in("Already up-to-date."@, text::without_trailing_space(text)))
            &&& (state.note(ReplyView::Output { text }) matches Some(shown) ==> shown
                == text::without_trailing_space(text))
            &&& state.note(ReplyView::Failed { reason }) is None
        },
{
    text::trimming_takes_space_only(text);
    let shown = text::without_trailing_space(text);
    if shown.len() > 0 {
        assert(shown.last() == text[shown.len() - 1]);
    }
}

/// What a project, a machine and a step of a setup stand for is told whole.
pub proof fn setups_are_seen_whole(
    project: Project,
    machine: MachineSet,
    step: SetupStep,
    steps: Seq<SetupStep>,
    branch: Option<&str>,
)
    ensures
        project@.title == project.title@,
        project@.dir == project.dir@,
        project@.bin == project.bin@,
        project@.branch == slice_text(project.branch),
        branch matches Some(name) ==> slice_text(branch) == Some(name@),
        branch is None ==> slice_text(branch) is None,
        machine@.host == machine.host,
        machine@.instance == machine.instance@,
        machine@.projects.len() == machine.projects@.len(),
        forall|i: int|
            0 <= i < machine.projects@.len() ==> machine@.projects[i]
                == #[trigger] machine.projects@[i]@,
        step matches SetupStep::Say { text } ==> step@ == (SetupStepView::Say { text: text@ }),
        step matches SetupStep::Fetch { command } ==> step@ == (SetupStepView::Fetch {
            command: command@,
        }),
        step matches SetupStep::Build { command } ==> step@ == (SetupStepView::Build {
            command: command@,
        }),
        step_views(steps).len() == steps.len(),
        forall|i: int| 0 <= i < steps.len() ==> step_views(steps)[i] == #[trigger] steps[i]@,
{
}

} // verus!
