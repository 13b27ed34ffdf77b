use trawler_mysql::exchange::{Action, Host, Reply};
use trawler_mysql::setup::{
    self, git_and_cargo, server_machine, trawler_machine, MachineSet, Setup, SetupStep,
};

fn steps(dir: &str, bin: &str, branch: Option<&str>) -> Vec<SetupStep> {
    let mut steps = Vec::new();
    git_and_cargo(&mut steps, dir, bin, branch);
    steps
}

fn shown(steps: &[SetupStep]) -> Vec<String> {
    steps
        .iter()
        .map(|s| match s {
            SetupStep::Say { text } => format!("say {}", text),
            SetupStep::Fetch { command } => format!("fetch {}", command),
            SetupStep::Build { command } => format!("build {}", command),
        })
        .collect()
}

fn output(text: &str) -> Reply {
    Reply::Output {
        text: text.to_string(),
    }
}

#[test]
fn a_checkout_is_fetched_and_built() {
    assert_eq!(
        shown(&steps("benchmarks-soup/lobsters/mysql", "trawler-mysql", Some("evict"))),
        vec![
            "say  -> git fetch && reset",
            "fetch bash -c 'git -C benchmarks-soup/lobsters/mysql fetch && git -C \
             benchmarks-soup/lobsters/mysql reset --hard origin/evict 2>&1'",
            "say  -> rebuild",
            "build bash -c 'cd benchmarks-soup/lobsters/mysql && cargo b --release --bin \
             trawler-mysql 2>&1'",
        ]
    );
}

#[test]
fn master_is_the_usual_branch() {
    let all = shown(&steps("shim", "distributary-mysql", None));
    assert!(all[1].contains("reset --hard origin/master 2>&1"));
}

#[test]
fn distributary_is_taken_as_it_stands() {
    assert_eq!(
        shown(&steps("distributary", "souplet", None)),
        vec![
            "say  -> rebuild",
            "build bash -c 'cd distributary && cargo b --release --bin souplet 2>&1'",
        ]
    );
    assert_eq!(steps("distributary/consensus", "zk-util", None).len(), 4);
}

#[test]
fn steps_are_appended() {
    let mut all = steps("distributary", "souplet", None);
    git_and_cargo(&mut all, "distributary", "other", None);
    assert_eq!(all.len(), 4);
    assert!(shown(&all)[1].contains("souplet"));
    assert!(shown(&all)[3].contains("other"));
}

#[test]
fn there_are_two_machines() {
    let t = trawler_machine();
    assert_eq!(t.host, Host::Trawler);
    assert_eq!(t.instance, "m5.12xlarge");
    let projects: Vec<_> = t
        .projects
        .iter()
        .map(|p| (p.title, p.dir, p.bin, p.branch))
        .collect();
    assert_eq!(
        projects,
        vec![
            ("==> setting up trawler", "benchmarks/lobsters/mysql", "trawler-mysql", None),
            (
                "==> setting up trawler w/ soup hacks",
                "benchmarks-soup/lobsters/mysql",
                "trawler-mysql",
                Some("hacks-for-soup-evict")
            ),
            (
                "==> setting up trawler w/ soupy",
                "benchmarks-soupy/lobsters/mysql",
                "trawler-mysql",
                Some("soupy-evict")
            ),
            ("==> setting up shim", "shim", "distributary-mysql", None),
        ]
    );
    let s = server_machine();
    assert_eq!(s.host, Host::Server);
    assert_eq!(s.instance, "c5.4xlarge");
    let projects: Vec<_> = s
        .projects
        .iter()
        .map(|p| (p.title, p.dir, p.bin, p.branch))
        .collect();
    assert_eq!(
        projects,
        vec![
            ("==> setting up souplet", "distributary", "souplet", None),
            ("==> setting up zk-util", "distributary/consensus", "zk-util", None),
        ]
    );
    assert_eq!(setup::AMI, "ami-7342f90c");
    assert_eq!(setup::USER, "ubuntu");
    assert_eq!(setup::MAX_HOURS, 5);
    assert_eq!(setup::WAIT_SECONDS, 60);
}

/// Runs a setup in which each command prints what `answer` says.
fn drive(machine: &MachineSet, answer: fn(&str) -> Reply) -> (Vec<String>, bool) {
    let mut setup = Setup::new(machine);
    let mut printed = Vec::new();
    loop {
        let reply = match setup.action() {
            Action::Say { text } => {
                printed.push(text);
                Reply::Done
            }
            Action::Run { host, command } => {
                assert_eq!(host, machine.host);
                answer(&command)
            }
            Action::Finish => return (printed, true),
            Action::Abort => return (printed, false),
            other => panic!("{:?}", other),
        };
        assert!(setup.accepts(&reply));
        if let Some(note) = setup.advance(&reply) {
            printed.push(note);
        }
    }
}

#[test]
fn a_quiet_setup_prints_its_messages_only() {
    let (printed, finished) = drive(&server_machine(), |_| output("\n"));
    assert!(finished);
    assert_eq!(
        printed,
        vec![
            "==> setting up souplet",
            " -> rebuild",
            "==> setting up zk-util",
            " -> git fetch && reset",
            " -> rebuild",
        ]
    );
}

#[test]
fn what_commands_print_is_shown() {
    let (printed, finished) = drive(&server_machine(), |command| {
        if command.contains("git") {
            output("HEAD is now at 1234567 \n")
        } else {
            output("   Compiling souplet\n    Finished release\n\n")
        }
    });
    assert!(finished);
    assert_eq!(
        printed,
        vec![
            "==> setting up souplet",
            " -> rebuild",
            "   Compiling souplet\n    Finished release",
            "==> setting up zk-util",
            " -> git fetch && reset",
            "HEAD is now at 1234567",
            " -> rebuild",
            "   Compiling souplet\n    Finished release",
        ]
    );
}

#[test]
fn a_checkout_that_is_up_to_date_is_not_mentioned() {
    let (printed, _) = drive(&server_machine(), |command| {
        if command.contains("git") {
            output("From origin\nAlready up-to-date.\n")
        } else {
            output("Already up-to-date.")
        }
    });
    assert_eq!(printed.iter().filter(|p| p.contains("up-to-date")).count(), 2);
    assert!(!printed.iter().any(|p| p.contains("From origin")));
}

#[test]
fn a_failed_build_is_shown_and_ends_the_setup() {
    let (printed, finished) = drive(&trawler_machine(), |command| {
        if command.contains("cargo") {
            Reply::Failed {
                reason: "Disconnected".to_string(),
            }
        } else {
            output("")
        }
    });
    assert!(!finished);
    assert_eq!(
        printed,
        vec![
            "==> setting up trawler",
            " -> git fetch && reset",
            " -> rebuild",
            " -> rebuild failed!\nDisconnected",
        ]
    );
}

#[test]
fn a_failed_fetch_ends_the_setup_silently() {
    let (printed, finished) = drive(&trawler_machine(), |_| Reply::Failed {
        reason: "Disconnected".to_string(),
    });
    assert!(!finished);
    assert_eq!(printed, vec!["==> setting up trawler", " -> git fetch && reset"]);
}

#[test]
fn a_setup_takes_only_replies_that_fit() {
    let mut setup = Setup::new(&server_machine());
    assert!(setup.accepts(&Reply::Done));
    assert!(!setup.accepts(&output("")));
    assert!(!setup.accepts(&Reply::Failed { reason: String::new() }));
    assert_eq!(setup.advance(&Reply::Done), None);
    assert_eq!(setup.advance(&Reply::Done), None);
    assert!(!setup.accepts(&Reply::Done));
    assert!(setup.accepts(&output("")));
    setup.advance(&Reply::Failed { reason: String::new() });
    assert!(!setup.accepts(&Reply::Done));
    assert!(!setup.accepts(&output("")));
    assert!(matches!(setup.action(), Action::Abort));
}

#[test]
fn a_machine_without_projects_is_ready() {
    let machine = MachineSet {
        host: Host::Server,
        instance: "none",
        projects: Vec::new(),
    };
    assert!(matches!(Setup::new(&machine).action(), Action::Finish));
}
