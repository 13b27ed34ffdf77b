use trawler_mysql::backend::Backend;
use trawler_mysql::campaign::{Campaign, Place};
use trawler_mysql::exchange::{Action, Host, Reply};
use trawler_mysql::plan::{steps_of_trial, Op};
use trawler_mysql::setup::trawler_machine;
use trawler_mysql::trial::Job;

const IP: &str = "172.31.4.2";

fn job(limit: Option<&str>, scales: &[Option<usize>]) -> Job {
    Job {
        server_ip: IP.to_string(),
        memscale: 1,
        memlimit: limit.map(|l| l.to_string()),
        scales: scales.to_vec(),
    }
}

fn output(text: &str) -> Reply {
    Reply::Output {
        text: text.to_string(),
    }
}

/// A plain reply to `action`.
fn usual(action: &Action) -> Reply {
    match action {
        Action::Run { .. } => output(""),
        Action::Clock { .. } => Reply::Time {
            hour: 1,
            minute: 2,
            second: 3,
        },
        Action::JudgeLoad { .. } => Reply::Overload { overloaded: false },
        Action::JudgeRates { .. } => Reply::Rates { behind: false },
        _ => Reply::Done,
    }
}

fn short(action: &Action) -> String {
    let host = |h: &Host| match h {
        Host::Server => "S",
        Host::Trawler => "T",
    };
    match action {
        Action::Say { text } => format!("say {}", text),
        Action::Clock { phase } => format!("clock {:?}", phase),
        Action::Run { host: h, command } => format!("{} {}", host(h), command),
        Action::Save {
            host: h,
            command,
            file,
        } => format!("{} {} > {}", host(h), command, file),
        Action::Pause { seconds } => format!("pause {}", seconds),
        Action::Record { entry } => format!("record {}", entry),
        Action::JudgeLoad { server, client } => format!("load {:?} {:?}", server, client),
        Action::JudgeRates { log } => format!("rates {}", log),
        Action::Finish => "finish".to_string(),
        Action::BadScale { index } => format!("bad scale {}", index),
        Action::Abort => "abort".to_string(),
    }
}

/// Runs a campaign to its end. Gives all actions, and all that is printed on account of replies.
fn drive(job: Job, answer: impl Fn(&Action, Place) -> Reply) -> (Vec<String>, Vec<String>) {
    let mut campaign = Campaign::new(job);
    let (mut actions, mut notes) = (Vec::new(), Vec::new());
    loop {
        let action = campaign.action();
        actions.push(short(&action));
        if matches!(action, Action::Finish | Action::BadScale { .. } | Action::Abort) {
            assert!(!campaign.accepts(&Reply::Done));
            return (actions, notes);
        }
        let reply = answer(&action, campaign.place());
        assert!(campaign.accepts(&reply));
        if let Some(note) = campaign.advance(&reply) {
            notes.push(note);
        }
    }
}

fn trials(actions: &[String]) -> Vec<String> {
    actions
        .iter()
        .filter_map(|a| a.strip_prefix("say ==> benchmark "))
        .map(|a| a.to_string())
        .collect()
}

const PORTS: &str = "T bash -c 'echo 1 | sudo tee /proc/sys/net/ipv4/tcp_tw_reuse'";
const LOADAVG: &str = "awk '{print $1\" \"$2}' /proc/loadavg";

fn client(dir: &str, options: &str, db: &str) -> String {
    format!(
        "T env RUST_BACKTRACE=1 {}/lobsters/mysql/target/release/trawler-mysql {}\"mysql://lobsters:$(cat ~/mysql.pass)@{}/lobsters\"",
        dir, options, db
    )
}

#[test]
fn a_trial_of_mysql() {
    let (actions, _) = drive(job(None, &[Some(100)]), |action, place| match place {
        Place::Trial {
            backend: Backend::Mysql,
            ..
        } => match action {
            Action::Run { host: Host::Server, command } if command == LOADAVG => output("3.50 2.25\n"),
            Action::Run { host: Host::Trawler, command } if command == LOADAVG => output("7.00 6.50\n"),
            _ => usual(action),
        },
        _ => usual(action),
    });
    let measure = client(
        "benchmarks",
        "--reqscale 100 --memscale 1 --warmup 20 --runtime 30 --issuers 24 \
         --histogram lobsters-mysql-m1-r100-unlimited.hist \n                         ",
        IP,
    );
    let expected = vec![
        PORTS.to_string(),
        "say ==> benchmark mysql w/ 100x load".to_string(),
        "S sudo mount -t tmpfs -o size=16G tmpfs /mnt".to_string(),
        "S sudo cp -r /var/lib/mysql.clean /mnt/mysql".to_string(),
        "S sudo chown -R mysql:mysql /var/lib/mysql/".to_string(),
        "S bash -c 'sudo systemctl start mysql 2>&1'".to_string(),
        "clock Priming".to_string(),
        client(
            "benchmarks",
            "--memscale 1 --warmup 0 --runtime 0 --issuers 24 --prime ",
            IP,
        ),
        "clock Warming".to_string(),
        client(
            "benchmarks",
            "--reqscale 3000 --memscale 1 --warmup 120 --runtime 0 --issuers 24 ",
            IP,
        ),
        "clock Started".to_string(),
        format!("{} > lobsters-mysql-100.log", measure),
        "clock Finished".to_string(),
        format!("S {}", LOADAVG),
        format!("T {}", LOADAVG),
        "record 100 mysql 3.50 2.25 7.00 6.50\n".to_string(),
        "T cat lobsters-mysql-m1-r100-unlimited.hist > lobsters-mysql-100.hist".to_string(),
        "S bash -c 'sudo systemctl stop mysql 2>&1'".to_string(),
        "S sudo umount /mnt".to_string(),
        "load Some(\"3.50\") Some(\"7.00\")".to_string(),
        "rates lobsters-mysql-100.log".to_string(),
    ];
    assert_eq!(actions[..expected.len()], expected[..]);
    assert_eq!(actions[expected.len()], "say ==> benchmark soup w/ 100x load");
}

#[test]
fn a_trial_of_soup_with_limited_memory() {
    let (actions, _) = drive(job(Some("512"), &[Some(100)]), |action, _| usual(action));
    let start = actions
        .iter()
        .position(|a| a == "say ==> benchmark soup w/ 100x load")
        .unwrap();
    let dir = "benchmarks-soup";
    let db = "127.0.0.1";
    let measure = client(
        dir,
        "--reqscale 100 --memscale 1 --warmup 20 --runtime 30 --issuers 24 \
         --histogram lobsters-soup-m1-r100-l512.hist \n                         ",
        db,
    );
    let expected = vec![
        "say ==> benchmark soup w/ 100x load".to_string(),
        "S bash -c 'pkill -9 -f souplet 2>&1'".to_string(),
        "T bash -c 'pkill -9 -f distributary-mysql 2>&1'".to_string(),
        "S distributary/target/release/zk-util --clean --deployment trawler".to_string(),
        "pause 10".to_string(),
        format!(
            "S bash -c 'nohup env RUST_BACKTRACE=1 distributary/target/release/souplet \
             --deployment trawler --durability memory --no-reuse --address {} --readers 60 -w 5 \
             --shards 0 --memory 512  &> souplet.log &'",
            IP
        ),
        format!(
            "T bash -c 'nohup env RUST_BACKTRACE=1 shim/target/release/distributary-mysql \
             --deployment trawler --no-sanitize --no-static-responses -z {}:2181 -p 3306 \
             &> shim.log &'",
            IP
        ),
        "pause 5".to_string(),
        "clock Priming".to_string(),
        client(dir, "--memscale 1 --warmup 0 --runtime 0 --issuers 24 --prime ", db),
        "clock Uniform".to_string(),
        client(
            dir,
            "--uniform --reqscale 3000 --memscale 1 --warmup 300 --runtime 0 --issuers 24 ",
            db,
        ),
        "clock Warming".to_string(),
        client(
            dir,
            "--reqscale 3000 --memscale 1 --warmup 120 --runtime 0 --issuers 24 ",
            db,
        ),
        "clock Started".to_string(),
        format!("{} > lobsters-soup-100.log", measure),
        "clock Finished".to_string(),
        format!("S {}", LOADAVG),
        format!("T {}", LOADAVG),
        "record 100 soup  \n".to_string(),
        "T cat lobsters-soup-m1-r100-l512.hist > lobsters-soup-100.hist".to_string(),
        format!(
            "T wget http://{}:9000/get_statistics > lobsters-soup-m1-r100-l512.json",
            IP
        ),
        "S bash -c 'pkill -f souplet 2>&1'".to_string(),
        "T bash -c 'pkill -f distributary-mysql 2>&1'".to_string(),
        "pause 2".to_string(),
        "load None None".to_string(),
        "rates lobsters-soup-100.log".to_string(),
        "say ==> benchmark soupy w/ 100x load".to_string(),
    ];
    assert_eq!(actions[start..start + expected.len()], expected[..]);
    assert!(actions[start + expected.len()..]
        .iter()
        .any(|a| a.contains("benchmarks-soupy/lobsters/mysql")));
}

#[test]
fn memory_without_a_limit_is_not_filled() {
    let (actions, _) = drive(job(None, &[Some(100)]), |action, _| usual(action));
    assert!(!actions.iter().any(|a| a.contains("--uniform") || a.contains("--memory ")));
    assert!(actions
        .iter()
        .any(|a| a.ends_with("> lobsters-soupy-m1-r100-unlimited.json")));
}

#[test]
fn every_backend_runs_under_every_load() {
    let (actions, _) = drive(job(None, &[Some(100), Some(400), Some(100)]), |action, _| {
        usual(action)
    });
    assert_eq!(
        trials(&actions),
        vec![
            "mysql w/ 100x load",
            "soup w/ 100x load",
            "soupy w/ 100x load",
            "mysql w/ 400x load",
            "soup w/ 400x load",
            "soupy w/ 400x load",
            "mysql w/ 100x load",
            "soup w/ 100x load",
            "soupy w/ 100x load",
        ]
    );
    assert_eq!(actions.last().unwrap(), "finish");
    assert!(actions.len() <= 27 * 3 * 3 + 2);
}

#[test]
fn a_backend_that_falls_behind_is_left_out() {
    let (actions, notes) = drive(
        job(None, &[Some(1), Some(2), Some(3)]),
        |action, place| match (action, place) {
            (
                Action::JudgeRates { .. },
                Place::Trial {
                    backend: Backend::Mysql,
                    scale: 2,
                    ..
                },
            ) => Reply::Rates { behind: true },
            (
                Action::JudgeRates { .. },
                Place::Trial {
                    backend: Backend::Soupy,
                    scale: 1,
                    ..
                },
            ) => Reply::Rates { behind: true },
            _ => usual(action),
        },
    );
    assert_eq!(
        trials(&actions),
        vec![
            "mysql w/ 1x load",
            "soup w/ 1x load",
            "soupy w/ 1x load",
            "mysql w/ 2x load",
            "soup w/ 2x load",
            "soup w/ 3x load",
        ]
    );
    assert_eq!(
        notes.iter().filter(|n| *n == " -> backend is really not keeping up").count(),
        2
    );
}

#[test]
fn an_overloaded_server_is_only_mentioned() {
    let (actions, notes) = drive(job(None, &[Some(1), Some(2)]), |action, _| match action {
        Action::JudgeLoad { .. } => Reply::Overload { overloaded: true },
        _ => usual(action),
    });
    assert_eq!(trials(&actions).len(), 6);
    assert_eq!(
        notes.iter().filter(|n| *n == " -> backend is probably not keeping up").count(),
        6
    );
}

#[test]
fn a_log_without_both_rates_leaves_the_backend_in() {
    let (actions, notes) = drive(job(None, &[Some(1), Some(2)]), |action, _| match action {
        Action::JudgeRates { .. } => Reply::NoRates,
        _ => usual(action),
    });
    assert_eq!(trials(&actions).len(), 6);
    assert_eq!(actions.last().unwrap(), "finish");
    assert!(!notes.iter().any(|n| n.contains("not keeping up")));
}

#[test]
fn no_backend_left_means_no_trial_left() {
    let (actions, _) = drive(job(None, &[Some(1), Some(2), Some(3)]), |action, _| match action {
        Action::JudgeRates { .. } => Reply::Rates { behind: true },
        _ => usual(action),
    });
    assert_eq!(trials(&actions).len(), 3);
    assert_eq!(actions.last().unwrap(), "finish");
}

#[test]
fn a_bad_load_stops_the_campaign_when_it_is_reached() {
    let (actions, _) = drive(job(None, &[Some(1), None, Some(3)]), |action, _| usual(action));
    assert_eq!(trials(&actions).len(), 3);
    assert_eq!(actions.last().unwrap(), "bad scale 1");
    let (actions, _) = drive(job(None, &[None]), |action, _| usual(action));
    assert_eq!(actions, vec![PORTS.to_string(), "bad scale 0".to_string()]);
    // even with no backend left
    let (actions, _) = drive(job(None, &[Some(1), None]), |action, _| match action {
        Action::JudgeRates { .. } => Reply::Rates { behind: true },
        _ => usual(action),
    });
    assert_eq!(actions.last().unwrap(), "bad scale 1");
}

#[test]
fn no_load_means_no_trial() {
    let (actions, notes) = drive(job(None, &[]), |action, _| usual(action));
    assert_eq!(actions, vec![PORTS.to_string(), "finish".to_string()]);
    assert!(notes.is_empty());
}

#[test]
fn a_failure_aborts_the_campaign() {
    let fail = || Reply::Failed {
        reason: "gone".to_string(),
    };
    let (actions, _) = drive(job(None, &[Some(1)]), |_, _| fail());
    assert_eq!(actions, vec![PORTS.to_string(), "abort".to_string()]);
    for wanted in ["mysql stop", "umount", ".hist >", "record", "rates", "pkill -f souplet"] {
        let matches = |a: &Action| match wanted {
            "mysql stop" => short(a).contains("stop mysql"),
            _ => short(a).contains(wanted),
        };
        let (actions, _) = drive(job(None, &[Some(1), Some(2)]), |action, _| {
            if matches(action) {
                fail()
            } else {
                usual(action)
            }
        });
        assert_eq!(actions.last().unwrap(), "abort", "{}", wanted);
        assert!(trials(&actions).len() <= 2);
    }
}

#[test]
fn what_commands_print_is_shown_under_its_heading() {
    let (_, notes) = drive(job(Some("9"), &[Some(1)]), |action, _| match action {
        Action::Run { .. } => output("some words \n\n"),
        _ => usual(action),
    });
    let mysql = vec![
        " -> started mysql...\nsome words",
        " -> priming at 01:02:03",
        " -> priming finished...\nsome words",
        " -> running uniform at 01:02:03",
        " -> uniform finished...\nsome words",
        " -> warming at 01:02:03",
        " -> warming finished...\nsome words",
        " -> started at 01:02:03",
        " -> finished at 01:02:03",
        " -> stopped mysql...\nsome words",
    ];
    let soup = vec![
        " -> force stopped soup...\nsome words",
        " -> force stopped shim...\nsome words",
        " -> wiped soup state...\nsome words",
        " -> priming at 01:02:03",
        " -> priming finished...\nsome words",
        " -> running uniform at 01:02:03",
        " -> uniform finished...\nsome words",
        " -> warming at 01:02:03",
        " -> warming finished...\nsome words",
        " -> started at 01:02:03",
        " -> finished at 01:02:03",
        " -> stopped soup...\nsome words",
        " -> stopped shim...\nsome words",
    ];
    let mut expected = mysql;
    expected.extend(soup.clone());
    expected.extend(soup);
    assert_eq!(notes, expected);
}

#[test]
fn blank_output_is_not_shown() {
    let (_, notes) = drive(job(None, &[Some(1)]), |action, _| match action {
        Action::Run { .. } => output(" \n\t\n"),
        _ => usual(action),
    });
    assert!(notes.iter().all(|n| n.ends_with(" at 01:02:03")));
    assert_eq!(notes.len(), 3 * 4);
}

#[test]
fn load_averages_are_recorded_as_they_are_read() {
    let (actions, _) = drive(job(None, &[Some(7)]), |action, place| match (action, place) {
        (Action::Run { host, command }, Place::Trial { backend, .. }) if command == LOADAVG => {
            output(&format!("{}.5 {:?} \n", backend.turn_index(), host))
        }
        _ => usual(action),
    });
    let records: Vec<_> = actions.iter().filter(|a| a.starts_with("record")).collect();
    assert_eq!(
        records,
        vec![
            "record 7 mysql 0.5 Server 0.5 Trawler\n",
            "record 7 soup 1.5 Server 1.5 Trawler\n",
            "record 7 soupy 2.5 Server 2.5 Trawler\n",
        ]
    );
    assert!(actions.iter().any(|a| a == "load Some(\"1.5\") Some(\"1.5\")"));
}

fn records(actions: &[String]) -> Vec<&str> {
    actions
        .iter()
        .filter_map(|a| a.strip_prefix("record "))
        .collect()
}

/// The load averages on either machine, told apart by load and backend.
fn loads(action: &Action, place: Place) -> Reply {
    match (action, place) {
        (Action::Run { host, command }, Place::Trial { index, backend, .. })
            if command == LOADAVG =>
        {
            output(&format!("{}.{} {:?}\n", index, backend.turn_index(), host))
        }
        _ => usual(action),
    }
}

#[test]
fn the_load_log_has_one_entry_for_each_trial() {
    // the second load comes twice, and soup drops out under the first
    let scales = [Some(1), Some(20), Some(20)];
    let (actions, _) = drive(job(None, &scales), |action, place| match (action, place) {
        (
            Action::JudgeRates { .. },
            Place::Trial {
                index: 0,
                backend: Backend::Soup,
                ..
            },
        ) => Reply::Rates { behind: true },
        _ => loads(action, place),
    });
    assert_eq!(
        records(&actions),
        vec![
            "1 mysql 0.0 Server 0.0 Trawler\n",
            "1 soup 0.1 Server 0.1 Trawler\n",
            "1 soupy 0.2 Server 0.2 Trawler\n",
            "20 mysql 1.0 Server 1.0 Trawler\n",
            "20 soupy 1.2 Server 1.2 Trawler\n",
            "20 mysql 2.0 Server 2.0 Trawler\n",
            "20 soupy 2.2 Server 2.2 Trawler\n",
        ]
    );
    assert_eq!(trials(&actions).len(), 7);
    assert_eq!(actions.last().unwrap(), "finish");

    let (actions, _) = drive(job(None, &[Some(1), None]), loads);
    assert_eq!(records(&actions).len(), trials(&actions).len());
    assert_eq!(actions.last().unwrap(), "bad scale 1");
}

#[test]
fn a_failure_leaves_out_at_most_its_own_trial() {
    // before the entry is written, and after it
    for (wanted, kept) in [("start mysql", 3), ("stop mysql", 4)] {
        let (actions, _) = drive(job(None, &[Some(1), Some(2)]), |action, place| {
            match (action, place) {
                (Action::Run { command, .. }, Place::Trial { index: 1, .. })
                    if command.contains(wanted) =>
                {
                    Reply::Failed {
                        reason: "gone".to_string(),
                    }
                }
                _ => loads(action, place),
            }
        });
        assert_eq!(actions.last().unwrap(), "abort");
        assert_eq!(trials(&actions).len(), 4);
        assert_eq!(records(&actions).len(), kept);
        assert_eq!(records(&actions)[2], "1 soupy 0.2 Server 0.2 Trawler\n");
    }
}

#[test]
fn a_campaign_takes_only_replies_that_fit() {
    let mut campaign = Campaign::new(job(None, &[Some(1)]));
    assert_eq!(campaign.place(), Place::Opening);
    assert!(campaign.survivors().includes(Backend::Soupy));
    assert!(!campaign.accepts(&Reply::Done));
    assert_eq!(campaign.advance(&output("1\n")), None);
    assert_eq!(
        campaign.place(),
        Place::Trial {
            index: 0,
            scale: 1,
            backend: Backend::Mysql,
            step: 0
        }
    );
    assert!(campaign.accepts(&Reply::Done));
    assert!(!campaign.accepts(&Reply::Failed { reason: String::new() }));
    assert!(!campaign.accepts(&Reply::Rates { behind: true }));
    assert!(!campaign.accepts(&Reply::NoRates));
    while !matches!(campaign.action(), Action::Clock { .. }) {
        let reply = usual(&campaign.action());
        campaign.advance(&reply);
    }
    let time = |hour, minute, second| Reply::Time {
        hour,
        minute,
        second,
    };
    assert!(campaign.accepts(&time(23, 59, 59)));
    assert!(!campaign.accepts(&time(24, 0, 0)));
    assert!(!campaign.accepts(&time(0, 60, 0)));
    assert!(!campaign.accepts(&time(0, 0, 60)));
    assert_eq!(
        campaign.advance(&time(4, 5, 6)),
        Some(" -> priming at 04:05:06".to_string())
    );
}

#[test]
fn nothing_is_left_running_between_trials() {
    let (actions, _) = drive(job(Some("9"), &[Some(1), Some(2)]), |action, _| usual(action));
    let pairs = [
        ("S sudo mount", "S sudo umount"),
        ("S bash -c 'sudo systemctl start mysql", "S bash -c 'sudo systemctl stop mysql"),
        ("S bash -c 'nohup env RUST_BACKTRACE=1 distributary", "S bash -c 'pkill -f souplet"),
        ("T bash -c 'nohup env RUST_BACKTRACE=1 shim", "T bash -c 'pkill -f distributary-mysql"),
    ];
    let mut running = [false; 4];
    let mut measured = 0;
    for a in &actions {
        if a.starts_with("say ==> benchmark") || a == "finish" {
            assert_eq!(running, [false; 4]);
        }
        if a.contains("--runtime 30") {
            let mysql = a.contains(IP);
            assert_eq!(running, [mysql, mysql, !mysql, !mysql]);
            measured += 1;
        }
        for (i, (start, stop)) in pairs.iter().enumerate() {
            if a.starts_with(start) {
                running[i] = true;
            }
            if a.starts_with(stop) {
                running[i] = false;
            }
        }
    }
    assert_eq!(measured, 6);
}

#[test]
fn trials_have_their_steps() {
    assert_eq!(steps_of_trial(Backend::Mysql, false).len(), 20);
    assert_eq!(steps_of_trial(Backend::Mysql, true).len(), 22);
    assert_eq!(steps_of_trial(Backend::Soup, false).len(), 25);
    assert_eq!(steps_of_trial(Backend::Soupy, true).len(), 27);
    for backend in [Backend::Mysql, Backend::Soup, Backend::Soupy] {
        for limited in [false, true] {
            let ops = steps_of_trial(backend, limited);
            assert_eq!(ops.contains(&Op::RunUniform), limited);
            assert_eq!(ops[0], Op::Announce);
            assert_eq!(ops[ops.len() - 2..], [Op::JudgeLoad, Op::JudgeRates]);
            assert_eq!(ops.iter().filter(|op| **op == Op::RecordLoad).count(), 1);
            let k = ops.iter().position(|op| *op == Op::ReadServerLoad).unwrap();
            assert_eq!(ops[k + 1..k + 3], [Op::ReadClientLoad, Op::RecordLoad]);
        }
    }
}

#[test]
fn the_clients_that_trials_run_are_built() {
    for backend in [Backend::Mysql, Backend::Soup, Backend::Soupy] {
        let dir = format!("{}/lobsters/mysql", backend.client_dir());
        assert!(trawler_machine()
            .projects
            .iter()
            .any(|p| p.dir == dir && p.bin == "trawler-mysql"));
    }
}

#[test]
fn the_histogram_that_is_written_is_the_one_that_is_fetched() {
    let (actions, _) = drive(job(Some("9"), &[Some(5)]), |action, _| usual(action));
    let written: Vec<_> = actions
        .iter()
        .filter_map(|a| a.split("--histogram ").nth(1))
        .map(|a| a.split(' ').next().unwrap().to_string())
        .collect();
    let fetched: Vec<_> = actions
        .iter()
        .filter_map(|a| a.strip_prefix("T cat "))
        .map(|a| a.split(' ').next().unwrap().to_string())
        .collect();
    assert_eq!(written.len(), 3);
    assert_eq!(written, fetched);
}
