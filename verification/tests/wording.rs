use trawler_mysql::backend::{Backend, Survivors};
use trawler_mysql::clock::phase_note;
use trawler_mysql::command;
use trawler_mysql::exchange::{Host, Phase};

const BACKENDS: [Backend; 3] = [Backend::Mysql, Backend::Soup, Backend::Soupy];

#[test]
fn backends_have_their_names() {
    assert_eq!(Backend::Mysql.name(), "mysql");
    assert_eq!(Backend::Soup.name(), "soup");
    assert_eq!(Backend::Soupy.name(), "soupy");
}

#[test]
fn backends_have_their_clients_and_databases() {
    assert_eq!(Backend::Mysql.client_dir(), "benchmarks");
    assert_eq!(Backend::Soup.client_dir(), "benchmarks-soup");
    assert_eq!(Backend::Soupy.client_dir(), "benchmarks-soupy");
    assert_eq!(Backend::Mysql.database("10.0.0.7"), "10.0.0.7");
    assert_eq!(Backend::Soup.database("10.0.0.7"), "127.0.0.1");
    assert_eq!(Backend::Soupy.database("10.0.0.7"), "127.0.0.1");
}

#[test]
fn backends_take_turns() {
    for (i, b) in BACKENDS.iter().enumerate() {
        assert_eq!(Backend::at_turn(i), *b);
        assert_eq!(b.turn_index(), i);
    }
}

#[test]
fn survivors_drop_out_one_by_one() {
    let mut s = Survivors::all();
    for b in BACKENDS {
        assert!(s.includes(b));
    }
    s.drop_out(Backend::Soup);
    assert!(s.includes(Backend::Mysql));
    assert!(!s.includes(Backend::Soup));
    assert!(s.includes(Backend::Soupy));
    s.drop_out(Backend::Soup);
    s.drop_out(Backend::Mysql);
    s.drop_out(Backend::Soupy);
    for b in BACKENDS {
        assert!(!s.includes(b));
    }
}

#[test]
fn machines_have_their_names() {
    assert_eq!(Host::Server.name(), "server");
    assert_eq!(Host::Trawler.name(), "trawler");
}

#[test]
fn the_time_of_day_has_two_digits_each() {
    assert_eq!(phase_note(Phase::Priming, 9, 5, 7), " -> priming at 09:05:07");
    assert_eq!(phase_note(Phase::Uniform, 0, 0, 0), " -> running uniform at 00:00:00");
    assert_eq!(phase_note(Phase::Warming, 23, 59, 59), " -> warming at 23:59:59");
    assert_eq!(phase_note(Phase::Started, 10, 20, 30), " -> started at 10:20:30");
    assert_eq!(phase_note(Phase::Finished, 12, 0, 1), " -> finished at 12:00:01");
    for h in 0..24 {
        for m in 0..60 {
            let s = (h * 7 + m) % 60;
            assert_eq!(
                phase_note(Phase::Started, h, m, s),
                format!(" -> started at {:02}:{:02}:{:02}", h, m, s)
            );
        }
    }
}

#[test]
fn checkouts_are_fetched_and_built() {
    assert_eq!(
        command::fetch_command("shim", "master"),
        "bash -c 'git -C shim fetch && git -C shim reset --hard origin/master 2>&1'"
    );
    assert_eq!(
        command::build_command("shim", "distributary-mysql"),
        "bash -c 'cd shim && cargo b --release --bin distributary-mysql 2>&1'"
    );
}

#[test]
fn soup_is_started_with_and_without_a_limit() {
    let ip = "172.31.4.2";
    let plain = format!(
        "bash -c 'nohup \
         env RUST_BACKTRACE=1 \
         distributary/target/release/souplet \
         --deployment trawler \
         --durability memory \
         --no-reuse \
         --address {} \
         --readers 60 -w 5 \
         --shards 0 ",
        ip
    );
    assert_eq!(
        command::souplet_command(ip, &None),
        format!("{}{}", plain, " &> souplet.log &'")
    );
    let limit = "1073741824";
    assert_eq!(
        command::souplet_command(ip, &Some(limit.to_string())),
        format!("{}--memory {} {}", plain, limit, " &> souplet.log &'")
    );
}

#[test]
fn the_shim_finds_zookeeper_on_the_server() {
    assert_eq!(
        command::shim_command("172.31.4.2"),
        "bash -c 'nohup \
         env RUST_BACKTRACE=1 \
         shim/target/release/distributary-mysql \
         --deployment trawler \
         --no-sanitize --no-static-responses \
         -z 172.31.4.2:2181 \
         -p 3306 \
         &> shim.log &'"
    );
}

#[test]
fn clients_are_run_with_their_options() {
    let ip = "172.31.4.2";
    for backend in BACKENDS {
        let dir = backend.client_dir();
        let db = backend.database(ip);
        assert_eq!(
            command::client_command(backend, ip, &command::prime_options(2)),
            format!(
                "env RUST_BACKTRACE=1 \
                 {}/lobsters/mysql/target/release/trawler-mysql \
                 --memscale {} \
                 --warmup 0 \
                 --runtime 0 \
                 --issuers 24 \
                 --prime \
                 \"mysql://lobsters:$(cat ~/mysql.pass)@{}/lobsters\"",
                dir, 2, db
            )
        );
        assert_eq!(
            command::client_command(backend, ip, &command::uniform_options(2)),
            format!(
                "env RUST_BACKTRACE=1 \
                 {}/lobsters/mysql/target/release/trawler-mysql \
                 --uniform \
                 --reqscale 3000 \
                 --memscale {} \
                 --warmup 300 \
                 --runtime 0 \
                 --issuers 24 \
                 \"mysql://lobsters:$(cat ~/mysql.pass)@{}/lobsters\"",
                dir, 2, db
            )
        );
        assert_eq!(
            command::client_command(backend, ip, &command::warm_options(2)),
            format!(
                "env RUST_BACKTRACE=1 \
                 {}/lobsters/mysql/target/release/trawler-mysql \
                 --reqscale 3000 \
                 --memscale {} \
                 --warmup 120 \
                 --runtime 0 \
                 --issuers 24 \
                 \"mysql://lobsters:$(cat ~/mysql.pass)@{}/lobsters\"",
                dir, 2, db
            )
        );
    }
}

#[test]
fn the_measured_client_writes_its_histogram() {
    let ip = "172.31.4.2";
    let limit = Some("512".to_string());
    for backend in BACKENDS {
        let dir = backend.client_dir();
        let db = backend.database(ip);
        let limited = format!(
            "--histogram lobsters-{}-m{}-r{}-l{}.hist ",
            backend.name(),
            2,
            8500,
            "512"
        );
        assert_eq!(
            command::client_command(
                backend,
                ip,
                &command::measure_options(backend, 2, 8500, &limit)
            ),
            format!(
                "env RUST_BACKTRACE=1 \
                 {}/lobsters/mysql/target/release/trawler-mysql \
                 --reqscale {} \
                 --memscale {} \
                 --warmup 20 \
                 --runtime 30 \
                 --issuers 24 \
                 {}\n                         \"mysql://lobsters:$(cat ~/mysql.pass)@{}/lobsters\"",
                dir, 8500, 2, limited, db
            )
        );
        let unlimited = format!(
            "--histogram lobsters-{}-m{}-r{}-unlimited.hist ",
            backend.name(),
            2,
            8500
        );
        assert!(command::measure_options(backend, 2, 8500, &None).contains(&unlimited));
    }
}

#[test]
fn files_have_their_names() {
    let limit = Some("512".to_string());
    assert_eq!(command::limit_tag(&None), "unlimited");
    assert_eq!(command::limit_tag(&limit), "l512");
    assert_eq!(
        command::histogram_file(Backend::Soupy, 1, 400, &limit),
        "lobsters-soupy-m1-r400-l512.hist"
    );
    assert_eq!(
        command::histogram_file(Backend::Mysql, 3, 400, &None),
        "lobsters-mysql-m3-r400-unlimited.hist"
    );
    assert_eq!(
        command::histogram_command(Backend::Soup, 1, 400, &None),
        "cat lobsters-soup-m1-r400-unlimited.hist"
    );
    assert_eq!(
        command::statistics_file(Backend::Soup, 1, 400, &limit),
        "lobsters-soup-m1-r400-l512.json"
    );
    assert_eq!(
        command::statistics_file(Backend::Soup, 1, 400, &None),
        "lobsters-soup-m1-r400-unlimited.json"
    );
    assert_eq!(command::log_file(Backend::Mysql, 100), "lobsters-mysql-100.log");
    assert_eq!(command::histogram_copy(Backend::Mysql, 100), "lobsters-mysql-100.hist");
    assert_eq!(
        command::statistics_command("172.31.4.2"),
        "wget http://172.31.4.2:9000/get_statistics"
    );
}

#[test]
fn files_of_different_trials_differ() {
    let mut names: Vec<String> = vec!["load.log".to_string()];
    for backend in BACKENDS {
        for scale in [1, 10, 11, 100] {
            names.push(command::log_file(backend, scale));
            names.push(command::histogram_copy(backend, scale));
            for memscale in [1, 10, 11] {
                for limit in [None, Some("1".to_string()), Some("unlimited".to_string())] {
                    names.push(command::statistics_file(backend, memscale, scale, &limit));
                    names.push(command::histogram_file(backend, memscale, scale, &limit));
                }
            }
        }
    }
    for (i, a) in names.iter().enumerate() {
        for b in &names[i + 1..] {
            assert_ne!(a, b);
        }
    }
}

#[test]
fn trials_are_announced_and_recorded() {
    assert_eq!(
        command::announcement(Backend::Soup, 1250),
        "==> benchmark soup w/ 1250x load"
    );
    assert_eq!(
        command::load_entry(Backend::Soup, 1250, "3.10 2.00", "7.25 6.90"),
        "1250 soup 3.10 2.00 7.25 6.90\n"
    );
}
