use trawler_mysql::rates::{read_rate, Rate, RateScan};
use trawler_mysql::settings;

#[test]
fn rates_are_read_from_their_lines() {
    assert_eq!(
        read_rate("# target ops/s: 1432.5"),
        Some((Rate::Target, "1432.5".to_string()))
    );
    assert_eq!(
        read_rate("# achieved ops/s: 1400"),
        Some((Rate::Achieved, "1400".to_string()))
    );
    assert_eq!(read_rate("# target ops/s"), Some((Rate::Target, "ops/s".to_string())));
    assert_eq!(read_rate("# achieved ops/s: "), Some((Rate::Achieved, String::new())));
    assert_eq!(read_rate(" # target ops/s: 3"), None);
    assert_eq!(read_rate("# generated ops/s: 3"), None);
    assert_eq!(read_rate(""), None);
}

fn scan(log: &str) -> Option<(f64, f64)> {
    let mut scan = RateScan::new();
    for line in log.lines() {
        let found = match read_rate(line) {
            Some((rate, figure)) => Some((rate, figure.parse::<f64>().unwrap())),
            None => None,
        };
        if let Some(rates) = scan.feed(found) {
            return Some(rates);
        }
    }
    None
}

#[test]
fn both_rates_are_wanted() {
    assert_eq!(
        scan("# start\n# target ops/s: 100\nx\n# achieved ops/s: 75.5\n# end\n"),
        Some((100.0, 75.5))
    );
    assert_eq!(
        scan("# achieved ops/s: 75.5\n# target ops/s: 100\n"),
        Some((100.0, 75.5))
    );
    assert_eq!(scan("# target ops/s: 100\n"), None);
    assert_eq!(scan("# achieved ops/s: 100\n"), None);
    assert_eq!(scan(""), None);
}

#[test]
fn the_latest_figure_counts_until_both_are_known() {
    assert_eq!(
        scan("# target ops/s: 1\n# target ops/s: 2\n# achieved ops/s: 3\n# achieved ops/s: 4\n"),
        Some((2.0, 3.0))
    );
}

#[test]
fn lines_behind_the_deciding_one_do_not_count() {
    let log = "# target ops/s: 100\n# target ops/s: 80\n# achieved ops/s: 75.5\n";
    assert_eq!(scan(log), Some((80.0, 75.5)));
    let longer = format!("{}# target ops/s: 1\n# achieved ops/s: 2\n# achieved ops/s: x\n", log);
    assert_eq!(scan(&longer), Some((80.0, 75.5)));
    let other = "# achieved ops/s: 3\n# achieved ops/s: 4\n\n# target ops/s: 5\n# achieved ops/s: 6\n";
    assert_eq!(scan(other), Some((5.0, 4.0)));
}

#[test]
fn a_scan_begins_with_nothing() {
    let mut scan: RateScan<u8> = RateScan::new();
    assert_eq!(scan.feed(None), None);
    assert_eq!(scan.feed(Some((Rate::Achieved, 3))), None);
    assert_eq!(scan.feed(None), None);
    assert_eq!(scan.feed(Some((Rate::Target, 4))), Some((4, 3)));
    assert_eq!(scan.target, Some(4));
    assert_eq!(scan.achieved, Some(3));
}

#[test]
fn the_usual_loads_are_run_where_none_is_asked_for() {
    let usual = [
        100usize, 400, 800, 1000, 1250, 1500, 2000, 2500, 3000, 3500, 4000, 4500, 5000, 5500, 6000,
        6500, 7000, 7500, 8000, 8500, 9000, 9500, 10_000,
    ];
    let scales = settings::scales(&None);
    assert_eq!(scales, usual.iter().map(|&s| Some(s)).collect::<Vec<_>>());
    for pair in scales.windows(2) {
        assert!(pair[0] < pair[1]);
    }
}

#[test]
fn asked_loads_are_read_in_order() {
    let asked = |texts: &[&str]| {
        settings::scales(&Some(texts.iter().map(|t| t.to_string()).collect()))
    };
    assert_eq!(asked(&["8500", "100"]), vec![Some(8500), Some(100)]);
    assert_eq!(asked(&["100", "many", "-1", "+7"]), vec![Some(100), None, None, Some(7)]);
    assert_eq!(asked(&[]), vec![]);
}

#[test]
fn the_load_log_is_begun_anew_for_the_usual_loads() {
    assert_eq!(
        settings::load_log_header(&None),
        Some("#reqscale backend sload1 sload5 cload1 cload5\n")
    );
    assert_eq!(settings::load_log_header(&Some(vec!["100".to_string()])), None);
    assert_eq!(settings::LOAD_LOG, "load.log");
}
