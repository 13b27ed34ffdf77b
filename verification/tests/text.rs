use trawler_mysql::text;

#[test]
fn white_space_is_what_std_says() {
    for p in 0..=0x10ffffu32 {
        if let Some(c) = char::from_u32(p) {
            assert_eq!(text::is_space(c), c.is_whitespace(), "{:x}", p);
        }
    }
}

const SAMPLES: [&str; 12] = [
    "",
    " ",
    "\n\t ",
    "0.15 0.10\n",
    "  lead",
    "trail \u{2003}\r\n",
    "a b  c",
    "\u{3000}x\u{a0}y",
    "one",
    "é è\u{85}",
    "# target ops/s: 12.5",
    "ends with space ",
];

#[test]
fn trimming_is_what_std_does() {
    for s in SAMPLES {
        assert_eq!(text::trim_end(s), s.trim_end());
    }
    assert_eq!(text::trim_end("0.15 0.10\n"), "0.15 0.10");
    assert_eq!(text::trim_end(" \n"), "");
}

#[test]
fn first_words_are_what_std_finds() {
    for s in SAMPLES {
        assert_eq!(
            text::first_word(s).as_deref(),
            s.split_whitespace().next(),
            "{:?}",
            s
        );
    }
    assert_eq!(text::first_word("0.15 0.10"), Some("0.15".to_string()));
    assert_eq!(text::first_word(" \n"), None);
}

#[test]
fn last_fields_are_what_std_finds() {
    for s in SAMPLES {
        assert_eq!(text::last_field(s, ' '), s.rsplitn(2, ' ').next().unwrap());
    }
    assert_eq!(text::last_field("# target ops/s: 12.5", ' '), "12.5");
    assert_eq!(text::last_field("one", ' '), "one");
    assert_eq!(text::last_field("", ' '), "");
    assert_eq!(text::last_field("ends ", ' '), "");
}

#[test]
fn beginnings_and_parts_are_what_std_finds() {
    let parts = ["", " ", "a", "b  c", "# target ops/s", "lead", "one", "ones", "\u{a0}y"];
    for s in SAMPLES {
        for part in parts {
            assert_eq!(text::begins_with(s, part), s.starts_with(part));
            assert_eq!(text::holds(s, part), s.contains(part), "{:?} {:?}", s, part);
            assert_eq!(text::same(s, part), s == part);
        }
    }
    assert!(text::holds("remote: Already up-to-date.", "Already up-to-date."));
    assert!(!text::holds("Already up-to-date", "Already up-to-date."));
}

#[test]
fn characters_are_kept() {
    assert_eq!(text::chars_of("aé\u{1f600}"), vec!['a', 'é', '\u{1f600}']);
    assert_eq!(text::chars_of(""), Vec::<char>::new());
}

#[test]
fn numbers_are_written_as_std_writes_them() {
    for n in [0, 1, 9, 10, 11, 99, 100, 101, 1250, 10_000, 65_535, usize::MAX - 1, usize::MAX] {
        assert_eq!(text::decimal(n), n.to_string());
    }
    assert_eq!(text::decimal(10_000), "10000");
}

#[test]
fn numbers_are_read_as_std_reads_them() {
    let samples = [
        "",
        "+",
        "-",
        "0",
        "007",
        "+12",
        "++1",
        "-0",
        "-1",
        " 1",
        "1 ",
        "1_000",
        "1e3",
        "12a",
        "a12",
        "1250",
        "18446744073709551615",
        "18446744073709551616",
        "+18446744073709551615",
        "99999999999999999999",
        "000000000000000000000000000001",
        "\u{661}",
    ];
    for s in samples {
        assert_eq!(text::parse_count(s), s.parse::<usize>().ok(), "{:?}", s);
    }
    assert_eq!(text::parse_count("1250"), Some(1250));
    assert_eq!(text::parse_count("many"), None);
}

#[test]
fn numbers_read_back() {
    for n in [0, 7, 10, 100, 8500, usize::MAX] {
        assert_eq!(text::parse_count(&text::decimal(n)), Some(n));
    }
}
