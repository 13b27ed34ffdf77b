//! What the names of the files that trials leave behind tell apart.
use crate::backend::Backend;
use crate::command;
use crate::exchange::ActionView;
use crate::plan::Op;
use crate::settings;
use crate::text;
use crate::trial::{JobView, TrialView};
use crate::trial;
use vstd::prelude::*;

verus! {

/// `s` holds no dash.
spec fn dash_free(s: Seq<char>) -> bool {
    forall|i: int| 0 <= i < s.len() ==> #[trigger] s[i] != '-'
}

/// Where the text before the first dash is known to hold none, both parts can be told.
proof fn lemma_split_at_dash(a: Seq<char>, x: Seq<char>, b: Seq<char>, y: Seq<char>)
    requires
        dash_free(a),
        dash_free(b),
        a + "-"@ + x == b + "-"@ + y,
    ensures
        a == b,
        x == y,
{
    reveal_strlit("-");
    let left = a + "-"@ + x;
    let right = b + "-"@ + y;
    assert(left[a.len() as int] == '-');
    assert(right[b.len() as int] == '-');
    if a.len() < b.len() {
        assert(right[a.len() as int] == b[a.len() as int]);
    } else if b.len() < a.len() {
        assert(left[b.len() as int] == a[b.len() as int]);
    }
    assert(a == left.take(a.len() as int));
    assert(b == right.take(b.len() as int));
    lemma_same_head(a + "-"@, x, y);
}

/// Texts that begin alike and are the same go on alike.
proof fn lemma_same_head(head: Seq<char>, x: Seq<char>, y: Seq<char>)
    requires
        head + x == head + y,
    ensures
        x == y,
{
    assert(x == (head + x).skip(head.len() as int));
    assert(y == (head + y).skip(head.len() as int));
}

/// Texts that end alike and are the same begin alike.
proof fn lemma_same_tail(x: Seq<char>, y: Seq<char>, tail: Seq<char>)
    requires
        x + tail == y + tail,
    ensures
        x == y,
{
    assert((x + tail).len() == (y + tail).len());
    assert(x == (x + tail).take(x.len() as int));
    assert(y == (y + tail).take(y.len() as int));
}

/// No backend's name, and no number, holds a dash.
proof fn lemma_parts_are_dash_free(backend: Backend, n: nat)
    ensures
        dash_free(backend.name_text()),
        dash_free(text::decimal_of(n)),
{
    reveal_strlit("mysql");
    reveal_strlit("soup");
    reveal_strlit("soupy");
    text::decimals_tell_numbers_apart(n, n);
}

/// No two backends have the same name.
pub proof fn names_tell_backends_apart(a: Backend, b: Backend)
    ensures
        a.name_text() == b.name_text() ==> a == b,
{
    reveal_strlit("mysql");
    reveal_strlit("soup");
    reveal_strlit("soupy");
    assert("mysql"@[0] == 'm' && "soup"@[0] == 's' && "soupy"@[0] == 's');
    assert("soup"@.len() == 4 && "soupy"@.len() == 5);
}

/// The names of the logs of different trials have different stems.
proof fn lemma_log_stems(a: Backend, m: usize, b: Backend, n: usize)
    requires
        command::log_stem_name(a, m) == command::log_stem_name(b, n),
    ensures
        a == b,
        m == n,
{
    let x = text::decimal_of(m as nat);
    let y = text::decimal_of(n as nat);
    lemma_parts_are_dash_free(a, m as nat);
    lemma_parts_are_dash_free(b, n as nat);
    assert("lobsters-"@ + (a.name_text() + "-"@ + x) == command::log_stem_name(a, m));
    assert("lobsters-"@ + (b.name_text() + "-"@ + y) == command::log_stem_name(b, n));
    lemma_same_head("lobsters-"@, a.name_text() + "-"@ + x, b.name_text() + "-"@ + y);
    lemma_split_at_dash(a.name_text(), x, b.name_text(), y);
    names_tell_backends_apart(a, b);
    text::decimals_tell_numbers_apart(m as nat, n as nat);
}

/// Trials of different backends, or under different loads, have different logs and different
/// local histograms.
pub proof fn logs_tell_trials_apart(a: Backend, m: usize, b: Backend, n: usize)
    ensures
        command::log_name(a, m) == command::log_name(b, n) ==> a == b && m == n,
        command::histogram_copy_name(a, m) == command::histogram_copy_name(b, n) ==> a == b && m
            == n,
{
    if command::log_name(a, m) == command::log_name(b, n) {
        lemma_same_tail(command::log_stem_name(a, m), command::log_stem_name(b, n), ".log"@);
        lemma_log_stems(a, m, b, n);
    }
    if command::histogram_copy_name(a, m) == command::histogram_copy_name(b, n) {
        lemma_same_tail(command::log_stem_name(a, m), command::log_stem_name(b, n), ".hist"@);
        lemma_log_stems(a, m, b, n);
    }
}

/// A memory limit and its absence, and two different limits, are marked differently.
proof fn lemma_limit_marks(a: Option<Seq<char>>, b: Option<Seq<char>>)
    requires
        command::limit_mark(a) == command::limit_mark(b),
    ensures
        a == b,
{
    reveal_strlit("l");
    reveal_strlit("unlimited");
    let x = command::limit_mark(a);
    let y = command::limit_mark(b);
    assert(x[0] == y[0]);
    match (a, b) {
        (Some(p), Some(q)) => {
            lemma_same_head("l"@, p, q);
        },
        _ => {},
    }
}

/// What stands in a result's name behind the backend's.
spec fn behind_backend(memscale: usize, scale: usize, limit: Option<Seq<char>>) -> Seq<char> {
    "m"@ + text::decimal_of(memscale as nat) + "-"@ + behind_memscale(scale, limit)
}

/// What stands in a result's name behind the scale of the data.
spec fn behind_memscale(scale: usize, limit: Option<Seq<char>>) -> Seq<char> {
    "r"@ + text::decimal_of(scale as nat) + "-"@ + command::limit_mark(limit)
}

/// The parts of a result's name, and what of them holds no dash.
#[verifier::rlimit(40)]
proof fn lemma_result_name_parts(
    backend: Backend,
    memscale: usize,
    scale: usize,
    limit: Option<Seq<char>>,
)
    ensures
        command::result_name(backend, memscale, scale, limit) == "lobsters-"@ + (
        backend.name_text() + "-"@ + behind_backend(memscale, scale, limit)),
        dash_free(backend.name_text()),
        dash_free("m"@ + text::decimal_of(memscale as nat)),
        dash_free("r"@ + text::decimal_of(scale as nat)),
{
    reveal_strlit("-");
    reveal_strlit("-m");
    reveal_strlit("-r");
    reveal_strlit("m");
    reveal_strlit("r");
    lemma_parts_are_dash_free(backend, memscale as nat);
    lemma_parts_are_dash_free(backend, scale as nat);
    assert("-m"@ == "-"@ + "m"@);
    assert("-r"@ == "-"@ + "r"@);
    assert(command::result_name(backend, memscale, scale, limit) == "lobsters-"@ + (
    backend.name_text() + "-"@ + behind_backend(memscale, scale, limit)));
}

/// The results of trials that differ in anything have different names.
#[verifier::rlimit(40)]
proof fn lemma_result_names(
    a: Backend,
    am: usize,
    an: usize,
    al: Option<Seq<char>>,
    b: Backend,
    bm: usize,
    bn: usize,
    bl: Option<Seq<char>>,
)
    requires
        command::result_name(a, am, an, al) == command::result_name(b, bm, bn, bl),
    ensures
        a == b,
        am == bm,
        an == bn,
        al == bl,
{
    lemma_result_name_parts(a, am, an, al);
    lemma_result_name_parts(b, bm, bn, bl);
    let x = behind_backend(am, an, al);
    let y = behind_backend(bm, bn, bl);
    lemma_same_head("lobsters-"@, a.name_text() + "-"@ + x, b.name_text() + "-"@ + y);
    lemma_split_at_dash(a.name_text(), x, b.name_text(), y);
    names_tell_backends_apart(a, b);
    let (p, q) = (text::decimal_of(am as nat), text::decimal_of(bm as nat));
    lemma_split_at_dash("m"@ + p, behind_memscale(an, al), "m"@ + q, behind_memscale(bn, bl));
    lemma_same_head("m"@, p, q);
    text::decimals_tell_numbers_apart(am as nat, bm as nat);
    let (u, v) = (text::decimal_of(an as nat), text::decimal_of(bn as nat));
    lemma_split_at_dash("r"@ + u, command::limit_mark(al), "r"@ + v, command::limit_mark(bl));
    lemma_same_head("r"@, u, v);
    text::decimals_tell_numbers_apart(an as nat, bn as nat);
    lemma_limit_marks(al, bl);
}

/// Trials that differ in their backend, the scale of their data, their load or their memory limit
/// have different histograms on the client, and different statistics.
pub proof fn results_tell_trials_apart(
    a: Backend,
    am: usize,
    an: usize,
    al: Option<Seq<char>>,
    b: Backend,
    bm: usize,
    bn: usize,
    bl: Option<Seq<char>>,
)
    ensures
        command::histogram_name(a, am, an, al) == command::histogram_name(b, bm, bn, bl) ==> a == b
            && am == bm && an == bn && al == bl,
        command::statistics_name(a, am, an, al) == command::statistics_name(b, bm, bn, bl) ==> a
            == b && am == bm && an == bn && al == bl,
{
    let x = command::result_name(a, am, an, al);
    let y = command::result_name(b, bm, bn, bl);
    if x + ".hist"@ == y + ".hist"@ {
        lemma_same_tail(x, y, ".hist"@);
        lemma_result_names(a, am, an, al, b, bm, bn, bl);
    }
    if x + ".json"@ == y + ".json"@ {
        lemma_same_tail(x, y, ".json"@);
        lemma_result_names(a, am, an, al, b, bm, bn, bl);
    }
}

/// Local files of different kinds never have the same name.
pub proof fn kinds_of_files_are_told_apart(
    a: Backend,
    m: usize,
    b: Backend,
    n: usize,
    c: Backend,
    memscale: usize,
    scale: usize,
    limit: Option<Seq<char>>,
)
    ensures
        command::log_name(a, m) != command::histogram_copy_name(b, n),
        command::log_name(a, m) != command::statistics_name(c, memscale, scale, limit),
        command::histogram_copy_name(b, n) != command::statistics_name(c, memscale, scale, limit),
        command::log_name(a, m) != settings::LOAD_LOG@,
        command::histogram_copy_name(b, n) != settings::LOAD_LOG@,
        command::statistics_name(c, memscale, scale, limit) != settings::LOAD_LOG@,
{
    reveal_strlit(".log");
    reveal_strlit(".hist");
    reveal_strlit(".json");
    reveal_strlit("load.log");
    reveal_strlit("lobsters-");
    let log = command::log_name(a, m);
    assert(log.last() == 'g');
    assert(command::histogram_copy_name(b, n).last() == 't');
    assert(command::statistics_name(c, memscale, scale, limit).last() == 'n');
    assert(log[2] == 'b');
    assert(settings::LOAD_LOG@[2] == 'a');
    assert(settings::LOAD_LOG@.last() == 'g');
}

/// The histogram that is fetched after a measurement is the one that the client was told to write.
#[verifier::rlimit(40)]
pub proof fn the_histogram_is_found_again(job: JobView, trial: TrialView)
    ensures
        ({
            let name = command::histogram_name(
                trial.backend,
                job.memscale,
                trial.scale,
                job.memlimit,
            );
            let measured = trial::op_action(job, trial, Op::Measure);
            let fetched = trial::op_action(job, trial, Op::FetchHistogram);
            &&& text::occurs_in("--histogram "@ + name + " "@, measured->Save_command)
            &&& fetched->Save_command == "cat "@ + name
            &&& measured->Save_host == fetched->Save_host
        }),
{
    reveal_strlit("--histogram ");
    reveal_strlit(" ");
    reveal_strlit(" --warmup 20 --runtime 30 --issuers 24 --histogram ");
    reveal_strlit(" \n                         ");
    let name = command::histogram_name(trial.backend, job.memscale, trial.scale, job.memlimit);
    let wanted = "--histogram "@ + name + " "@;
    let lead = "--reqscale "@ + text::decimal_of(trial.scale as nat) + " --memscale "@
        + text::decimal_of(job.memscale as nat);
    let flags = " --warmup 20 --runtime 30 --issuers 24 --histogram "@;
    let rest = " \n                         "@;
    let options = command::measure_option_text(
        trial.backend,
        job.memscale,
        trial.scale,
        job.memlimit,
    );
    assert(options == lead + flags + name + rest);
    let head = "env RUST_BACKTRACE=1 "@ + trial.backend.client_dir_text()
        + "/lobsters/mysql/target/release/trawler-mysql "@;
    let tail = "\"mysql://lobsters:$(cat ~/mysql.pass)@"@ + trial.backend.database_text(
        job.server_ip,
    ) + "/lobsters\""@;
    let line = command::client_line(trial.backend, job.server_ip, options);
    assert(line == head + (lead + flags + name + rest) + tail);
    let at = head.len() + lead.len() + flags.len() - "--histogram "@.len();
    assert(line.subrange(at as int, at + wanted.len()) == wanted);
}

/// The rates are read from the file to which the measurement was saved.
pub proof fn the_measurement_is_judged(job: JobView, trial: TrialView)
    ensures
        trial::op_action(job, trial, Op::JudgeRates) == (ActionView::JudgeRates {
            log: trial::op_action(job, trial, Op::Measure)->Save_file,
        }),
{
}

} // verus!
