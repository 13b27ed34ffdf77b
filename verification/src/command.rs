//! The wording of commands, file names and messages.
use crate::backend::Backend;
use crate::text;
use vstd::prelude::*;
use vstd::string::*;

verus! {

/// The characters of an optional text.
pub open spec fn text_of(s: Option<String>) -> Option<Seq<char>> {
    match s {
        Some(s) => Some(s@),
        None => None,
    }
}

/// The command that brings the checkout in `dir` to the tip of `branch`.
pub open spec fn fetch_line(dir: Seq<char>, branch: Seq<char>) -> Seq<char> {
    "bash -c 'git -C "@
        + dir
        + " fetch && git -C "@
        + dir
        + " reset --hard origin/"@
        + branch
        + " 2>&1'"@
}

/// The command that brings the checkout in `dir` to the tip of `branch`.
pub fn fetch_command(dir: &str, branch: &str) -> (text: String)
    ensures
        text@ == fetch_line(dir@, branch@),
{
    let mut text: String = String::from_str("bash -c 'git -C ");
    text.append(dir);
    text.append(" fetch && git -C ");
    text.append(dir);
    text.append(" reset --hard origin/");
    text.append(branch);
    text.append(" 2>&1'");
    text
}

/// The command that builds the program `bin` of the checkout in `dir`.
pub open spec fn build_line(dir: Seq<char>, bin: Seq<char>) -> Seq<char> {
    "bash -c 'cd "@ + dir + " && cargo b --release --bin "@ + bin + " 2>&1'"@
}

/// The command that builds the program `bin` of the checkout in `dir`.
pub fn build_command(dir: &str, bin: &str) -> (text: String)
    ensures
        text@ == build_line(dir@, bin@),
{
    let mut text: String = String::from_str("bash -c 'cd ");
    text.append(dir);
    text.append(" && cargo b --release --bin ");
    text.append(bin);
    text.append(" 2>&1'");
    text
}

/// The part of a file name that tells the memory limit.
pub open spec fn limit_mark(limit: Option<Seq<char>>) -> Seq<char> {
    match limit {
        Some(bytes) => "l"@ + bytes,
        None => "unlimited"@,
    }
}

/// The part of a file name that tells the memory limit.
pub fn limit_tag(limit: &Option<String>) -> (text: String)
    ensures
        text@ == limit_mark(text_of(*limit)),
{
    match limit {
        Some(bytes) => {
            let mut text: String = String::from_str("l");
            text.append(bytes.as_str());
            text
        },
        None => String::from_str("unlimited"),
    }
}

/// The name that a trial's results share on the client, without what tells their kind.
pub open spec fn result_name(
    backend: Backend,
    memscale: usize,
    scale: usize,
    limit: Option<Seq<char>>,
) -> Seq<char> {
    "lobsters-"@
        + backend.name_text()
        + "-m"@
        + text::decimal_of(memscale as nat)
        + "-r"@
        + text::decimal_of(scale as nat)
        + "-"@
        + limit_mark(limit)
}

/// The name that a trial's results share on the client, without what tells their kind.
pub fn result_stem(
    backend: Backend,
    memscale: usize,
    scale: usize,
    limit: &Option<String>,
) -> (text: String)
    ensures
        text@ == result_name(backend, memscale, scale, text_of(*limit)),
{
    let mut text: String = String::from_str("lobsters-");
    text.append(backend.name());
    text.append("-m");
    text.append(text::decimal(memscale).as_str());
    text.append("-r");
    text.append(text::decimal(scale).as_str());
    text.append("-");
    text.append(limit_tag(limit).as_str());
    text
}

/// The file on the client that gets a trial's latency histogram.
pub open spec fn histogram_name(
    backend: Backend,
    memscale: usize,
    scale: usize,
    limit: Option<Seq<char>>,
) -> Seq<char> {
    result_name(backend, memscale, scale, limit) + ".hist"@
}

/// The file on the client that gets a trial's latency histogram.
pub fn histogram_file(
    backend: Backend,
    memscale: usize,
    scale: usize,
    limit: &Option<String>,
) -> (text: String)
    ensures
        text@ == histogram_name(backend, memscale, scale, text_of(*limit)),
{
    let mut text: String = result_stem(backend, memscale, scale, limit);
    text.append(".hist");
    text
}

/// The local file that gets Soup's statistics about a trial.
pub open spec fn statistics_name(
    backend: Backend,
    memscale: usize,
    scale: usize,
    limit: Option<Seq<char>>,
) -> Seq<char> {
    result_name(backend, memscale, scale, limit) + ".json"@
}

/// The local file that gets Soup's statistics about a trial.
pub fn statistics_file(
    backend: Backend,
    memscale: usize,
    scale: usize,
    limit: &Option<String>,
) -> (text: String)
    ensures
        text@ == statistics_name(backend, memscale, scale, text_of(*limit)),
{
    let mut text: String = result_stem(backend, memscale, scale, limit);
    text.append(".json");
    text
}

/// The name that a trial's local logs share, without what tells their kind.
pub open spec fn log_stem_name(backend: Backend, scale: usize) -> Seq<char> {
    "lobsters-"@ + backend.name_text() + "-"@ + text::decimal_of(scale as nat)
}

/// The name that a trial's local logs share, without what tells their kind.
pub fn log_stem(backend: Backend, scale: usize) -> (text: String)
    ensures
        text@ == log_stem_name(backend, scale),
{
    let mut text: String = String::from_str("lobsters-");
    text.append(backend.name());
    text.append("-");
    text.append(text::decimal(scale).as_str());
    text
}

/// The local file that gets what the client prints while it is measured.
pub open spec fn log_name(backend: Backend, scale: usize) -> Seq<char> {
    log_stem_name(backend, scale) + ".log"@
}

/// The local file that gets what the client prints while it is measured.
pub fn log_file(backend: Backend, scale: usize) -> (text: String)
    ensures
        text@ == log_name(backend, scale),
{
    let mut text: String = log_stem(backend, scale);
    text.append(".log");
    text
}

/// The local copy of a trial's latency histogram.
pub open spec fn histogram_copy_name(backend: Backend, scale: usize) -> Seq<char> {
    log_stem_name(backend, scale) + ".hist"@
}

/// The local copy of a trial's latency histogram.
pub fn histogram_copy(backend: Backend, scale: usize) -> (text: String)
    ensures
        text@ == histogram_copy_name(backend, scale),
{
    let mut text: String = log_stem(backend, scale);
    text.append(".hist");
    text
}

/// The command that starts Soup's worker on the server, in the background.
pub open spec fn souplet_line(server_ip: Seq<char>, limit: Option<Seq<char>>) -> Seq<char> {
    let head = "bash -c 'nohup env RUST_BACKTRACE=1 distributary/target/release/souplet \
        --deployment trawler --durability memory --no-reuse --address "@
        + server_ip
        + " --readers 60 -w 5 --shards 0 "@;
    match limit {
        Some(bytes) => head + "--memory "@ + bytes + " "@ + " &> souplet.log &'"@,
        None => head + " &> souplet.log &'"@,
    }
}

/// The command that starts Soup's worker on the server, in the background.
pub fn souplet_command(server_ip: &str, limit: &Option<String>) -> (text: String)
    ensures
        text@ == souplet_line(server_ip@, text_of(*limit)),
{
    let mut text: String = String::from_str(
        "bash -c 'nohup env RUST_BACKTRACE=1 distributary/target/release/souplet \
        --deployment trawler --durability memory --no-reuse --address ",
    );
    text.append(server_ip);
    text.append(" --readers 60 -w 5 --shards 0 ");
    match limit {
        Some(bytes) => {
            text.append("--memory ");
            text.append(bytes.as_str());
            text.append(" ");
        },
        None => {},
    }
    text.append(" &> souplet.log &'");
    text
}

/// The command that starts the MySQL shim on the client, in the background; it waits until Soup
/// is there.
pub open spec fn shim_line(server_ip: Seq<char>) -> Seq<char> {
    "bash -c 'nohup env RUST_BACKTRACE=1 shim/target/release/distributary-mysql \
        --deployment trawler --no-sanitize --no-static-responses -z "@
        + server_ip
        + ":2181 -p 3306 &> shim.log &'"@
}

/// The command that starts the MySQL shim on the client, in the background; it waits until Soup
/// is there.
pub fn shim_command(server_ip: &str) -> (text: String)
    ensures
        text@ == shim_line(server_ip@),
{
    let mut text: String = String::from_str(
        "bash -c 'nohup env RUST_BACKTRACE=1 shim/target/release/distributary-mysql \
        --deployment trawler --no-sanitize --no-static-responses -z ",
    );
    text.append(server_ip);
    text.append(":2181 -p 3306 &> shim.log &'");
    text
}

/// The command that asks Soup for its statistics.
pub open spec fn statistics_line(server_ip: Seq<char>) -> Seq<char> {
    "wget http://"@ + server_ip + ":9000/get_statistics"@
}

/// The command that asks Soup for its statistics.
pub fn statistics_command(server_ip: &str) -> (text: String)
    ensures
        text@ == statistics_line(server_ip@),
{
    let mut text: String = String::from_str("wget http://");
    text.append(server_ip);
    text.append(":9000/get_statistics");
    text
}

/// The command that prints the histogram of a trial.
pub open spec fn histogram_line(
    backend: Backend,
    memscale: usize,
    scale: usize,
    limit: Option<Seq<char>>,
) -> Seq<char> {
    "cat "@ + histogram_name(backend, memscale, scale, limit)
}

/// The command that prints the histogram of a trial.
pub fn histogram_command(
    backend: Backend,
    memscale: usize,
    scale: usize,
    limit: &Option<String>,
) -> (text: String)
    ensures
        text@ == histogram_line(backend, memscale, scale, text_of(*limit)),
{
    let mut text: String = String::from_str("cat ");
    text.append(histogram_file(backend, memscale, scale, limit).as_str());
    text
}

/// The command that runs the benchmark client built for `backend`, with `options`, against its
/// database.
pub open spec fn client_line(
    backend: Backend,
    server_ip: Seq<char>,
    options: Seq<char>,
) -> Seq<char> {
    "env RUST_BACKTRACE=1 "@
        + backend.client_dir_text()
        + "/lobsters/mysql/target/release/trawler-mysql "@
        + options
        + "\"mysql://lobsters:$(cat ~/mysql.pass)@"@
        + backend.database_text(server_ip)
        + "/lobsters\""@
}

/// The command that runs the benchmark client built for `backend`, with `options`, against its
/// database.
pub fn client_command(backend: Backend, server_ip: &str, options: &str) -> (text: String)
    ensures
        text@ == client_line(backend, server_ip@, options@),
{
    let mut text: String = String::from_str("env RUST_BACKTRACE=1 ");
    text.append(backend.client_dir());
    text.append("/lobsters/mysql/target/release/trawler-mysql ");
    text.append(options);
    text.append("\"mysql://lobsters:$(cat ~/mysql.pass)@");
    text.append(backend.database(server_ip));
    text.append("/lobsters\"");
    text
}

/// The options with which the client fills the database.
pub open spec fn prime_option_text(memscale: usize) -> Seq<char> {
    "--memscale "@
        + text::decimal_of(memscale as nat)
        + " --warmup 0 --runtime 0 --issuers 24 --prime "@
}

/// The options with which the client fills the database.
pub fn prime_options(memscale: usize) -> (text: String)
    ensures
        text@ == prime_option_text(memscale),
{
    let mut text: String = String::from_str("--memscale ");
    text.append(text::decimal(memscale).as_str());
    text.append(" --warmup 0 --runtime 0 --issuers 24 --prime ");
    text
}

/// The options with which the client touches all keys alike, so that a limited memory fills.
pub open spec fn uniform_option_text(memscale: usize) -> Seq<char> {
    "--uniform --reqscale 3000 --memscale "@
        + text::decimal_of(memscale as nat)
        + " --warmup 300 --runtime 0 --issuers 24 "@
}

/// The options with which the client touches all keys alike, so that a limited memory fills.
pub fn uniform_options(memscale: usize) -> (text: String)
    ensures
        text@ == uniform_option_text(memscale),
{
    let mut text: String = String::from_str("--uniform --reqscale 3000 --memscale ");
    text.append(text::decimal(memscale).as_str());
    text.append(" --warmup 300 --runtime 0 --issuers 24 ");
    text
}

/// The options with which the client warms the backend up.
pub open spec fn warm_option_text(memscale: usize) -> Seq<char> {
    "--reqscale 3000 --memscale "@
        + text::decimal_of(memscale as nat)
        + " --warmup 120 --runtime 0 --issuers 24 "@
}

/// The options with which the client warms the backend up.
pub fn warm_options(memscale: usize) -> (text: String)
    ensures
        text@ == warm_option_text(memscale),
{
    let mut text: String = String::from_str("--reqscale 3000 --memscale ");
    text.append(text::decimal(memscale).as_str());
    text.append(" --warmup 120 --runtime 0 --issuers 24 ");
    text
}

/// The options with which the client is measured. A line break stands behind them.
pub open spec fn measure_option_text(
    backend: Backend,
    memscale: usize,
    scale: usize,
    limit: Option<Seq<char>>,
) -> Seq<char> {
    "--reqscale "@
        + text::decimal_of(scale as nat)
        + " --memscale "@
        + text::decimal_of(memscale as nat)
        + " --warmup 20 --runtime 30 --issuers 24 --histogram "@
        + histogram_name(backend, memscale, scale, limit)
        + " \n                         "@
}

/// The options with which the client is measured. A line break stands behind them.
pub fn measure_options(
    backend: Backend,
    memscale: usize,
    scale: usize,
    limit: &Option<String>,
) -> (text: String)
    ensures
        text@ == measure_option_text(backend, memscale, scale, text_of(*limit)),
{
    let mut text: String = String::from_str("--reqscale ");
    text.append(text::decimal(scale).as_str());
    text.append(" --memscale ");
    text.append(text::decimal(memscale).as_str());
    text.append(" --warmup 20 --runtime 30 --issuers 24 --histogram ");
    text.append(histogram_file(backend, memscale, scale, limit).as_str());
    text.append(" \n                         ");
    text
}

/// The message that opens a trial.
pub open spec fn announcement_text(backend: Backend, scale: usize) -> Seq<char> {
    "==> benchmark "@ + backend.name_text() + " w/ "@ + text::decimal_of(scale as nat) + "x load"@
}

/// The message that opens a trial.
pub fn announcement(backend: Backend, scale: usize) -> (text: String)
    ensures
        text@ == announcement_text(backend, scale),
{
    let mut text: String = String::from_str("==> benchmark ");
    text.append(backend.name());
    text.append(" w/ ");
    text.append(text::decimal(scale).as_str());
    text.append("x load");
    text
}

/// The line of the load log that tells the load averages at the end of a trial.
pub open spec fn load_entry_text(
    backend: Backend,
    scale: usize,
    server_load: Seq<char>,
    client_load: Seq<char>,
) -> Seq<char> {
    text::decimal_of(scale as nat)
        + " "@
        + backend.name_text()
        + " "@
        + server_load
        + " "@
        + client_load
        + "\n"@
}

/// The line of the load log that tells the load averages at the end of a trial.
pub fn load_entry(
    backend: Backend,
    scale: usize,
    server_load: &str,
    client_load: &str,
) -> (text: String)
    ensures
        text@ == load_entry_text(backend, scale, server_load@, client_load@),
{
    let mut text: String = text::decimal(scale);
    text.append(" ");
    text.append(backend.name());
    text.append(" ");
    text.append(server_load);
    text.append(" ");
    text.append(client_load);
    text.append("\n");
    text
}

/// An optional text stands for all its characters.
pub proof fn optional_texts_are_seen_whole(s: Option<String>)
    ensures
        s matches Some(text) ==> text_of(s) == Some(text@),
        s is None ==> text_of(s) is None,
{
}

} // verus!
