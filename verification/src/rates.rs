//! The rates that the benchmark client reports in its log.
use crate::text;
use vstd::prelude::*;
use vstd::string::*;

verus! {

/// Which of the two rates a line reports.
#[derive(Clone, Copy, Debug, PartialEq, Eq, Structural)]
pub enum Rate {
    /// The operations per second that were asked for.
    Target,
    /// The operations per second that were reached.
    Achieved,
}

/// The rate that a line of the log reports, and the text of its figure: what stands behind the
/// line's last space.
pub open spec fn rate_of(line: Seq<char>) -> Option<(Rate, Seq<char>)> {
    if "# target ops/s"@.is_prefix_of(line) {
        Some((Rate::Target, text::last_field_of(line, ' ')))
    } else if "# achieved ops/s"@.is_prefix_of(line) {
        Some((Rate::Achieved, text::last_field_of(line, ' ')))
    } else {
        None
    }
}

/// Reads the rate that a line of the log reports, and the text of its figure.
pub fn read_rate(line: &str) -> (rate: Option<(Rate, String)>)
    ensures
        match rate {
            Some((kind, figure)) => rate_of(line@) == Some((kind, figure@)),
            None => rate_of(line@) is None,
        },
{
    if text::begins_with(line, "# target ops/s") {
        Some((Rate::Target, String::from_str(text::last_field(line, ' '))))
    } else if text::begins_with(line, "# achieved ops/s") {
        Some((Rate::Achieved, String::from_str(text::last_field(line, ' '))))
    } else {
        None
    }
}

/// The rates that were found so far, with figures of any kind.
#[derive(Debug)]
pub struct RateScan<T> {
    pub target: Option<T>,
    pub achieved: Option<T>,
}

impl<T: Copy> RateScan<T> {
    /// Nothing was found.
    pub open spec fn nothing() -> RateScan<T> {
        RateScan { target: None, achieved: None }
    }

    /// What is known once a line has been read: a figure takes the place of an earlier one of
    /// its kind.
    pub open spec fn after(self, found: Option<(Rate, T)>) -> RateScan<T> {
        match found {
            Some((Rate::Target, figure)) => (RateScan { target: Some(figure), ..self }),
            Some((Rate::Achieved, figure)) => (RateScan { achieved: Some(figure), ..self }),
            None => self,
        }
    }

    /// The target and the achieved rate, once both are known.
    pub open spec fn both(self) -> Option<(T, T)> {
        match (self.target, self.achieved) {
            (Some(target), Some(achieved)) => Some((target, achieved)),
            _ => None,
        }
    }

    /// A scan of which no line was read.
    pub fn new() -> (scan: RateScan<T>)
        ensures
            scan == RateScan::<T>::nothing(),
    {
        RateScan { target: None, achieved: None }
    }

    /// Takes in what one line reports. Gives the target and the achieved rate, in this order, as
    /// soon as both are known. These decide, as in `deciding_pair`: the caller then reads no
    /// further line.
    pub fn feed(&mut self, found: Option<(Rate, T)>) -> (rates: Option<(T, T)>)
        ensures
            *final(self) == old(self).after(found),
            rates == final(self).both(),
            found is None ==> *final(self) == *old(self),
            found matches Some((Rate::Target, figure)) ==> final(self).target == Some(figure)
                && final(self).achieved == old(self).achieved,
            found matches Some((Rate::Achieved, figure)) ==> final(self).achieved == Some(figure)
                && final(self).target == old(self).target,
            rates is Some <==> final(self).target is Some && final(self).achieved is Some,
            rates matches Some((target, achieved)) ==> final(self).target == Some(target)
                && final(self).achieved == Some(achieved),
    {
        match found {
            Some((rate, figure)) => match rate {
                Rate::Target => {
                    self.target = Some(figure);
                },
                Rate::Achieved => {
                    self.achieved = Some(figure);
                },
            },
            None => {},
        }
        match (self.target, self.achieved) {
            (Some(target), Some(achieved)) => Some((target, achieved)),
            _ => None,
        }
    }
}

/// What is known once lines that report `found` have been read.
pub open spec fn scan_of<T: Copy>(found: Seq<Option<(Rate, T)>>) -> RateScan<T>
    decreases found.len(),
{
    if found.len() == 0 {
        RateScan::nothing()
    } else {
        scan_of(found.drop_last()).after(found.last())
    }
}

/// The figure that the line `i` reports is the latest of its kind.
pub open spec fn latest<T>(found: Seq<Option<(Rate, T)>>, rate: Rate, i: int, figure: T) -> bool {
    &&& 0 <= i < found.len()
    &&& found[i] == Some((rate, figure))
    &&& forall|j: int|
        i < j < found.len() ==> match #[trigger] found[j] {
            Some((kind, _)) => kind != rate,
            None => true,
        }
}

/// A scan knows a rate exactly where some line reported it, and then by the latest such line.
pub proof fn the_latest_figure_counts<T: Copy>(found: Seq<Option<(Rate, T)>>, figure: T)
    ensures
        scan_of(found).target == Some(figure) <==> exists|i: int|
            latest(found, Rate::Target, i, figure),
        scan_of(found).achieved == Some(figure) <==> exists|i: int|
            latest(found, Rate::Achieved, i, figure),
    decreases found.len(),
{
    if found.len() > 0 {
        let earlier = found.drop_last();
        the_latest_figure_counts(earlier, figure);
        lemma_latest_goes_on(found, Rate::Target, figure);
        lemma_latest_goes_on(found, Rate::Achieved, figure);
    }
}

/// How the latest figure of a kind changes with one more line.
proof fn lemma_latest_goes_on<T: Copy>(found: Seq<Option<(Rate, T)>>, rate: Rate, figure: T)
    requires
        found.len() > 0,
    ensures
        (exists|i: int| latest(found, rate, i, figure)) <==> match found.last() {
            Some((kind, value)) => if kind == rate {
                value == figure
            } else {
                exists|i: int| latest(found.drop_last(), rate, i, figure)
            },
            None => exists|i: int| latest(found.drop_last(), rate, i, figure),
        },
{
    let earlier = found.drop_last();
    let n = found.len() - 1;
    assert(found[n] == found.last());
    let newest = match found.last() {
        Some((kind, _)) => kind == rate,
        None => false,
    };
    if newest {
        if exists|i: int| latest(found, rate, i, figure) {
            let i = choose|i: int| latest(found, rate, i, figure);
            assert(i == n);
        }
        if found.last() == Some((rate, figure)) {
            assert(latest(found, rate, n, figure));
        }
    } else {
        if exists|i: int| latest(found, rate, i, figure) {
            let i = choose|i: int| latest(found, rate, i, figure);
            assert(i < n);
            assert forall|j: int| i < j < earlier.len() implies match #[trigger] earlier[j] {
                Some((kind, _)) => kind != rate,
                None => true,
            } by {
                assert(found[j] == earlier[j]);
            }
            assert(latest(earlier, rate, i, figure));
        }
        if exists|i: int| latest(earlier, rate, i, figure) {
            let i = choose|i: int| latest(earlier, rate, i, figure);
            assert forall|j: int| i < j < found.len() implies match #[trigger] found[j] {
                Some((kind, _)) => kind != rate,
                None => true,
            } by {
                if j < n {
                    assert(found[j] == earlier[j]);
                }
            }
            assert(latest(found, rate, i, figure));
        }
    }
}

/// The target and the achieved rate that decide, of a log whose lines report `found`: those that
/// are known at the first line at which both are. `None` where the log never gives both.
pub open spec fn deciding_pair<T: Copy>(found: Seq<Option<(Rate, T)>>) -> Option<(T, T)>
    decreases found.len(),
{
    if found.len() == 0 {
        None
    } else if deciding_pair(found.drop_last()) is Some {
        deciding_pair(found.drop_last())
    } else {
        scan_of(found).both()
    }
}

/// A line that reports `found` reports `rate`.
pub open spec fn reports<T>(found: Option<(Rate, T)>, rate: Rate) -> bool {
    match found {
        Some((kind, _)) => kind == rate,
        None => false,
    }
}

/// One of the lines that report `found` reports `rate`.
pub open spec fn is_reported<T>(found: Seq<Option<(Rate, T)>>, rate: Rate) -> bool {
    exists|i: int| 0 <= i < found.len() && reports(#[trigger] found[i], rate)
}

/// Whether a rate is reported, with one more line.
proof fn lemma_reported_goes_on<T>(found: Seq<Option<(Rate, T)>>, rate: Rate)
    requires
        found.len() > 0,
    ensures
        is_reported(found, rate) <==> reports(found.last(), rate) || is_reported(
            found.drop_last(),
            rate,
        ),
{
    let earlier = found.drop_last();
    assert(found[found.len() - 1] == found.last());
    if is_reported(found, rate) {
        let i = choose|i: int| 0 <= i < found.len() && reports(#[trigger] found[i], rate);
        assert(i < earlier.len() ==> earlier[i] == found[i]);
    }
    if is_reported(earlier, rate) {
        let i = choose|i: int| 0 <= i < earlier.len() && reports(#[trigger] earlier[i], rate);
        assert(found[i] == earlier[i]);
    }
}

/// A scan knows a rate exactly where some line reported it.
proof fn lemma_known_where_reported<T: Copy>(found: Seq<Option<(Rate, T)>>)
    ensures
        scan_of(found).target is Some <==> is_reported(found, Rate::Target),
        scan_of(found).achieved is Some <==> is_reported(found, Rate::Achieved),
    decreases found.len(),
{
    if found.len() > 0 {
        lemma_known_where_reported(found.drop_last());
        lemma_reported_goes_on(found, Rate::Target);
        lemma_reported_goes_on(found, Rate::Achieved);
    }
}

/// The line at which both rates become known reports one of them, and no line before it reported
/// that one. The rates that are then known are the figure of that line, and the latest figure of
/// the other rate.
pub proof fn the_deciding_line_is_the_first_of_its_rate<T: Copy>(found: Seq<Option<(Rate, T)>>)
    requires
        found.len() > 0,
        scan_of(found).both() is Some,
        scan_of(found.drop_last()).both() is None,
    ensures
        match (found.last(), scan_of(found).both()) {
            (Some((rate, figure)), Some((target, achieved))) => {
                &&& !is_reported(found.drop_last(), rate)
                &&& match rate {
                    Rate::Target => target == figure && exists|i: int|
                        latest(found, Rate::Achieved, i, achieved),
                    Rate::Achieved => achieved == figure && exists|i: int|
                        latest(found, Rate::Target, i, target),
                }
            },
            _ => false,
        },
{
    lemma_known_where_reported(found.drop_last());
    match (found.last(), scan_of(found).both()) {
        (Some((rate, figure)), Some((target, achieved))) => {
            the_latest_figure_counts(found, target);
            the_latest_figure_counts(found, achieved);
        },
        _ => {},
    }
}

/// A log decides exactly where one of its lines reports the target rate and one the achieved rate.
pub proof fn a_log_decides_where_it_gives_both_rates<T: Copy>(found: Seq<Option<(Rate, T)>>)
    ensures
        deciding_pair(found) is Some <==> is_reported(found, Rate::Target) && is_reported(
            found,
            Rate::Achieved,
        ),
{
    lemma_decided_where_both_are_known(found);
    lemma_known_where_reported(found);
}

/// A log decides exactly where both rates are known at its end.
proof fn lemma_decided_where_both_are_known<T: Copy>(found: Seq<Option<(Rate, T)>>)
    ensures
        deciding_pair(found) is Some <==> scan_of(found).both() is Some,
    decreases found.len(),
{
    if found.len() > 0 {
        lemma_decided_where_both_are_known(found.drop_last());
    }
}

/// Once both rates are known, no further line counts: where the first `n` lines give both, and the
/// lines before the last of these do not, what the first `n` lines give decides.
pub proof fn the_first_pair_decides<T: Copy>(found: Seq<Option<(Rate, T)>>, n: int)
    requires
        0 < n <= found.len(),
        scan_of(found.take(n)).both() is Some,
        scan_of(found.take(n - 1)).both() is None,
    ensures
        deciding_pair(found) == scan_of(found.take(n)).both(),
    decreases found.len(),
{
    let earlier = found.drop_last();
    if n == found.len() {
        assert(found.take(n) == found);
        assert(found.take(n - 1) == earlier);
        lemma_decided_where_both_are_known(earlier);
    } else {
        assert(earlier.take(n) == found.take(n));
        assert(earlier.take(n - 1) == found.take(n - 1));
        the_first_pair_decides(earlier, n);
    }
}

/// A line that begins with the words of a rate reports that rate, and its figure is all that stands
/// behind the line's last space, however long that is. Where no space follows these words, it is
/// what stands behind the last space within them.
pub proof fn a_figure_is_read_whole(rest: Seq<char>, figure: Seq<char>)
    requires
        !figure.contains(' '),
    ensures
        rate_of("# target ops/s"@ + rest + " "@ + figure) == Some((Rate::Target, figure)),
        rate_of("# achieved ops/s"@ + rest + " "@ + figure) == Some((Rate::Achieved, figure)),
        rate_of("# target ops/s"@ + figure) == Some((Rate::Target, "ops/s"@ + figure)),
        rate_of("# achieved ops/s"@ + figure) == Some((Rate::Achieved, "ops/s"@ + figure)),
{
    lemma_words_of_rates();
    reveal_strlit(" ");
    let (t, a) = ("# target ops/s"@, "# achieved ops/s"@);
    let field = "ops/s"@ + figure;
    assert forall|i: int| 0 <= i < field.len() implies field[i] != ' ' by {
        if i >= "ops/s"@.len() {
            assert(figure.contains(figure[i - "ops/s"@.len()]));
        }
    }
    text::the_last_field_is_whole(t + rest, ' ', figure);
    text::the_last_field_is_whole(a + rest, ' ', figure);
    text::the_last_field_is_whole("# target"@, ' ', field);
    text::the_last_field_is_whole("# achieved"@, ' ', field);
    assert(t + rest + " "@ + figure == (t + rest).push(' ') + figure);
    assert(a + rest + " "@ + figure == (a + rest).push(' ') + figure);
    assert(t + figure == "# target"@.push(' ') + field);
    assert(a + figure == "# achieved"@.push(' ') + field);
    lemma_begins(t, rest + " "@ + figure);
    lemma_begins(a, rest + " "@ + figure);
    lemma_begins(t, figure);
    lemma_begins(a, figure);
    assert(t + (rest + " "@ + figure) == t + rest + " "@ + figure);
    assert(a + (rest + " "@ + figure) == a + rest + " "@ + figure);
}

/// Which rate a line reports is told by the words that it begins with. A line that begins otherwise
/// reports none.
pub proof fn lines_report_the_rate_that_they_begin_with(line: Seq<char>)
    ensures
        reports(rate_of(line), Rate::Target) <==> "# target ops/s"@.is_prefix_of(line),
        reports(rate_of(line), Rate::Achieved) <==> "# achieved ops/s"@.is_prefix_of(line),
        rate_of(line) is None <==> !"# target ops/s"@.is_prefix_of(line)
            && !"# achieved ops/s"@.is_prefix_of(line),
{
    lemma_words_of_rates();
    let (t, a) = ("# target ops/s"@, "# achieved ops/s"@);
    if t.is_prefix_of(line) {
        assert(line[2] == t[2]);
    }
    if a.is_prefix_of(line) {
        assert(line[2] == a[2]);
    }
}

/// A text begins with its head.
proof fn lemma_begins(head: Seq<char>, rest: Seq<char>)
    ensures
        head.is_prefix_of(head + rest),
{
    assert((head + rest).subrange(0, head.len() as int) == head);
}

/// The words in front of the figures, cut at their last space; neither begins with the other.
proof fn lemma_words_of_rates()
    ensures
        "# target ops/s"@ == "# target"@.push(' ') + "ops/s"@,
        "# achieved ops/s"@ == "# achieved"@.push(' ') + "ops/s"@,
        forall|i: int| 0 <= i < "ops/s"@.len() ==> "ops/s"@[i] != ' ',
        "# target ops/s"@.len() > 2,
        "# achieved ops/s"@.len() > 2,
        "# target ops/s"@[2] == 't',
        "# achieved ops/s"@[2] == 'a',
{
    reveal_strlit("# target ops/s");
    reveal_strlit("# achieved ops/s");
    reveal_strlit("# target");
    reveal_strlit("# achieved");
    reveal_strlit("ops/s");
    assert("# target ops/s"@ == "# target"@.push(' ') + "ops/s"@);
    assert("# achieved ops/s"@ == "# achieved"@.push(' ') + "ops/s"@);
}

} // verus!
