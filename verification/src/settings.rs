//! What a campaign is asked to do.
use crate::text;
use vstd::prelude::*;
use vstd::string::*;

verus! {

/// The file that gets the load averages of all trials.
pub const LOAD_LOG: &'static str = "load.log";

/// The loads that are run where none is asked for.
pub open spec fn usual_scales() -> Seq<usize> {
    seq![
        100,
        400,
        800,
        1000,
        1250,
        1500,
        2000,
        2500,
        3000,
        3500,
        4000,
        4500,
        5000,
        5500,
        6000,
        6500,
        7000,
        7500,
        8000,
        8500,
        9000,
        9500,
        10_000,
    ]
}

/// The loads of a campaign: those that were asked for, in their order, each `None` where the text
/// is no number; or else the usual ones.
pub open spec fn scales_of(asked: Option<Seq<Seq<char>>>) -> Seq<Option<usize>> {
    match asked {
        Some(texts) => texts.map_values(|t: Seq<char>| text::count_of(t)),
        None => usual_scales().map_values(|n: usize| Some(n)),
    }
}

/// What a list of texts stands for.
pub open spec fn text_views(texts: Option<Vec<String>>) -> Option<Seq<Seq<char>>> {
    match texts {
        Some(texts) => Some(texts@.map_values(|t: String| t@)),
        None => None,
    }
}

/// The loads of a campaign.
pub fn scales(asked: &Option<Vec<String>>) -> (scales: Vec<Option<usize>>)
    ensures
        scales@ == scales_of(text_views(*asked)),
{
    let mut scales: Vec<Option<usize>> = Vec::new();
    match asked {
        Some(texts) => {
            let mut i: usize = 0;
            while i < texts.len()
                invariant
                    i <= texts.len(),
                    scales@.len() == i,
                    forall|j: int|
                        0 <= j < i ==> #[trigger] scales@[j] == text::count_of(texts@[j]@),
                decreases texts.len() - i,
            {
                scales.push(text::parse_count(texts[i].as_str()));
                i = i + 1;
            }
        },
        None => {
            let usual: [usize; 23] = [
                100,
                400,
                800,
                1000,
                1250,
                1500,
                2000,
                2500,
                3000,
                3500,
                4000,
                4500,
                5000,
                5500,
                6000,
                6500,
                7000,
                7500,
                8000,
                8500,
                9000,
                9500,
                10_000,
            ];
            assert(usual@ == usual_scales());
            let mut i: usize = 0;
            while i < 23
                invariant
                    i <= 23,
                    usual@ == usual_scales(),
                    scales@.len() == i,
                    forall|j: int| 0 <= j < i ==> #[trigger] scales@[j] == Some(usual@[j]),
                decreases 23 - i,
            {
                scales.push(Some(usual[i]));
                i = i + 1;
            }
        },
    }
    assert(scales@ == scales_of(text_views(*asked)));
    scales
}

/// How the load log is opened: it is kept where loads were asked for, and begun anew where the
/// usual ones are run. What it is begun with is its header.
pub open spec fn load_log_header_of(asked: Option<Seq<Seq<char>>>) -> Option<Seq<char>> {
    match asked {
        Some(_) => None,
        None => Some("#reqscale backend sload1 sload5 cload1 cload5\n"@),
    }
}

/// The header with which the load log is begun anew; `None` where an old log is added to.
pub fn load_log_header(asked: &Option<Vec<String>>) -> (header: Option<&'static str>)
    ensures
        match header {
            Some(header) => load_log_header_of(text_views(*asked)) == Some(header@),
            None => load_log_header_of(text_views(*asked)) is None,
        },
        header is Some <==> *asked is None,
{
    match asked {
        Some(_) => None,
        None => Some("#reqscale backend sload1 sload5 cload1 cload5\n"),
    }
}

/// The usual loads are numbers, and each is heavier than the one before.
pub proof fn the_usual_loads_grow()
    ensures
        forall|i: int|
            0 <= i < scales_of(None).len() ==> #[trigger] scales_of(None)[i] == Some(
                usual_scales()[i],
            ),
        forall|i: int, j: int|
            0 <= i < j < usual_scales().len() ==> #[trigger] usual_scales()[i]
                < #[trigger] usual_scales()[j],
{
}

/// Loads that are asked for in decimal are those that are run, in the same order.
pub proof fn asked_loads_are_run(loads: Seq<usize>)
    ensures
        scales_of(Some(loads.map_values(|n: usize| text::decimal_of(n as nat))))
            == loads.map_values(|n: usize| Some(n)),
{
    let texts = loads.map_values(|n: usize| text::decimal_of(n as nat));
    assert forall|i: int| 0 <= i < loads.len() implies scales_of(Some(texts))[i] == Some(
        #[trigger] loads[i],
    ) by {
        text::decimals_read_back(loads[i]);
    }
    assert(scales_of(Some(texts)) == loads.map_values(|n: usize| Some(n)));
}

/// The load log is begun anew exactly where no loads were asked for, however many were: then with
/// the names of its columns, on a line of their own.
pub proof fn only_the_usual_loads_begin_the_log_anew(asked: Option<Seq<Seq<char>>>)
    ensures
        load_log_header_of(asked) is Some <==> asked is None,
        load_log_header_of(asked) matches Some(header) ==> header
            == "#reqscale backend sload1 sload5 cload1 cload5\n"@,
{
}

/// As many loads are run as were asked for. Which one stands at a place depends on what was asked
/// for there alone, and is the number that this text writes.
pub proof fn each_text_asks_for_its_own_load(texts: Seq<Seq<char>>, i: int)
    requires
        0 <= i < texts.len(),
    ensures
        scales_of(Some(texts)).len() == texts.len(),
        scales_of(Some(texts))[i] == text::count_of(texts[i]),
        scales_of(Some(texts.take(i))) == scales_of(Some(texts)).take(i),
{
    assert(scales_of(Some(texts.take(i))) == scales_of(Some(texts)).take(i));
}

/// The usual loads are six light ones, and then every multiple of 500 from 2000 to 10000.
pub proof fn the_usual_loads_go_up_to_ten_thousand(i: int)
    ensures
        scales_of(None).len() == 23,
        6 <= i < 23 ==> scales_of(None)[i] == Some((500 * (i - 2)) as usize),
        scales_of(None).take(6) == seq![
            Some(100usize),
            Some(400usize),
            Some(800usize),
            Some(1000usize),
            Some(1250usize),
            Some(1500usize),
        ],
{
    assert(scales_of(None).take(6) == seq![
        Some(100usize),
        Some(400usize),
        Some(800usize),
        Some(1000usize),
        Some(1250usize),
        Some(1500usize),
    ]);
}

/// What was asked for is looked at whole: every text, with all its characters.
pub proof fn asked_texts_are_seen_whole(texts: Vec<String>, i: int)
    requires
        0 <= i < texts@.len(),
    ensures
        text_views(None) is None,
        text_views(Some(texts)) matches Some(seen) && seen.len() == texts@.len() && seen[i]
            == texts@[i]@,
{
}

} // verus!
