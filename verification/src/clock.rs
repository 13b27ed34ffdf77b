//! The time of day in messages.
use crate::exchange::Phase;
use crate::text;
use vstd::prelude::*;
use vstd::string::*;

verus! {

/// `n` as two decimal digits.
pub open spec fn two_digits(n: u32) -> Seq<char> {
    seq![text::digit_char((n / 10) as nat), text::digit_char((n % 10) as nat)]
}

/// The time of day as hours, minutes and seconds, two digits each, with colons between them.
pub open spec fn clock_text(hour: u32, minute: u32, second: u32) -> Seq<char> {
    two_digits(hour) + ":"@ + two_digits(minute) + ":"@ + two_digits(second)
}

/// The numbers are a time of day.
pub open spec fn is_time(hour: u32, minute: u32, second: u32) -> bool {
    hour < 24 && minute < 60 && second < 60
}

/// The message that announces `phase` at a time of day.
pub open spec fn phase_note_text(phase: Phase, hour: u32, minute: u32, second: u32) -> Seq<char> {
    " -> "@ + phase.words_text() + " at "@ + clock_text(hour, minute, second)
}

/// Calls `chrono::NaiveTime::format` with `%H:%M:%S`. It is taken to write each of the three
/// numbers with two digits, a zero in front where it needs one, and a colon between them.
#[verifier::external_body]
fn format_clock(hour: u32, minute: u32, second: u32) -> (text: String)
    requires
        is_time(hour, minute, second),
    ensures
        text@ == clock_text(hour, minute, second),
{
    chrono::NaiveTime::from_hms_opt(hour, minute, second).unwrap().format("%H:%M:%S").to_string()
}

/// The message that announces `phase` at a time of day.
pub fn phase_note(phase: Phase, hour: u32, minute: u32, second: u32) -> (note: String)
    requires
        is_time(hour, minute, second),
    ensures
        note@ == phase_note_text(phase, hour, minute, second),
{
    let mut note: String = String::from_str(" -> ");
    note.append(phase.words());
    note.append(" at ");
    note.append(format_clock(hour, minute, second).as_str());
    note
}

/// The hour, the minute and the second are each written as the decimal number that they are, with a
/// zero in front where this has one digit only.
pub proof fn times_are_written_in_decimal(n: u32)
    requires
        n < 100,
    ensures
        two_digits(n) == (if n < 10 {
            "0"@ + text::decimal_of(n as nat)
        } else {
            text::decimal_of(n as nat)
        }),
{
    reveal_strlit("0");
    let (tens, ones) = ((n / 10) as nat, (n % 10) as nat);
    if n < 10 {
        assert(two_digits(n) == "0"@ + text::decimal_of(n as nat));
    } else {
        assert(text::decimal_of(tens) == seq![text::digit_char(tens)]);
        assert(two_digits(n) == text::decimal_of(tens).push(text::digit_char(ones)));
    }
}

/// An announcement tells the phase, and then the time of day: the last eight characters are the
/// hour, the minute and the second, in this order, with colons between them.
pub proof fn announcements_end_with_the_time(phase: Phase, hour: u32, minute: u32, second: u32)
    ensures
        ({
            let note = phase_note_text(phase, hour, minute, second);
            let n = note.len() as int;
            &&& n >= 8
            &&& note.take(n - 8) == " -> "@ + phase.words_text() + " at "@
            &&& note.subrange(n - 8, n - 6) == two_digits(hour)
            &&& note[n - 6] == ':'
            &&& note.subrange(n - 5, n - 3) == two_digits(minute)
            &&& note[n - 3] == ':'
            &&& note.skip(n - 2) == two_digits(second)
        }),
        is_time(hour, minute, second) <==> hour <= 23 && minute <= 59 && second <= 59,
{
    reveal_strlit(":");
    let note = phase_note_text(phase, hour, minute, second);
    let n = note.len() as int;
    assert(note.take(n - 8) == " -> "@ + phase.words_text() + " at "@);
    assert(note.subrange(n - 8, n - 6) == two_digits(hour));
    assert(note.subrange(n - 5, n - 3) == two_digits(minute));
    assert(note.skip(n - 2) == two_digits(second));
}

} // verus!
