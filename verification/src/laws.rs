//! What holds of every campaign, whatever it is told.
use crate::backend::{Backend, Survivors, BACKENDS};
use crate::backend;
use crate::campaign::{CampaignView, Place};
use crate::campaign;
use crate::command;
use crate::exchange::{ActionView, Host, ReplyView};
use crate::exchange;
use crate::orders;
use crate::plan::Op;
use crate::plan;
use crate::text;
use crate::trial::{JobView, TrialView};
use crate::trial;
use vstd::prelude::*;

verus! {

/// The campaign `start` after `replies` have come back, in order.
pub open spec fn run(start: CampaignView, replies: Seq<ReplyView>) -> CampaignView
    decreases replies.len(),
{
    if replies.len() == 0 {
        start
    } else {
        run(start, replies.drop_last()).next(replies.last())
    }
}

/// Each of `replies` can come back when it does.
pub open spec fn legal(start: CampaignView, replies: Seq<ReplyView>) -> bool
    decreases replies.len(),
{
    replies.len() == 0 || {
        &&& legal(start, replies.drop_last())
        &&& run(start, replies.drop_last()).accepts(replies.last())
    }
}

/// The campaign is in the trial of `backend` under the load at `index`.
pub open spec fn in_trial(state: CampaignView, index: int, backend: Backend) -> bool {
    match state.place {
        Place::Trial { index: at, scale, backend: current, step } => at == index && current
            == backend,
        _ => false,
    }
}

/// While `replies` come back, the campaign is at some time in the trial of `backend` under the
/// load at `index`.
pub open spec fn visits(
    start: CampaignView,
    replies: Seq<ReplyView>,
    index: int,
    backend: Backend,
) -> bool
    decreases replies.len(),
{
    in_trial(run(start, replies), index, backend) || (replies.len() > 0 && visits(
        start,
        replies.drop_last(),
        index,
        backend,
    ))
}

/// The entries that are written to the load log while `replies` come back.
pub open spec fn entries(start: CampaignView, replies: Seq<ReplyView>) -> Seq<Seq<char>>
    decreases replies.len(),
{
    if replies.len() == 0 {
        seq![]
    } else {
        let earlier = entries(start, replies.drop_last());
        match (run(start, replies.drop_last()).action(), replies.last()) {
            (ActionView::Record { entry }, ReplyView::Done) => earlier.push(entry),
            _ => earlier,
        }
    }
}

/// The trial of `backend` under the load at `index`, as a number in the order of all trials.
pub open spec fn rank(index: int, backend: Backend) -> int {
    BACKENDS * index + backend.turn()
}

/// The first trial that is not over, as a number in the order of all trials.
pub open spec fn front(state: CampaignView) -> int {
    match state.place {
        Place::Opening => 0,
        Place::Trial { index, scale, backend, step } => rank(index as int, backend),
        Place::BadScale { index } => BACKENDS * index,
        Place::Finished => BACKENDS * state.job.scales.len(),
        Place::Aborted => 0,
    }
}

/// Whatever comes back, a campaign stays in good order, and its job stays what it was.
pub proof fn campaigns_stay_well_formed(start: CampaignView, replies: Seq<ReplyView>)
    requires
        start.well_formed(),
        legal(start, replies),
    ensures
        run(start, replies).well_formed(),
        run(start, replies).job == start.job,
        replies.len() > 0 ==> !(run(start, replies).place is Opening),
    decreases replies.len(),
{
    if replies.len() > 0 {
        campaigns_stay_well_formed(start, replies.drop_last());
        campaign::lemma_next_is_well_formed(run(start, replies.drop_last()), replies.last());
    }
}

/// A campaign waits for a reply exactly as long as it has not ended.
pub proof fn a_campaign_ends_or_goes_on(state: CampaignView)
    requires
        state.well_formed(),
    ensures
        state.ended() <==> !(exists|reply: ReplyView| #[trigger] state.accepts(reply)),
{
    match state.place {
        Place::Opening => {
            assert(state.accepts(ReplyView::Output { text: Seq::empty() }));
        },
        Place::Trial { index, scale, backend, step } => {
            match state.ops(backend)[step as int] {
                Op::Announced { phase } => {
                    assert(state.accepts(ReplyView::Time { hour: 0, minute: 0, second: 0 }));
                },
                Op::JudgeLoad => {
                    assert(state.accepts(ReplyView::Overload { overloaded: false }));
                },
                Op::JudgeRates => {
                    assert(state.accepts(ReplyView::Rates { behind: false }));
                },
                _ => {
                    assert(state.accepts(ReplyView::Done) || state.accepts(
                        ReplyView::Output { text: Seq::empty() },
                    ));
                },
            }
        },
        _ => {},
    }
}

/// A failure ends a campaign at once, and for good.
pub proof fn a_failure_is_final(state: CampaignView, reason: Seq<char>)
    requires
        state.accepts(ReplyView::Failed { reason }),
    ensures
        state.next(ReplyView::Failed { reason }).place is Aborted,
        state.next(ReplyView::Failed { reason }).action() is Abort,
        forall|reply: ReplyView|
            !#[trigger] state.next(ReplyView::Failed { reason }).accepts(reply),
{
}

/// What `seek` finds: the trials that it passes over are those of backends that take no part, and
/// the one that it stops at is due.
proof fn lemma_seek(scales: Seq<Option<usize>>, survivors: Survivors, index: int, turn: int)
    requires
        scales.len() <= usize::MAX,
        0 <= index <= scales.len(),
        0 <= turn <= BACKENDS,
        turn > 0 ==> index < scales.len() && scales[index] is Some,
    ensures
        match campaign::seek(scales, survivors, index, turn) {
            Place::Trial { index: i, scale, backend, step } => {
                &&& rank(i as int, backend) >= BACKENDS * index + turn
                &&& index <= i < scales.len()
                &&& step == 0
                &&& scales[i as int] == Some(scale)
                &&& survivors.has(backend)
                &&& forall|j: int| index <= j <= i ==> #[trigger] scales[j] is Some
                &&& forall|j: int, b: Backend|
                    BACKENDS * index + turn <= #[trigger] rank(j, b) < rank(i as int, backend)
                        ==> !survivors.has(b)
            },
            Place::BadScale { index: i } => {
                &&& BACKENDS * i >= BACKENDS * index + turn
                &&& index <= i < scales.len()
                &&& scales[i as int] is None
                &&& forall|j: int| index <= j < i ==> #[trigger] scales[j] is Some
                &&& forall|j: int, b: Backend|
                    BACKENDS * index + turn <= #[trigger] rank(j, b) < BACKENDS * i
                        ==> !survivors.has(b)
            },
            Place::Finished => {
                &&& forall|j: int| index <= j < scales.len() ==> #[trigger] scales[j] is Some
                &&& forall|j: int, b: Backend|
                    BACKENDS * index + turn <= #[trigger] rank(j, b) < BACKENDS * scales.len()
                        ==> !survivors.has(b)
            },
            _ => false,
        },
    decreases scales.len() - index, BACKENDS - turn,
{
    if index < scales.len() && scales[index] is Some {
        if turn >= BACKENDS {
            lemma_seek(scales, survivors, index + 1, 0);
        } else if !survivors.has(backend::turn_of(turn)) {
            lemma_seek(scales, survivors, index, turn + 1);
            assert forall|j: int, b: Backend| #[trigger]
                rank(j, b) == BACKENDS * index + turn implies b == backend::turn_of(turn) by {
                assert(b.turn() == turn);
            }
        }
    }
}

/// What `seek` finds is the beginning of a trial, or an end.
proof fn lemma_seek_starts_anew(
    scales: Seq<Option<usize>>,
    survivors: Survivors,
    index: int,
    turn: int,
)
    ensures
        match campaign::seek(scales, survivors, index, turn) {
            Place::Trial { index: i, scale, backend, step } => step == 0,
            Place::BadScale { index: i } => true,
            Place::Finished => true,
            _ => false,
        },
    decreases scales.len() - index, BACKENDS - turn,
{
    if index < scales.len() && scales[index] is Some {
        if turn >= BACKENDS {
            lemma_seek_starts_anew(scales, survivors, index + 1, 0);
        } else if !survivors.has(backend::turn_of(turn)) {
            lemma_seek_starts_anew(scales, survivors, index, turn + 1);
        }
    }
}

/// One reply moves a campaign forward, never back; and the trials that it passes over are those of
/// backends that take no part.
proof fn lemma_front_moves_on(state: CampaignView, reply: ReplyView)
    requires
        state.well_formed(),
        state.accepts(reply),
    ensures
        !(reply is Failed) ==> {
            &&& front(state.next(reply)) >= front(state)
            &&& match state.place {
                Place::Trial { index, scale, backend, step } => {
                    ||| front(state.next(reply)) > front(state)
                    ||| state.next(reply).place == Place::Trial {
                        index,
                        scale,
                        backend,
                        step: (step + 1) as usize,
                    }
                },
                _ => true,
            }
            &&& forall|j: int, b: Backend|
                front(state) <= #[trigger] rank(j, b) < front(state.next(reply)) ==> in_trial(
                    state,
                    j,
                    b,
                ) || !state.next(reply).survivors.has(b)
        },
        state.next(reply).survivors == (if reply == (ReplyView::Rates { behind: true }) {
            state.survivors.without(state.place->Trial_backend)
        } else {
            state.survivors
        }),
{
    let after = state.next(reply);
    if !(reply is Failed) {
        match state.place {
            Place::Opening => {
                lemma_seek(state.job.scales, state.survivors, 0, 0);
            },
            Place::Trial { index, scale, backend, step } => {
                if step + 1 >= state.ops(backend).len() {
                    lemma_seek(
                        state.job.scales,
                        after.survivors,
                        index as int,
                        backend.turn() + 1,
                    );
                    assert forall|j: int, b: Backend| #[trigger]
                        rank(j, b) == rank(index as int, backend) implies j == index && b
                        == backend by {
                        assert(b.turn() == backend.turn());
                    }
                }
            },
            _ => {},
        }
    }
}

/// A backend is dropped only when it is told to have fallen behind, and then no other is. That the
/// server is overloaded drops none, nor does a log without both rates.
pub proof fn only_falling_behind_drops_a_backend(state: CampaignView, reply: ReplyView, b: Backend)
    requires
        state.well_formed(),
        state.accepts(reply),
    ensures
        state.next(reply).survivors.has(b) <==> state.survivors.has(b) && !(reply == (
        ReplyView::Rates { behind: true }) && state.place->Trial_backend == b),
{
    lemma_front_moves_on(state, reply);
}

/// A backend that takes no part takes none for the rest of the campaign, at any load.
pub proof fn dropped_for_good(start: CampaignView, replies: Seq<ReplyView>, backend: Backend)
    requires
        start.well_formed(),
        legal(start, replies),
        !start.survivors.has(backend),
    ensures
        !run(start, replies).survivors.has(backend),
        forall|index: int| !#[trigger] visits(start, replies, index, backend),
    decreases replies.len(),
{
    campaigns_stay_well_formed(start, replies);
    if replies.len() > 0 {
        let earlier = replies.drop_last();
        dropped_for_good(start, earlier, backend);
        campaigns_stay_well_formed(start, earlier);
        only_falling_behind_drops_a_backend(run(start, earlier), replies.last(), backend);
        assert forall|index: int| !#[trigger] visits(start, replies, index, backend) by {
            assert(!visits(start, earlier, index, backend));
        }
    }
}

/// A backend that fell behind is never tried again, at any load.
pub proof fn fallen_behind_never_runs_again(state: CampaignView, replies: Seq<ReplyView>)
    requires
        state.well_formed(),
        state.accepts(ReplyView::Rates { behind: true }),
        legal(state.next(ReplyView::Rates { behind: true }), replies),
    ensures
        forall|index: int| !#[trigger] visits(
            state.next(ReplyView::Rates { behind: true }),
            replies,
            index,
            state.place->Trial_backend,
        ),
{
    let reply = ReplyView::Rates { behind: true };
    campaign::lemma_next_is_well_formed(state, reply);
    only_falling_behind_drops_a_backend(state, reply, state.place->Trial_backend);
    dropped_for_good(state.next(reply), replies, state.place->Trial_backend);
}

/// A campaign never goes back: the trials to come are not before the one that it is at.
pub proof fn trials_come_in_order(
    start: CampaignView,
    replies: Seq<ReplyView>,
    index: int,
    backend: Backend,
)
    requires
        start.well_formed(),
        legal(start, replies),
        visits(start, replies, index, backend),
    ensures
        front(start) <= rank(index, backend),
    decreases replies.len(),
{
    lemma_front_stays_ahead(start, replies);
    if !in_trial(run(start, replies), index, backend) {
        trials_come_in_order(start, replies.drop_last(), index, backend);
    }
}

/// Unless a campaign fails, it ends up at or behind the place where it began.
proof fn lemma_front_stays_ahead(start: CampaignView, replies: Seq<ReplyView>)
    requires
        start.well_formed(),
        legal(start, replies),
    ensures
        run(start, replies).place is Aborted || front(run(start, replies)) >= front(start),
    decreases replies.len(),
{
    if replies.len() > 0 {
        let earlier = replies.drop_last();
        lemma_front_stays_ahead(start, earlier);
        campaigns_stay_well_formed(start, earlier);
        lemma_front_moves_on(run(start, earlier), replies.last());
    }
}

/// A trial that is left is not run a second time.
pub proof fn each_trial_runs_once(
    state: CampaignView,
    reply: ReplyView,
    replies: Seq<ReplyView>,
    index: int,
    backend: Backend,
)
    requires
        state.well_formed(),
        in_trial(state, index, backend),
        state.accepts(reply),
        !in_trial(state.next(reply), index, backend),
        legal(state.next(reply), replies),
    ensures
        !visits(state.next(reply), replies, index, backend),
{
    let after = state.next(reply);
    campaign::lemma_next_is_well_formed(state, reply);
    lemma_front_moves_on(state, reply);
    if reply is Failed {
        lemma_nothing_follows_the_end(after, replies);
    } else if visits(after, replies, index, backend) {
        trials_come_in_order(after, replies, index, backend);
    }
}

/// No reply can come back once a campaign has ended.
proof fn lemma_nothing_follows_the_end(start: CampaignView, replies: Seq<ReplyView>)
    requires
        start.ended(),
        legal(start, replies),
    ensures
        replies.len() == 0,
    decreases replies.len(),
{
    if replies.len() > 0 {
        lemma_nothing_follows_the_end(start, replies.drop_last());
    }
}

/// Every trial before the front was run, or its backend has dropped out.
proof fn lemma_nothing_is_left_out(
    start: CampaignView,
    replies: Seq<ReplyView>,
    index: int,
    backend: Backend,
)
    requires
        start.well_formed(),
        legal(start, replies),
        front(start) <= rank(index, backend) < front(run(start, replies)),
        run(start, replies).survivors.has(backend),
    ensures
        visits(start, replies, index, backend),
    decreases replies.len(),
{
    if replies.len() > 0 {
        let earlier = replies.drop_last();
        let before = run(start, earlier);
        campaigns_stay_well_formed(start, earlier);
        lemma_front_moves_on(before, replies.last());
        only_falling_behind_drops_a_backend(before, replies.last(), backend);
        if rank(index, backend) < front(before) {
            lemma_nothing_is_left_out(start, earlier, index, backend);
        } else {
            assert(in_trial(before, index, backend));
            assert(visits(start, earlier, index, backend));
        }
    }
}

/// A campaign that finishes has tried every backend that did not drop out under every load. One
/// that stops at a load that is no number has done so for all loads before it.
pub proof fn survivors_run_under_every_load(
    job: JobView,
    replies: Seq<ReplyView>,
    index: int,
    backend: Backend,
)
    requires
        job.scales.len() <= usize::MAX,
        legal(CampaignView::start(job), replies),
        run(CampaignView::start(job), replies).survivors.has(backend),
        0 <= index,
        match run(CampaignView::start(job), replies).place {
            Place::Finished => index < job.scales.len(),
            Place::BadScale { index: bad } => index < bad,
            _ => false,
        },
    ensures
        visits(CampaignView::start(job), replies, index, backend),
{
    campaigns_stay_well_formed(CampaignView::start(job), replies);
    lemma_nothing_is_left_out(CampaignView::start(job), replies, index, backend);
}

/// A bound on the number of replies that can still come back.
pub open spec fn replies_left(state: CampaignView) -> int {
    match state.place {
        Place::Opening => plan::LONGEST_TRIAL * BACKENDS * state.job.scales.len() + 1,
        Place::Trial { index, scale, backend, step } => plan::LONGEST_TRIAL * (BACKENDS
            * state.job.scales.len() - rank(index as int, backend)) - step,
        _ => 0,
    }
}

/// Every reply brings a campaign nearer to its end.
proof fn lemma_replies_run_out(state: CampaignView, reply: ReplyView)
    requires
        state.well_formed(),
        state.accepts(reply),
    ensures
        0 <= replies_left(state.next(reply)) < replies_left(state),
{
    let after = state.next(reply);
    campaign::lemma_next_is_well_formed(state, reply);
    lemma_front_moves_on(state, reply);
    match state.place {
        Place::Trial { index, scale, backend, step } => {
            plan::lemma_longest_trial(backend, state.job.memlimit is Some);
        },
        _ => {},
    }
    match after.place {
        Place::Trial { index, scale, backend, step } => {
            plan::lemma_longest_trial(backend, state.job.memlimit is Some);
        },
        _ => {},
    }
}

/// A campaign ends: no more replies can come back than all trials have steps, and one.
pub proof fn campaigns_end(job: JobView, replies: Seq<ReplyView>)
    requires
        job.scales.len() <= usize::MAX,
        legal(CampaignView::start(job), replies),
    ensures
        replies.len() <= plan::LONGEST_TRIAL * BACKENDS * job.scales.len() + 1,
{
    lemma_replies_are_bounded(CampaignView::start(job), replies);
}

/// The replies that have come back and those that still can are no more than at the start.
proof fn lemma_replies_are_bounded(start: CampaignView, replies: Seq<ReplyView>)
    requires
        start.well_formed(),
        legal(start, replies),
    ensures
        replies.len() + replies_left(run(start, replies)) <= replies_left(start),
        replies.len() > 0 ==> 0 <= replies_left(run(start, replies)),
        replies.len() <= replies_left(start) || replies.len() == 0,
    decreases replies.len(),
{
    if replies.len() > 0 {
        lemma_replies_are_bounded(start, replies.drop_last());
        campaigns_stay_well_formed(start, replies.drop_last());
        lemma_replies_run_out(run(start, replies.drop_last()), replies.last());
    }
}

/// What one step of a trial does to the load averages, and what it writes to the load log.
#[verifier::rlimit(40)]
proof fn lemma_step_of_a_trial(state: CampaignView, reply: ReplyView, op: Op)
    requires
        state.place is Trial,
        op == state.ops(state.place->Trial_backend)[state.place->Trial_step as int],
        state.accepts(reply),
        !(reply is Failed),
    ensures
        state.next(reply).job == state.job,
        state.place->Trial_step + 1 < state.ops(state.place->Trial_backend).len() ==> state.next(
            reply,
        ).place == (Place::Trial {
            index: state.place->Trial_index,
            scale: state.place->Trial_scale,
            backend: state.place->Trial_backend,
            step: (state.place->Trial_step + 1) as usize,
        }),
        state.next(reply).server_load == (if op == Op::ReadServerLoad {
            text::without_trailing_space(reply->Output_text)
        } else {
            state.server_load
        }),
        state.next(reply).client_load == (if op == Op::ReadClientLoad {
            text::without_trailing_space(reply->Output_text)
        } else {
            state.client_load
        }),
        op == Op::RecordLoad ==> reply is Done && state.action() == (ActionView::Record {
            entry: command::load_entry_text(
                state.place->Trial_backend,
                state.place->Trial_scale,
                state.server_load,
                state.client_load,
            ),
        }),
        op != Op::RecordLoad ==> !(state.action() is Record),
{
}

/// `start` is at the beginning of a trial, `replies` are those to all its steps, none fails, and
/// the step `k` is the one that reads the server's load averages.
spec fn whole_trial(start: CampaignView, replies: Seq<ReplyView>, k: int) -> bool {
    &&& start.well_formed()
    &&& start.place is Trial
    &&& start.place->Trial_step == 0
    &&& legal(start, replies)
    &&& forall|i: int| 0 <= i < replies.len() ==> !(#[trigger] replies[i] is Failed)
    &&& replies.len() == start.ops(start.place->Trial_backend).len()
    &&& 0 <= k < replies.len()
    &&& start.ops(start.place->Trial_backend)[k] == Op::ReadServerLoad
}

/// The state of a trial after `n` of its steps.
#[verifier::spinoff_prover]
#[verifier::rlimit(40)]
proof fn lemma_within_a_trial(start: CampaignView, replies: Seq<ReplyView>, k: int, n: int)
    requires
        whole_trial(start, replies, k),
        0 <= n < replies.len(),
    ensures
        run(start, replies.take(n)).job == start.job,
        run(start, replies.take(n)).place == (Place::Trial {
            index: start.place->Trial_index,
            scale: start.place->Trial_scale,
            backend: start.place->Trial_backend,
            step: n as usize,
        }),
        run(start, replies.take(n)).accepts(replies[n]),
        k < n ==> run(start, replies.take(n)).server_load == text::without_trailing_space(
            replies[k]->Output_text,
        ),
        k + 1 < n ==> run(start, replies.take(n)).client_load == text::without_trailing_space(
            replies[k + 1]->Output_text,
        ),
    decreases n,
{
    let backend = start.place->Trial_backend;
    let ops = start.ops(backend);
    plan::lemma_load_is_read_and_recorded(backend, start.job.memlimit is Some, k);
    lemma_prefixes_are_legal(start, replies, n + 1);
    assert(replies.take(n + 1).drop_last() == replies.take(n));
    if n > 0 {
        lemma_within_a_trial(start, replies, k, n - 1);
        assert(replies.take(n).drop_last() == replies.take(n - 1));
        assert(replies.take(n).last() == replies[n - 1]);
        lemma_step_of_a_trial(run(start, replies.take(n - 1)), replies[n - 1], ops[n - 1]);
    }
}

/// The entries that the first `n` steps of a trial write.
#[verifier::spinoff_prover]
#[verifier::rlimit(40)]
proof fn lemma_entries_within_a_trial(start: CampaignView, replies: Seq<ReplyView>, k: int, n: int)
    requires
        whole_trial(start, replies, k),
        0 <= n <= replies.len(),
    ensures
        entries(start, replies.take(n)) == (if k + 2 < n {
            seq![
                command::load_entry_text(
                    start.place->Trial_backend,
                    start.place->Trial_scale,
                    text::without_trailing_space(replies[k]->Output_text),
                    text::without_trailing_space(replies[k + 1]->Output_text),
                ),
            ]
        } else {
            Seq::<Seq<char>>::empty()
        }),
    decreases n,
{
    let backend = start.place->Trial_backend;
    let ops = start.ops(backend);
    if n > 0 {
        plan::lemma_load_is_read_and_recorded(backend, start.job.memlimit is Some, k);
        lemma_entries_within_a_trial(start, replies, k, n - 1);
        lemma_within_a_trial(start, replies, k, n - 1);
        assert(replies.take(n).drop_last() == replies.take(n - 1));
        assert(replies.take(n).last() == replies[n - 1]);
        lemma_step_of_a_trial(run(start, replies.take(n - 1)), replies[n - 1], ops[n - 1]);
    }
}

/// What comes back first can come back without the rest.
proof fn lemma_prefixes_are_legal(start: CampaignView, replies: Seq<ReplyView>, n: int)
    requires
        legal(start, replies),
        0 <= n <= replies.len(),
    ensures
        legal(start, replies.take(n)),
    decreases replies.len() - n,
{
    if n == replies.len() {
        assert(replies.take(n) == replies);
    } else {
        lemma_prefixes_are_legal(start, replies, n + 1);
        assert(replies.take(n + 1).drop_last() == replies.take(n));
    }
}

/// A trial that does not fail writes one entry to the load log: its load, its backend, and the two
/// load averages as they were read, first the server's, without the white space at their end. The
/// server's are read in the step `k`, the client's in the one after it.
pub proof fn a_trial_writes_one_entry(start: CampaignView, replies: Seq<ReplyView>) -> (k: int)
    requires
        start.well_formed(),
        start.place is Trial,
        start.place->Trial_step == 0,
        legal(start, replies),
        forall|i: int| 0 <= i < replies.len() ==> !(#[trigger] replies[i] is Failed),
        replies.len() == start.ops(start.place->Trial_backend).len(),
    ensures
        0 <= k < replies.len() - 1,
        start.ops(start.place->Trial_backend)[k] == Op::ReadServerLoad,
        start.ops(start.place->Trial_backend)[k + 1] == Op::ReadClientLoad,
        entries(start, replies) == seq![
            command::load_entry_text(
                start.place->Trial_backend,
                start.place->Trial_scale,
                text::without_trailing_space(replies[k]->Output_text),
                text::without_trailing_space(replies[k + 1]->Output_text),
            ),
        ],
{
    let backend = start.place->Trial_backend;
    let k = plan::a_trial_reads_its_load(backend, start.job.memlimit is Some);
    lemma_entries_within_a_trial(start, replies, k, replies.len() as int);
    plan::lemma_load_is_read_and_recorded(backend, start.job.memlimit is Some, k);
    assert(replies.take(replies.len() as int) == replies);
    k
}

/// The trials that a campaign begins while `replies` come back, in order. Each is given by the
/// place of its load among all loads, and by its backend.
pub open spec fn trials(start: CampaignView, replies: Seq<ReplyView>) -> Seq<(int, Backend)>
    decreases replies.len(),
{
    if replies.len() == 0 {
        seq![]
    } else {
        let earlier = trials(start, replies.drop_last());
        match run(start, replies).place {
            Place::Trial { index, scale, backend, step } => if step == 0 {
                earlier.push((index as int, backend))
            } else {
                earlier
            },
            _ => earlier,
        }
    }
}

/// What the command of the step `op` printed in `trial`, where that step was done.
pub open spec fn told(
    start: CampaignView,
    replies: Seq<ReplyView>,
    trial: (int, Backend),
    op: Op,
) -> Option<Seq<char>>
    decreases replies.len(),
{
    if replies.len() == 0 {
        None
    } else {
        let before = run(start, replies.drop_last());
        if in_trial(before, trial.0, trial.1) && before.ops(trial.1)[before.place->Trial_step as int]
            == op && replies.last() is Output {
            Some(replies.last()->Output_text)
        } else {
            told(start, replies.drop_last(), trial, op)
        }
    }
}

/// `entry` is the line of the load log on `trial`: its load, its backend, and the load averages
/// that were read in it, first the server's, without the white space at their end.
pub open spec fn tells_of(
    start: CampaignView,
    replies: Seq<ReplyView>,
    trial: (int, Backend),
    entry: Seq<char>,
) -> bool {
    match (
        told(start, replies, trial, Op::ReadServerLoad),
        told(start, replies, trial, Op::ReadClientLoad),
    ) {
        (Some(server), Some(client)) => {
            &&& 0 <= trial.0 < start.job.scales.len()
            &&& start.job.scales[trial.0] is Some
            &&& entry == command::load_entry_text(
                trial.1,
                start.job.scales[trial.0]->0,
                text::without_trailing_space(server),
                text::without_trailing_space(client),
            )
        },
        _ => false,
    }
}

/// The trials begun so far come in order, and the current one is the last of them.
proof fn lemma_trials(job: JobView, replies: Seq<ReplyView>)
    requires
        job.scales.len() <= usize::MAX,
        legal(CampaignView::start(job), replies),
    ensures
        ({
            let begun = trials(CampaignView::start(job), replies);
            &&& forall|i: int, j: int|
                0 <= i < j < begun.len() ==> rank((#[trigger] begun[i]).0, begun[i].1) < rank(
                    (#[trigger] begun[j]).0,
                    begun[j].1,
                )
            &&& match run(CampaignView::start(job), replies).place {
                Place::Opening => begun.len() == 0,
                Place::Trial { index, scale, backend, step } => begun.len() > 0 && begun.last() == (
                    index as int,
                    backend,
                ),
                _ => true,
            }
        }),
    decreases replies.len(),
{
    let start = CampaignView::start(job);
    if replies.len() > 0 {
        let earlier = replies.drop_last();
        let before = run(start, earlier);
        lemma_trials(job, earlier);
        campaigns_stay_well_formed(start, earlier);
        campaigns_stay_well_formed(start, replies);
        lemma_front_moves_on(before, replies.last());
        match before.place {
            Place::Opening => {
                lemma_seek_starts_anew(job.scales, before.survivors, 0, 0);
            },
            Place::Trial { index, scale, backend, step } => {
                plan::lemma_longest_trial(backend, job.memlimit is Some);
                if !(replies.last() is Failed) && step + 1 >= before.ops(backend).len() {
                    lemma_seek_starts_anew(
                        job.scales,
                        before.next(replies.last()).survivors,
                        index as int,
                        backend.turn() + 1,
                    );
                }
            },
            _ => {},
        }
    }
}

/// The trials that a campaign begins are those that it is in at some time. Each is listed once, in
/// the order of all trials.
pub proof fn trials_are_listed_once_and_in_order(job: JobView, replies: Seq<ReplyView>)
    requires
        job.scales.len() <= usize::MAX,
        legal(CampaignView::start(job), replies),
    ensures
        forall|index: int, backend: Backend|
            trials(CampaignView::start(job), replies).contains((index, backend))
                <==> #[trigger] visits(CampaignView::start(job), replies, index, backend),
        forall|i: int, j: int|
            0 <= i < j < trials(CampaignView::start(job), replies).len() ==> rank(
                (#[trigger] trials(CampaignView::start(job), replies)[i]).0,
                trials(CampaignView::start(job), replies)[i].1,
            ) < rank(
                (#[trigger] trials(CampaignView::start(job), replies)[j]).0,
                trials(CampaignView::start(job), replies)[j].1,
            ),
    decreases replies.len(),
{
    let start = CampaignView::start(job);
    let begun = trials(start, replies);
    lemma_trials(job, replies);
    if replies.len() > 0 {
        let earlier = replies.drop_last();
        trials_are_listed_once_and_in_order(job, earlier);
        assert forall|index: int, backend: Backend|
            begun.contains((index, backend)) <==> #[trigger] visits(
                start,
                replies,
                index,
                backend,
            ) by {
            let before = trials(start, earlier);
            let trial = (index, backend);
            assert(before.contains(trial) <==> visits(start, earlier, index, backend));
            if before.contains(trial) {
                let i = choose|i: int| 0 <= i < before.len() && before[i] == trial;
                assert(begun[i] == trial);
            }
            if begun.contains(trial) && !before.contains(trial) {
                let i = choose|i: int| 0 <= i < begun.len() && begun[i] == trial;
                assert(i < before.len() ==> before[i] == trial);
            }
            if in_trial(run(start, replies), index, backend) {
                assert(begun[begun.len() - 1] == trial);
            }
        }
    }
}

/// The step of a trial that reads the server's load averages.
spec fn reading_step(backend: Backend, limited: bool) -> int {
    choose|k: int|
        0 <= k < plan::trial_ops(backend, limited).len() && plan::trial_ops(backend, limited)[k]
            == Op::ReadServerLoad
}

/// Where that step stands among the others.
proof fn lemma_reading_step(backend: Backend, limited: bool)
    ensures
        0 <= reading_step(backend, limited),
        reading_step(backend, limited) + 3 < plan::trial_ops(backend, limited).len(),
        forall|i: int|
            0 <= i < plan::trial_ops(backend, limited).len() ==> {
                let op = #[trigger] plan::trial_ops(backend, limited)[i];
                &&& (op == Op::ReadServerLoad <==> i == reading_step(backend, limited))
                &&& (op == Op::ReadClientLoad <==> i == reading_step(backend, limited) + 1)
                &&& (op == Op::RecordLoad <==> i == reading_step(backend, limited) + 2)
            },
{
    plan::a_trial_reads_its_load(backend, limited);
    plan::lemma_load_is_read_and_recorded(backend, limited, reading_step(backend, limited));
}

/// The load log as far as it is written tells of the trials begun so far, in their order. Only the
/// current trial can be missing, and it is until its entry is written.
spec fn log_is_kept(start: CampaignView, replies: Seq<ReplyView>) -> bool {
    let state = run(start, replies);
    let begun = trials(start, replies);
    let log = entries(start, replies);
    &&& log.len() <= begun.len() <= log.len() + 1
    &&& forall|i: int|
        0 <= i < log.len() ==> tells_of(start, replies, begun[i], #[trigger] log[i])
    &&& match state.place {
        Place::Trial { index, scale, backend, step } => {
            let k = reading_step(backend, state.job.memlimit is Some);
            let trial = (index as int, backend);
            let server = told(start, replies, trial, Op::ReadServerLoad);
            let client = told(start, replies, trial, Op::ReadClientLoad);
            &&& log.len() == begun.len() <==> step > k + 2
            &&& step > k ==> server is Some && state.server_load == text::without_trailing_space(
                server->0,
            )
            &&& step > k + 1 ==> client is Some && state.client_load
                == text::without_trailing_space(client->0)
        },
        Place::Aborted => true,
        _ => log.len() == begun.len(),
    }
}

/// What one more reply adds to the load log, and to what was read in a trial.
#[verifier::spinoff_prover]
#[verifier::rlimit(40)]
proof fn lemma_log_goes_on(job: JobView, replies: Seq<ReplyView>)
    requires
        job.scales.len() <= usize::MAX,
        legal(CampaignView::start(job), replies),
        replies.len() > 0,
        run(CampaignView::start(job), replies.drop_last()).place is Trial,
        log_is_kept(CampaignView::start(job), replies.drop_last()),
    ensures
        log_is_kept(CampaignView::start(job), replies),
{
    let start = CampaignView::start(job);
    let earlier = replies.drop_last();
    let reply = replies.last();
    let before = run(start, earlier);
    let backend = before.place->Trial_backend;
    let step = before.place->Trial_step as int;
    let current = (before.place->Trial_index as int, backend);
    let op = before.ops(backend)[step];
    campaigns_stay_well_formed(start, earlier);
    campaigns_stay_well_formed(start, replies);
    lemma_trials(job, earlier);
    lemma_reading_step(backend, job.memlimit is Some);
    plan::lemma_longest_trial(backend, job.memlimit is Some);
    let log = entries(start, earlier);
    let begun = trials(start, earlier);
    if !(reply is Failed) {
        lemma_step_of_a_trial(before, reply, op);
        if step + 1 >= before.ops(backend).len() {
            lemma_seek_starts_anew(
                job.scales,
                before.next(reply).survivors,
                current.0,
                backend.turn() + 1,
            );
        }
    }
    assert forall|i: int| 0 <= i < log.len() implies tells_of(
        start,
        replies,
        begun[i],
        #[trigger] log[i],
    ) by {
        assert(tells_of(start, earlier, begun[i], log[i]));
        if op == Op::ReadServerLoad || op == Op::ReadClientLoad {
            assert(begun[i] != begun[begun.len() - 1]);
        }
    }
    if op == Op::RecordLoad && !(reply is Failed) {
        assert(tells_of(start, replies, current, entries(start, replies).last()));
    }
    match run(start, replies).place {
        Place::Trial { index, scale, backend: next, step: at } => {
            lemma_reading_step(next, job.memlimit is Some);
        },
        _ => {},
    }
}

/// The load log is kept throughout.
proof fn lemma_log_is_kept(job: JobView, replies: Seq<ReplyView>)
    requires
        job.scales.len() <= usize::MAX,
        legal(CampaignView::start(job), replies),
    ensures
        log_is_kept(CampaignView::start(job), replies),
    decreases replies.len(),
{
    let start = CampaignView::start(job);
    if replies.len() > 0 {
        let earlier = replies.drop_last();
        lemma_log_is_kept(job, earlier);
        campaigns_stay_well_formed(start, earlier);
        match run(start, earlier).place {
            Place::Opening => {
                lemma_trials(job, earlier);
                lemma_seek_starts_anew(job.scales, run(start, earlier).survivors, 0, 0);
                match run(start, replies).place {
                    Place::Trial { index, scale, backend, step } => {
                        lemma_reading_step(backend, job.memlimit is Some);
                    },
                    _ => {},
                }
            },
            Place::Trial { index, scale, backend, step } => {
                lemma_log_goes_on(job, replies);
            },
            _ => {},
        }
    }
}

/// The load log of a campaign tells of the trials that it begins, of each once, and in their
/// order. When the campaign has ended without a failure, no trial is missing; a failure can leave
/// out the trial in which it comes, and no other.
pub proof fn the_load_log_tells_of_every_trial(job: JobView, replies: Seq<ReplyView>)
    requires
        job.scales.len() <= usize::MAX,
        legal(CampaignView::start(job), replies),
    ensures
        entries(CampaignView::start(job), replies).len() <= trials(
            CampaignView::start(job),
            replies,
        ).len() <= entries(CampaignView::start(job), replies).len() + 1,
        forall|i: int|
            0 <= i < entries(CampaignView::start(job), replies).len() ==> tells_of(
                CampaignView::start(job),
                replies,
                trials(CampaignView::start(job), replies)[i],
                #[trigger] entries(CampaignView::start(job), replies)[i],
            ),
        run(CampaignView::start(job), replies).place is Finished || run(
            CampaignView::start(job),
            replies,
        ).place is BadScale ==> entries(CampaignView::start(job), replies).len() == trials(
            CampaignView::start(job),
            replies,
        ).len(),
{
    lemma_log_is_kept(job, replies);
}

/// `service` was started while `replies` came back, and not stopped since.
pub open spec fn running(
    start: CampaignView,
    replies: Seq<ReplyView>,
    service: plan::Service,
) -> bool
    decreases replies.len(),
{
    replies.len() > 0 && {
        let before = run(start, replies.drop_last());
        let earlier = running(start, replies.drop_last(), service);
        match before.place {
            Place::Trial { index, scale, backend, step } => {
                let op = before.ops(backend)[step as int];
                if replies.last() is Failed {
                    earlier
                } else if plan::starts(op) == Some(service) {
                    true
                } else if plan::stops(op) == Some(service) {
                    false
                } else {
                    earlier
                }
            },
            _ => earlier,
        }
    }
}

/// What runs depends on the steps of the current trial alone.
#[verifier::spinoff_prover]
#[verifier::rlimit(40)]
proof fn lemma_running(job: JobView, replies: Seq<ReplyView>, service: plan::Service)
    requires
        job.scales.len() <= usize::MAX,
        legal(CampaignView::start(job), replies),
    ensures
        ({
            let state = run(CampaignView::start(job), replies);
            match state.place {
                Place::Trial { index, scale, backend, step } => running(
                    CampaignView::start(job),
                    replies,
                    service,
                ) == plan::runs_after(state.ops(backend), step as int, service),
                Place::Aborted => true,
                _ => !running(CampaignView::start(job), replies, service),
            }
        }),
    decreases replies.len(),
{
    let start = CampaignView::start(job);
    if replies.len() > 0 {
        let earlier = replies.drop_last();
        let before = run(start, earlier);
        lemma_running(job, earlier, service);
        campaigns_stay_well_formed(start, earlier);
        lemma_front_moves_on(before, replies.last());
        match before.place {
            Place::Opening => {
                lemma_seek_starts_anew(job.scales, before.survivors, 0, 0);
            },
            Place::Trial { index, scale, backend, step } => {
                let next = step + 1;
                if !(replies.last() is Failed) && next >= before.ops(backend).len() {
                    plan::nothing_runs_after_a_trial(backend, job.memlimit is Some, service);
                    lemma_seek_starts_anew(
                        job.scales,
                        before.next(replies.last()).survivors,
                        index as int,
                        backend.turn() + 1,
                    );
                }
            },
            _ => {},
        }
    }
}

/// Nothing runs when a trial begins, nor when a campaign ends without a failure.
pub proof fn nothing_runs_between_trials(
    job: JobView,
    replies: Seq<ReplyView>,
    service: plan::Service,
)
    requires
        job.scales.len() <= usize::MAX,
        legal(CampaignView::start(job), replies),
        match run(CampaignView::start(job), replies).place {
            Place::Trial { index, scale, backend, step } => step == 0,
            Place::Aborted => false,
            _ => true,
        },
    ensures
        !running(CampaignView::start(job), replies, service),
{
    lemma_running(job, replies, service);
}

/// When a backend is measured, what its trial starts is running, and nothing else.
pub proof fn only_the_backend_runs_when_it_is_measured(
    job: JobView,
    replies: Seq<ReplyView>,
    service: plan::Service,
)
    requires
        job.scales.len() <= usize::MAX,
        legal(CampaignView::start(job), replies),
        match run(CampaignView::start(job), replies).place {
            Place::Trial { index, scale, backend, step } => run(
                CampaignView::start(job),
                replies,
            ).ops(backend)[step as int] == Op::Measure,
            _ => false,
        },
    ensures
        running(CampaignView::start(job), replies, service) <==> exists|i: int|
            0 <= i < run(CampaignView::start(job), replies).ops(
                run(CampaignView::start(job), replies).place->Trial_backend,
            ).len() && plan::starts(
                #[trigger] run(CampaignView::start(job), replies).ops(
                    run(CampaignView::start(job), replies).place->Trial_backend,
                )[i],
            ) == Some(service),
{
    let state = run(CampaignView::start(job), replies);
    campaigns_stay_well_formed(CampaignView::start(job), replies);
    lemma_running(job, replies, service);
    plan::all_runs_during_the_measurement(
        state.place->Trial_backend,
        state.job.memlimit is Some,
        state.place->Trial_step as int,
        service,
    );
}

/// Every job begins with all backends, and nothing read. First the client's machine is allowed to
/// use its ports again; that can fail.
pub proof fn a_campaign_begins_with_every_backend(job: JobView, backend: Backend, reply: ReplyView)
    ensures
        CampaignView::start(job).job == job,
        CampaignView::start(job).place is Opening,
        CampaignView::start(job).survivors.has(backend),
        CampaignView::start(job).server_load.len() == 0,
        CampaignView::start(job).client_load.len() == 0,
        CampaignView::start(job).action() == (ActionView::Run {
            host: Host::Trawler,
            command: "bash -c 'echo 1 | sudo tee /proc/sys/net/ipv4/tcp_tw_reuse'"@,
        }),
        CampaignView::start(job).note(reply) is None,
{
}

/// What a campaign does next is the step of the trial that it is in, for this trial's backend and
/// load and with what was read in it; and what is then shown is what this step shows. Outside of
/// trials nothing is shown, and an end is told as what it is.
pub proof fn a_campaign_asks_for_the_step_that_it_is_at(state: CampaignView, reply: ReplyView)
    ensures
        match state.place {
            Place::Trial { index, scale, backend, step } => {
                let op = plan::trial_ops(backend, state.job.memlimit is Some)[step as int];
                &&& state.ops(backend) == plan::trial_ops(backend, state.job.memlimit is Some)
                &&& state.action() == trial::op_action(
                    state.job,
                    (TrialView {
                        backend,
                        scale,
                        server_load: state.server_load,
                        client_load: state.client_load,
                    }),
                    op,
                )
                &&& state.note(reply) == trial::note_text(op, reply)
            },
            Place::Opening => state.note(reply) is None,
            Place::Finished => state.action() is Finish && state.note(reply) is None,
            Place::BadScale { index } => state.action() == (ActionView::BadScale { index })
                && state.note(reply) is None,
            Place::Aborted => state.action() is Abort && state.note(reply) is None,
        },
{
}

/// The replies that a campaign takes are those that fit what it asks for.
pub proof fn a_campaign_takes_what_fits(state: CampaignView, reply: ReplyView)
    ensures
        state.accepts(reply) <==> exchange::fits(state.action(), reply),
{
    match state.place {
        Place::Trial { index, scale, backend, step } => {
            orders::steps_take_what_fits(
                state.job,
                (TrialView {
                    backend,
                    scale,
                    server_load: state.server_load,
                    client_load: state.client_load,
                }),
                state.ops(backend)[step as int],
                reply,
            );
        },
        _ => {},
    }
}

/// Within a trial every reply but a failure brings a campaign to the next step of the same trial.
/// The load averages of a machine change when they are read, and then to what was read without the
/// white space at its end; at no other step. Nothing else changes, but that a backend that fell
/// behind is dropped.
pub proof fn a_trial_goes_step_by_step(state: CampaignView, reply: ReplyView)
    requires
        state.well_formed(),
        state.place is Trial,
        state.accepts(reply),
        !(reply is Failed),
    ensures
        ({
            let op = state.ops(state.place->Trial_backend)[state.place->Trial_step as int];
            let after = state.next(reply);
            &&& after.job == state.job
            &&& state.place->Trial_step + 1 < state.ops(state.place->Trial_backend).len() ==> {
                &&& after.place is Trial
                &&& after.place->Trial_index == state.place->Trial_index
                &&& after.place->Trial_scale == state.place->Trial_scale
                &&& after.place->Trial_backend == state.place->Trial_backend
                &&& after.place->Trial_step == state.place->Trial_step + 1
            }
            &&& after.server_load == (if op == Op::ReadServerLoad {
                text::without_trailing_space(reply->Output_text)
            } else {
                state.server_load
            })
            &&& after.client_load == (if op == Op::ReadClientLoad {
                text::without_trailing_space(reply->Output_text)
            } else {
                state.client_load
            })
        }),
{
    plan::lemma_longest_trial(state.place->Trial_backend, state.job.memlimit is Some);
    lemma_step_of_a_trial(
        state,
        reply,
        state.ops(state.place->Trial_backend)[state.place->Trial_step as int],
    );
}

/// A failure leaves all that was known as it was.
pub proof fn a_failure_changes_the_place_only(state: CampaignView, reason: Seq<char>)
    ensures
        state.next(ReplyView::Failed { reason }).job == state.job,
        state.next(ReplyView::Failed { reason }).survivors == state.survivors,
        state.next(ReplyView::Failed { reason }).server_load == state.server_load,
        state.next(ReplyView::Failed { reason }).client_load == state.client_load,
{
}

/// `place` is where a campaign goes on when the trials from the number `from` on are due, the first
/// of them under the load at `index`: at the first step of the first of these trials whose backend
/// takes part, under the load that stands there. Before that no load is passed over that is no
/// number: the campaign stops at it. It is finished where there is no such trial, and no such load.
pub open spec fn first_due(
    place: Place,
    scales: Seq<Option<usize>>,
    survivors: Survivors,
    index: int,
    from: int,
) -> bool {
    match place {
        Place::Trial { index: i, scale, backend, step } => {
            &&& index <= i < scales.len()
            &&& from <= rank(i as int, backend)
            &&& step == 0
            &&& scales[i as int] == Some(scale)
            &&& survivors.has(backend)
            &&& forall|j: int| index <= j <= i ==> #[trigger] scales[j] is Some
            &&& forall|j: int, b: Backend|
                from <= #[trigger] rank(j, b) < rank(i as int, backend) ==> !survivors.has(b)
        },
        Place::BadScale { index: i } => {
            &&& index <= i < scales.len()
            &&& from <= BACKENDS * i
            &&& scales[i as int] is None
            &&& forall|j: int| index <= j < i ==> #[trigger] scales[j] is Some
            &&& forall|j: int, b: Backend|
                from <= #[trigger] rank(j, b) < BACKENDS * i ==> !survivors.has(b)
        },
        Place::Finished => {
            &&& forall|j: int| index <= j < scales.len() ==> #[trigger] scales[j] is Some
            &&& forall|j: int, b: Backend|
                from <= #[trigger] rank(j, b) < BACKENDS * scales.len() ==> !survivors.has(b)
        },
        _ => false,
    }
}

/// After its opening, and after the last step of each trial, a campaign goes on with the first trial
/// that is due then.
pub proof fn the_first_trial_that_is_due_comes_next(state: CampaignView, reply: ReplyView)
    requires
        state.well_formed(),
        state.accepts(reply),
        !(reply is Failed),
    ensures
        state.place is Opening ==> first_due(
            state.next(reply).place,
            state.job.scales,
            state.next(reply).survivors,
            0,
            0,
        ),
        state.place matches Place::Trial { index, scale, backend, step } ==> (step + 1
            == state.ops(backend).len() ==> first_due(
            state.next(reply).place,
            state.job.scales,
            state.next(reply).survivors,
            index as int,
            rank(index as int, backend) + 1,
        )),
{
    match state.place {
        Place::Opening => {
            lemma_seek(state.job.scales, state.survivors, 0, 0);
        },
        Place::Trial { index, scale, backend, step } => {
            lemma_seek(
                state.job.scales,
                state.next(reply).survivors,
                index as int,
                backend.turn() + 1,
            );
        },
        _ => {},
    }
}

/// Throughout a campaign, a trial is one of a backend that takes part, under the load that stands at
/// its place among the job's loads, and at one of its steps. A campaign stops only at a load that is
/// no number.
pub proof fn a_trial_runs_under_its_own_load(job: JobView, replies: Seq<ReplyView>)
    requires
        job.scales.len() <= usize::MAX,
        legal(CampaignView::start(job), replies),
    ensures
        ({
            let state = run(CampaignView::start(job), replies);
            &&& state.job == job
            &&& match state.place {
                Place::Trial { index, scale, backend, step } => {
                    &&& index < job.scales.len()
                    &&& job.scales[index as int] == Some(scale)
                    &&& state.survivors.has(backend)
                    &&& step < plan::trial_ops(backend, job.memlimit is Some).len()
                },
                Place::BadScale { index } => index < job.scales.len()
                    && job.scales[index as int] is None,
                _ => true,
            }
        }),
{
    campaigns_stay_well_formed(CampaignView::start(job), replies);
}

/// The load averages that are judged in a trial are those that were read in it.
pub proof fn what_was_read_is_judged(job: JobView, replies: Seq<ReplyView>)
    requires
        job.scales.len() <= usize::MAX,
        legal(CampaignView::start(job), replies),
    ensures
        ({
            let state = run(CampaignView::start(job), replies);
            state.place matches Place::Trial { index, scale, backend, step } ==> (
            plan::trial_ops(backend, job.memlimit is Some)[step as int] == Op::JudgeLoad ==> {
                let trial = (index as int, backend);
                let server = told(CampaignView::start(job), replies, trial, Op::ReadServerLoad);
                let client = told(CampaignView::start(job), replies, trial, Op::ReadClientLoad);
                &&& server is Some && client is Some
                &&& state.action() == (ActionView::JudgeLoad {
                    server: text::first_word_of(text::without_trailing_space(server->0)),
                    client: text::first_word_of(text::without_trailing_space(client->0)),
                })
            })
        }),
{
    let state = run(CampaignView::start(job), replies);
    campaigns_stay_well_formed(CampaignView::start(job), replies);
    lemma_log_is_kept(job, replies);
    match state.place {
        Place::Trial { index, scale, backend, step } => {
            lemma_reading_step(backend, job.memlimit is Some);
            if plan::trial_ops(backend, job.memlimit is Some)[step as int] == Op::JudgeLoad {
                let k = reading_step(backend, job.memlimit is Some);
                plan::a_trial_has_its_steps_in_their_order(backend, job.memlimit is Some);
                assert(plan::place_of(plan::trial_ops(backend, job.memlimit is Some)[k + 1]) == 22);
                assert(k + 1 < step);
            }
        },
        _ => {},
    }
}

} // verus!
