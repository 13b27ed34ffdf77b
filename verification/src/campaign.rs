//! The campaign: every load in turn, and at each load every backend that still takes part.
use crate::backend::{Backend, Survivors, BACKENDS};
use crate::backend;
use crate::command;
use crate::exchange::{Action, ActionView, Host, Reply, ReplyView};
use crate::plan::Op;
use crate::plan;
use crate::text;
use crate::trial::{Job, JobView, TrialView};
use crate::trial;
use vstd::prelude::*;
use vstd::string::*;

verus! {

/// How far a campaign has come.
#[derive(Clone, Copy, Debug, PartialEq, Eq, Structural)]
pub enum Place {
    /// The client's network is set up.
    Opening,
    /// The step `step` of a trial of `backend`, under the load `scale` that stands at `index`.
    Trial { index: usize, scale: usize, backend: Backend, step: usize },
    /// All loads are done.
    Finished,
    /// The load at `index` is no number.
    BadScale { index: usize },
    /// Something failed.
    Aborted,
}

/// Where a campaign goes on when the backends from `turn` on are due at the load `index`: to the
/// first of them that still takes part, there or at a later load. It ends where there is none,
/// and at a load that is no number.
pub open spec fn seek(
    scales: Seq<Option<usize>>,
    survivors: Survivors,
    index: int,
    turn: int,
) -> Place
    decreases scales.len() - index, BACKENDS - turn,
{
    if index >= scales.len() {
        Place::Finished
    } else if scales[index] is None {
        Place::BadScale { index: index as usize }
    } else if turn >= BACKENDS {
        seek(scales, survivors, index + 1, 0)
    } else if survivors.has(backend::turn_of(turn)) {
        Place::Trial {
            index: index as usize,
            scale: scales[index]->0,
            backend: backend::turn_of(turn),
            step: 0,
        }
    } else {
        seek(scales, survivors, index, turn + 1)
    }
}

/// What `Campaign` stands for.
pub struct CampaignView {
    pub job: JobView,
    pub survivors: Survivors,
    pub place: Place,
    /// The load averages that were read last, without the white space at their end.
    pub server_load: Seq<char>,
    pub client_load: Seq<char>,
}

impl CampaignView {
    /// A campaign that was not begun.
    pub open spec fn start(job: JobView) -> CampaignView {
        CampaignView {
            job,
            survivors: (Survivors { mysql: true, soup: true, soupy: true }),
            place: Place::Opening,
            server_load: Seq::empty(),
            client_load: Seq::empty(),
        }
    }

    /// The steps of a trial of `backend`.
    pub open spec fn ops(self, backend: Backend) -> Seq<Op> {
        plan::trial_ops(backend, self.job.memlimit is Some)
    }

    /// The campaign is in a trial, at one of its steps; the trial's backend still takes part.
    pub open spec fn well_formed(self) -> bool {
        &&& self.job.scales.len() <= usize::MAX
        &&& match self.place {
            Place::Trial { index, scale, backend, step } => {
                &&& index < self.job.scales.len()
                &&& self.job.scales[index as int] == Some(scale)
                &&& step < self.ops(backend).len()
                &&& self.survivors.has(backend)
            },
            Place::BadScale { index } => {
                &&& index < self.job.scales.len()
                &&& self.job.scales[index as int] is None
            },
            _ => true,
        }
    }

    /// Nothing is left to do.
    pub open spec fn ended(self) -> bool {
        self.place is Finished || self.place is BadScale || self.place is Aborted
    }

    /// What is to be done next.
    pub open spec fn action(self) -> ActionView {
        match self.place {
            Place::Opening => ActionView::Run {
                host: Host::Trawler,
                command: "bash -c 'echo 1 | sudo tee /proc/sys/net/ipv4/tcp_tw_reuse'"@,
            },
            Place::Trial { index, scale, backend, step } => trial::op_action(
                self.job,
                TrialView {
                    backend,
                    scale,
                    server_load: self.server_load,
                    client_load: self.client_load,
                },
                self.ops(backend)[step as int],
            ),
            Place::Finished => ActionView::Finish,
            Place::BadScale { index } => ActionView::BadScale { index },
            Place::Aborted => ActionView::Abort,
        }
    }

    /// `reply` can be the reply to what is to be done next.
    pub open spec fn accepts(self, reply: ReplyView) -> bool {
        match self.place {
            Place::Opening => reply is Output || reply is Failed,
            Place::Trial { index, scale, backend, step } => trial::answers(
                self.ops(backend)[step as int],
                reply,
            ),
            _ => false,
        }
    }

    /// What is printed when `reply` comes back.
    pub open spec fn note(self, reply: ReplyView) -> Option<Seq<char>> {
        match self.place {
            Place::Trial { index, scale, backend, step } => trial::note_text(
                self.ops(backend)[step as int],
                reply,
            ),
            _ => None,
        }
    }

    /// The campaign after `reply` has come back. A failure ends it. The load averages are kept. A
    /// backend that fell behind takes no further part; one whose rates are not known stays in.
    /// After the last step of a trial comes the next one.
    pub open spec fn next(self, reply: ReplyView) -> CampaignView {
        if reply is Failed {
            CampaignView { place: Place::Aborted, ..self }
        } else {
            match self.place {
                Place::Opening => CampaignView {
                    place: seek(self.job.scales, self.survivors, 0, 0),
                    ..self
                },
                Place::Trial { index, scale, backend, step } => {
                    let ops = self.ops(backend);
                    let op = ops[step as int];
                    let survivors = if reply == (ReplyView::Rates { behind: true }) {
                        self.survivors.without(backend)
                    } else {
                        self.survivors
                    };
                    CampaignView {
                        job: self.job,
                        survivors,
                        place: if step + 1 < ops.len() {
                            Place::Trial { index, scale, backend, step: (step + 1) as usize }
                        } else {
                            seek(self.job.scales, survivors, index as int, backend.turn() + 1)
                        },
                        server_load: if op == Op::ReadServerLoad {
                            text::without_trailing_space(reply->Output_text)
                        } else {
                            self.server_load
                        },
                        client_load: if op == Op::ReadClientLoad {
                            text::without_trailing_space(reply->Output_text)
                        } else {
                            self.client_load
                        },
                    }
                },
                _ => self,
            }
        }
    }
}

/// A campaign. It does nothing by itself: it tells what is to be done, and is told how that went.
#[derive(Debug)]
pub struct Campaign {
    job: Job,
    survivors: Survivors,
    place: Place,
    server_load: String,
    client_load: String,
}

impl View for Campaign {
    type V = CampaignView;

    closed spec fn view(&self) -> CampaignView {
        CampaignView {
            job: self.job@,
            survivors: self.survivors,
            place: self.place,
            server_load: self.server_load@,
            client_load: self.client_load@,
        }
    }
}

/// A place that `seek` finds is one at which a campaign can be.
pub proof fn lemma_seek_is_well_formed(state: CampaignView, index: int, turn: int)
    requires
        state.job.scales.len() <= usize::MAX,
        0 <= index,
        0 <= turn,
        state.place == seek(state.job.scales, state.survivors, index, turn),
    ensures
        state.well_formed(),
        !(state.place is Opening),
    decreases state.job.scales.len() - index, BACKENDS - turn,
{
    if index < state.job.scales.len() && state.job.scales[index] is Some {
        if turn >= BACKENDS {
            lemma_seek_is_well_formed(state, index + 1, 0);
        } else if !state.survivors.has(backend::turn_of(turn)) {
            lemma_seek_is_well_formed(state, index, turn + 1);
        }
    }
}

/// A reply that can come back leaves a campaign in good order.
pub proof fn lemma_next_is_well_formed(state: CampaignView, reply: ReplyView)
    requires
        state.well_formed(),
        state.accepts(reply),
    ensures
        state.next(reply).well_formed(),
        !(state.next(reply).place is Opening),
        state.next(reply).job == state.job,
{
    let after = state.next(reply);
    if !(reply is Failed) {
        match state.place {
            Place::Opening => {
                lemma_seek_is_well_formed(after, 0, 0);
            },
            Place::Trial { index, scale, backend, step } => {
                plan::lemma_judged_last(backend, state.job.memlimit is Some);
                if step + 1 >= state.ops(backend).len() {
                    lemma_seek_is_well_formed(after, index as int, backend.turn() + 1);
                }
            },
            _ => {},
        }
    }
}

impl Campaign {
    /// A campaign that was not begun, with every backend.
    pub fn new(job: Job) -> (campaign: Campaign)
        ensures
            campaign@ == CampaignView::start(job@),
            campaign@.well_formed(),
    {
        assert(job.scales@.len() == job.scales.len());
        Campaign {
            job,
            survivors: Survivors::all(),
            place: Place::Opening,
            server_load: String::new(),
            client_load: String::new(),
        }
    }

    /// How far the campaign has come.
    pub fn place(&self) -> (place: Place)
        ensures
            place == self@.place,
    {
        self.place
    }

    /// The backends that still take part.
    pub fn survivors(&self) -> (survivors: Survivors)
        ensures
            survivors == self@.survivors,
    {
        self.survivors
    }

    /// The step `step` of a trial of `backend`.
    fn op_at(&self, backend: Backend, step: usize) -> (op: Op)
        requires
            step < self@.ops(backend).len(),
        ensures
            op == self@.ops(backend)[step as int],
    {
        let ops: Vec<Op> = plan::steps_of_trial(backend, self.job.memlimit.is_some());
        ops[step]
    }

    /// What is to be done next.
    pub fn action(&self) -> (action: Action)
        requires
            self@.well_formed(),
        ensures
            action@ == self@.action(),
    {
        match self.place {
            Place::Opening => Action::Run {
                host: Host::Trawler,
                command: String::from_str(
                    "bash -c 'echo 1 | sudo tee /proc/sys/net/ipv4/tcp_tw_reuse'",
                ),
            },
            Place::Trial { index: _, scale, backend, step } => trial::action_for(
                &self.job,
                backend,
                scale,
                self.server_load.as_str(),
                self.client_load.as_str(),
                self.op_at(backend, step),
            ),
            Place::Finished => Action::Finish,
            Place::BadScale { index } => Action::BadScale { index },
            Place::Aborted => Action::Abort,
        }
    }

    /// Tells whether `reply` can be the reply to what is to be done next.
    pub fn accepts(&self, reply: &Reply) -> (yes: bool)
        requires
            self@.well_formed(),
        ensures
            yes == self@.accepts(reply@),
    {
        match self.place {
            Place::Opening => match reply {
                Reply::Output { text: _ } => true,
                Reply::Failed { reason: _ } => true,
                _ => false,
            },
            Place::Trial { index: _, scale: _, backend, step } => trial::is_answer(
                self.op_at(backend, step),
                reply,
            ),
            _ => false,
        }
    }

    /// The place of the next trial when the backends from `turn` on are due at the load `index`.
    fn find_trial(&self, index: usize, turn: usize) -> (place: Place)
        requires
            turn <= BACKENDS,
        ensures
            place == seek(self@.job.scales, self@.survivors, index as int, turn as int),
    {
        let mut i: usize = index;
        let mut t: usize = turn;
        while i < self.job.scales.len()
            invariant
                t <= BACKENDS,
                seek(self@.job.scales, self@.survivors, i as int, t as int) == seek(
                    self@.job.scales,
                    self@.survivors,
                    index as int,
                    turn as int,
                ),
            decreases self.job.scales.len() - i, BACKENDS - t,
        {
            let scale: usize = match self.job.scales[i] {
                Some(scale) => scale,
                None => {
                    return Place::BadScale { index: i };
                },
            };
            if t == BACKENDS {
                i = i + 1;
                t = 0;
            } else {
                let backend: Backend = Backend::at_turn(t);
                if self.survivors.includes(backend) {
                    return Place::Trial { index: i, scale, backend, step: 0 };
                }
                t = t + 1;
            }
        }
        Place::Finished
    }

    /// Takes in the reply to what was to be done. Gives what is printed on that account.
    pub fn advance(&mut self, reply: &Reply) -> (note: Option<String>)
        requires
            old(self)@.well_formed(),
            old(self)@.accepts(reply@),
        ensures
            final(self)@ == old(self)@.next(reply@),
            final(self)@.well_formed(),
            command::text_of(note) == old(self)@.note(reply@),
    {
        proof {
            lemma_next_is_well_formed(self@, reply@);
        }
        match self.place {
            Place::Opening => {
                match reply {
                    Reply::Failed { reason: _ } => {
                        self.place = Place::Aborted;
                    },
                    _ => {
                        self.place = self.find_trial(0, 0);
                    },
                }
                None
            },
            Place::Trial { index, scale, backend, step } => {
                let op: Op = self.op_at(backend, step);
                let note: Option<String> = trial::note_for(op, reply);
                match reply {
                    Reply::Failed { reason: _ } => {
                        self.place = Place::Aborted;
                        return note;
                    },
                    Reply::Output { text } => {
                        if op == Op::ReadServerLoad {
                            self.server_load = String::from_str(text::trim_end(text.as_str()));
                        } else if op == Op::ReadClientLoad {
                            self.client_load = String::from_str(text::trim_end(text.as_str()));
                        }
                    },
                    Reply::Rates { behind } => {
                        if *behind {
                            self.survivors.drop_out(backend);
                        }
                    },
                    _ => {},
                }
                let count: usize = plan::steps_of_trial(
                    backend,
                    self.job.memlimit.is_some(),
                ).len();
                if step + 1 < count {
                    self.place = Place::Trial { index, scale, backend, step: step + 1 };
                } else {
                    let turn: usize = backend.turn_index() + 1;
                    self.place = self.find_trial(index, turn);
                }
                note
            },
            _ => None,
        }
    }
}

} // verus!
