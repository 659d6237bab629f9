//! Which batches of mocked events are sent, and in which order.
use vstd::prelude::*;

verus! {

/// Controller of the mocked source.
#[derive(Debug, Clone, Copy, PartialEq, Eq, Structural)]
pub struct Controller {
    pub top_n: usize,
    pub downsampling_interval: u32,
    pub tidb_number: usize,
    pub tikv_number: usize,
    pub extra_column_number: u32,
}

/// What is sent next in a round.
#[derive(Debug, Clone, Copy, PartialEq, Eq, Structural)]
pub enum Batch {
    /// The events about statements on the TiKV instance with this number, and those
    /// about its regions
    Tikv(usize),
    /// The events about statements on the TiDB instance with this number
    Tidb(usize),
    /// The events about how often those statements were executed
    TidbExecCount(usize),
    /// Nothing: all has been sent
    Finished,
}

/// What is sent next, and in which round.
#[derive(Debug, Clone, Copy, PartialEq, Eq, Structural)]
pub struct Sending {
    pub round: u32,
    pub batch: Batch,
}

impl Controller {
    /// How many rounds of batches are sent in a minute.
    pub open spec fn rounds(self) -> u32 {
        if self.downsampling_interval == 0 {
            1
        } else {
            60u32 / self.downsampling_interval
        }
    }

    /// What a round begins with.
    pub open spec fn round_start(self, round: int) -> Sending {
        if round >= self.rounds() || (self.tikv_number == 0 && self.tidb_number == 0) {
            Sending { round: self.rounds(), batch: Batch::Finished }
        } else if self.tikv_number > 0 {
            Sending { round: round as u32, batch: Batch::Tikv(0) }
        } else {
            Sending { round: round as u32, batch: Batch::Tidb(0) }
        }
    }

    /// What follows the TiKV instances in a round.
    pub open spec fn tidb_start(self, round: u32) -> Sending {
        if self.tidb_number > 0 {
            Sending { round, batch: Batch::Tidb(0) }
        } else {
            self.round_start(round + 1)
        }
    }

    /// What is sent after a batch, by whether it was accepted. A batch that was not
    /// accepted ends the instances of its kind in the round.
    pub open spec fn after(self, sending: Sending, accepted: bool) -> Sending {
        match sending.batch {
            Batch::Tikv(i) => if accepted && i + 1 < self.tikv_number {
                Sending { round: sending.round, batch: Batch::Tikv((i + 1) as usize) }
            } else {
                self.tidb_start(sending.round)
            },
            Batch::Tidb(i) => if accepted {
                Sending { round: sending.round, batch: Batch::TidbExecCount(i) }
            } else {
                self.round_start(sending.round + 1)
            },
            Batch::TidbExecCount(i) => if accepted && i + 1 < self.tidb_number {
                Sending { round: sending.round, batch: Batch::Tidb((i + 1) as usize) }
            } else {
                self.round_start(sending.round + 1)
            },
            Batch::Finished => sending,
        }
    }

    /// Whether there is such a batch.
    pub open spec fn has(self, sending: Sending) -> bool {
        match sending.batch {
            Batch::Tikv(i) => i < self.tikv_number && sending.round < self.rounds(),
            Batch::Tidb(i) => i < self.tidb_number && sending.round < self.rounds(),
            Batch::TidbExecCount(i) => i < self.tidb_number && sending.round < self.rounds(),
            Batch::Finished => sending.round == self.rounds(),
        }
    }

    /// Create a new controller.
    pub fn new(
        top_n: usize,
        downsampling_interval: u32,
        tidb_number: usize,
        tikv_number: usize,
        extra_column_number: u32,
    ) -> (r: Self)
        ensures
            r.top_n == top_n,
            r.downsampling_interval == downsampling_interval,
            r.tidb_number == tidb_number,
            r.tikv_number == tikv_number,
            r.extra_column_number == extra_column_number,
    {
        Controller { top_n, downsampling_interval, tidb_number, tikv_number, extra_column_number }
    }

    /// How many rounds of batches are sent in a minute.
    pub fn loop_count(&self) -> (r: u32)
        ensures
            r == self.rounds(),
    {
        if self.downsampling_interval == 0 {
            1
        } else {
            60 / self.downsampling_interval
        }
    }

    fn start_round(&self, round: u32) -> (r: Sending)
        ensures
            r == self.round_start(round as int),
    {
        let rounds = self.loop_count();
        if round >= rounds || (self.tikv_number == 0 && self.tidb_number == 0) {
            Sending { round: rounds, batch: Batch::Finished }
        } else if self.tikv_number > 0 {
            Sending { round, batch: Batch::Tikv(0) }
        } else {
            Sending { round, batch: Batch::Tidb(0) }
        }
    }

    /// What is sent first in a minute.
    pub fn first_batch(&self) -> (r: Sending)
        ensures
            r == self.round_start(0),
            self.has(r),
    {
        self.start_round(0)
    }

    /// What is sent after a batch, by whether it was accepted.
    pub fn next_batch(&self, sending: Sending, accepted: bool) -> (r: Sending)
        requires
            self.has(sending),
        ensures
            r == self.after(sending, accepted),
            self.has(r),
    {
        let round: u32 = sending.round;
        match sending.batch {
            Batch::Tikv(i) => {
                if accepted && i + 1 < self.tikv_number {
                    Sending { round, batch: Batch::Tikv(i + 1) }
                } else if self.tidb_number > 0 {
                    Sending { round, batch: Batch::Tidb(0) }
                } else {
                    self.start_round(round + 1)
                }
            },
            Batch::Tidb(i) => {
                if accepted {
                    Sending { round, batch: Batch::TidbExecCount(i) }
                } else {
                    self.start_round(round + 1)
                }
            },
            Batch::TidbExecCount(i) => {
                if accepted && i + 1 < self.tidb_number {
                    Sending { round, batch: Batch::Tidb(i + 1) }
                } else {
                    self.start_round(round + 1)
                }
            },
            Batch::Finished => sending,
        }
    }

    /// How many batches make up a round: one for each TiKV instance, and two for
    /// each TiDB instance.
    pub open spec fn round_size(self) -> int {
        self.tikv_number + 2 * self.tidb_number
    }

    /// How many batches are left, this one among them, if all are accepted.
    pub open spec fn left(self, sending: Sending) -> int {
        match sending.batch {
            Batch::Tikv(i) => (self.rounds() - sending.round - 1) * self.round_size()
                + self.tikv_number - i + 2 * self.tidb_number,
            Batch::Tidb(i) => (self.rounds() - sending.round - 1) * self.round_size() + 2 * (
            self.tidb_number - i),
            Batch::TidbExecCount(i) => (self.rounds() - sending.round - 1) * self.round_size() + 2
                * (self.tidb_number - i) - 1,
            Batch::Finished => 0,
        }
    }
}

proof fn lemma_round_start(controller: Controller, round: int)
    requires
        0 <= round <= controller.rounds(),
    ensures
        controller.left(controller.round_start(round)) == (controller.rounds() - round)
            * controller.round_size(),
{
    let size = controller.round_size();
    let rest = controller.rounds() - round;
    assert(rest * size == (rest - 1) * size + size) by (nonlinear_arith);
    if rest == 0 {
        assert(0 * size == 0) by (nonlinear_arith);
    }
    if size == 0 {
        assert(rest * 0 == 0) by (nonlinear_arith);
    }
}

/// A minute in which every batch is accepted has the batches of all rounds.
pub proof fn all_rounds_are_sent(controller: Controller)
    ensures
        controller.left(controller.round_start(0)) == controller.rounds() * (
        controller.tikv_number + 2 * controller.tidb_number),
{
    lemma_round_start(controller, 0);
}

/// Each batch that is accepted is followed by the rest of the batches: the number
/// that is left falls by one, and a minute is finished exactly when none is left.
pub proof fn accepted_batches_are_counted_down(controller: Controller, sending: Sending)
    requires
        controller.has(sending),
    ensures
        controller.left(sending) == 0 <==> sending.batch is Finished,
        sending.batch !is Finished ==> controller.left(controller.after(sending, true))
            == controller.left(sending) - 1,
{
    let size = controller.round_size();
    if sending.batch !is Finished {
        let rest = controller.rounds() - sending.round - 1;
        assert(rest * size >= 0) by (nonlinear_arith)
            requires
                rest >= 0,
                size >= 0,
        ;
        lemma_round_start(controller, sending.round + 1);
    }
}

/// There are as many rounds in a minute as the interval fits into sixty seconds, and one
/// where there is no interval.
pub proof fn rounds_fit_into_a_minute(controller: Controller)
    ensures
        controller.downsampling_interval == 0 ==> controller.rounds() == 1,
        controller.downsampling_interval > 0 ==> controller.rounds()
            * controller.downsampling_interval <= 60 < (controller.rounds() + 1)
            * controller.downsampling_interval,
{
    let d = controller.downsampling_interval as int;
    if d > 0 {
        let q = 60int / d;
        assert(q * d <= 60 < (q + 1) * d) by (nonlinear_arith)
            requires
                d > 0,
                q == 60int / d,
        ;
    }
}

/// In a round the TiKV instances come first, one after the other, and then the TiDB
/// instances, each with its statements and how often they were executed; then comes the
/// next round.
pub proof fn batches_come_in_this_order(controller: Controller, round: u32, i: usize)
    requires
        round < controller.rounds(),
    ensures
        i + 1 < controller.tikv_number ==> controller.after(
            Sending { round, batch: Batch::Tikv(i) },
            true,
        ) == (Sending { round, batch: Batch::Tikv((i + 1) as usize) }),
        i + 1 == controller.tikv_number && controller.tidb_number > 0 ==> controller.after(
            Sending { round, batch: Batch::Tikv(i) },
            true,
        ) == (Sending { round, batch: Batch::Tidb(0) }),
        controller.after(Sending { round, batch: Batch::Tidb(i) }, true) == (Sending {
            round,
            batch: Batch::TidbExecCount(i),
        }),
        i + 1 < controller.tidb_number ==> controller.after(
            Sending { round, batch: Batch::TidbExecCount(i) },
            true,
        ) == (Sending { round, batch: Batch::Tidb((i + 1) as usize) }),
        i + 1 == controller.tidb_number && round + 1 < controller.rounds() ==> controller.after(
            Sending { round, batch: Batch::TidbExecCount(i) },
            true,
        ) == (Sending {
            round: (round + 1) as u32,
            batch: if controller.tikv_number > 0 {
                Batch::Tikv(0)
            } else {
                Batch::Tidb(0)
            },
        }),
        i + 1 == controller.tidb_number && round + 1 == controller.rounds() ==> controller.after(
            Sending { round, batch: Batch::TidbExecCount(i) },
            true,
        ).batch == Batch::Finished,
{
}

/// A minute begins with the first TiKV instance, or with the first TiDB instance where
/// there is none, and is over at once where there are neither.
pub proof fn minutes_begin_with_the_first_instance(controller: Controller)
    ensures
        controller.rounds() > 0 && controller.tikv_number > 0 ==> controller.round_start(0) == (
        Sending { round: 0, batch: Batch::Tikv(0) }),
        controller.rounds() > 0 && controller.tikv_number == 0 && controller.tidb_number > 0
            ==> controller.round_start(0) == (Sending { round: 0, batch: Batch::Tidb(0) }),
        controller.tikv_number == 0 && controller.tidb_number == 0 ==> controller.round_start(
            0,
        ).batch == Batch::Finished,
        controller.rounds() == 0 ==> controller.round_start(0).batch == Batch::Finished,
{
}

/// A batch that was not accepted ends the instances of its kind in the round: after one
/// of a TiKV instance come the TiDB instances, after one of a TiDB instance the next
/// round.
pub proof fn refused_batches_end_their_kind(controller: Controller, sending: Sending)
    requires
        controller.has(sending),
    ensures
        sending.batch is Tikv && controller.tidb_number > 0 ==> controller.after(sending, false)
            == (Sending { round: sending.round, batch: Batch::Tidb(0) }),
        sending.batch is Tikv && controller.tidb_number == 0 || sending.batch is Tidb
            || sending.batch is TidbExecCount ==> controller.after(sending, false).round
            > sending.round,
        sending.batch is Finished ==> controller.after(sending, false) == sending,
{
}

/// A new controller has the numbers it was made with, and its minute begins with the
/// first TiKV instance, where there is one.
pub proof fn new_controllers_have_their_numbers(
    top_n: usize,
    interval: u32,
    tidb: usize,
    tikv: usize,
    extra: u32,
    made: &Controller,
    first: Sending,
    rounds: u32,
)
    requires
        call_ensures(Controller::new, (top_n, interval, tidb, tikv, extra), *made),
        call_ensures(Controller::first_batch, (made,), first),
        call_ensures(Controller::loop_count, (made,), rounds),
    ensures
        made.top_n == top_n,
        made.downsampling_interval == interval,
        made.tidb_number == tidb,
        made.tikv_number == tikv,
        made.extra_column_number == extra,
        1 <= interval <= 60 ==> rounds * interval <= 60 < (rounds + 1) * interval,
        interval > 60 ==> rounds == 0,
        interval == 0 ==> rounds == 1,
        interval <= 60 && tikv > 0 ==> first == (Sending { round: 0, batch: Batch::Tikv(0) }),
        interval <= 60 && tikv == 0 && tidb > 0 ==> first == (Sending {
            round: 0,
            batch: Batch::Tidb(0),
        }),
{
    if 1 <= interval <= 60 {
        let q = (60u32 / interval) as int;
        let i = interval as int;
        assert(q * i <= 60 < (q + 1) * i && q >= 1) by (nonlinear_arith)
            requires
                1 <= i <= 60,
                q == 60int / i,
        ;
    } else if interval > 60 {
        let q = (60u32 / interval) as int;
        let i = interval as int;
        assert(q == 0) by (nonlinear_arith)
            requires
                i > 60,
                q == 60int / i,
        ;
    }
}

} // verus!
