use vstd::prelude::*;

verus! {

/// Accuracy is measured on every epoch that is a multiple of this interval.
pub const LOG_INTERVAL: usize = 100;

/// Epochs on which accuracy is measured: the first, every interval, and the last.
pub open spec fn accuracy_epoch(epoch: nat, epochs: nat) -> bool {
    epoch % (LOG_INTERVAL as nat) == 0 || epoch + 1 == epochs
}

/// Whether accuracy is measured after epoch `epoch` of a run of `epochs` epochs.
pub fn reports_accuracy(epoch: usize, epochs: usize) -> (r: bool)
    ensures
        r == accuracy_epoch(epoch as nat, epochs as nat),
{
    epoch % LOG_INTERVAL == 0 || (epoch as u128) + 1 == epochs as u128
}

/// Number of samples whose predicted class equals their label; a label that is
/// neither class (`None`) never matches.
pub open spec fn correct_count(predicted: Seq<bool>, labels: Seq<Option<bool>>) -> nat
    decreases predicted.len(),
{
    if predicted.len() == 0 {
        0
    } else {
        let rest = correct_count(predicted.drop_last(), labels.drop_last());
        if labels.last() == Some(predicted.last()) {
            rest + 1
        } else {
            rest
        }
    }
}

/// Counts the samples classified correctly.
pub fn count_correct(predicted: &Vec<bool>, labels: &Vec<Option<bool>>) -> (r: usize)
    requires
        predicted@.len() == labels@.len(),
    ensures
        r == correct_count(predicted@, labels@),
        r <= predicted@.len(),
{
    let mut n: usize = 0;
    let mut i: usize = 0;
    while i < predicted.len()
        invariant
            predicted@.len() == labels@.len(),
            i <= predicted@.len(),
            n == correct_count(predicted@.take(i as int), labels@.take(i as int)),
            n <= i,
        decreases predicted.len() - i,
    {
        assert(predicted@.take(i + 1).drop_last() =~= predicted@.take(i as int));
        assert(labels@.take(i + 1).drop_last() =~= labels@.take(i as int));
        if labels[i] == Some(predicted[i]) {
            n += 1;
        }
        i += 1;
    }
    assert(predicted@.take(i as int) =~= predicted@);
    assert(labels@.take(i as int) =~= labels@);
    n
}

/// Where a training run stands.
#[derive(Debug, Clone, Copy, PartialEq, Eq, Structural)]
pub enum Phase {
    /// Epochs are being run.
    Running,
    /// Every configured epoch ran.
    Completed,
    /// Stopped on request after at least one epoch.
    StoppedEarly,
    /// Stopped on request before any epoch ran.
    Abandoned,
}

/// What the worker does next.
#[derive(Debug, Clone, Copy, PartialEq, Eq, Structural)]
pub enum Step {
    /// Run epoch `epoch`; measure accuracy afterwards when `report_accuracy`.
    Train { epoch: usize, report_accuracy: bool },
    /// All epochs ran: report the final accuracy and write the loss curve.
    Complete,
    /// Stopped after some epochs: report the accuracy of the current
    /// parameters and write the loss curve collected so far.
    StopWithResult,
    /// Stopped before any epoch: report nothing.
    Abandon,
}

/// The abstract state of a run.
pub ghost struct RunModel<M> {
    pub epochs: nat,
    pub losses: Seq<M>,
    pub phase: Phase,
}

/// The epoch loop of one training run: how many epochs were asked for, the loss
/// of each epoch that ran, and where the run stands.
pub struct TrainingRun<M> {
    epochs: usize,
    losses: Vec<M>,
    phase: Phase,
}

impl<M> View for TrainingRun<M> {
    type V = RunModel<M>;

    closed spec fn view(&self) -> RunModel<M> {
        RunModel { epochs: self.epochs as nat, losses: self.losses@, phase: self.phase }
    }
}

/// The step taken from a running state in which `done` of `epochs` epochs ran.
pub open spec fn step_for(epochs: nat, done: nat, stop_requested: bool) -> Step {
    if done >= epochs {
        Step::Complete
    } else if stop_requested {
        if done > 0 {
            Step::StopWithResult
        } else {
            Step::Abandon
        }
    } else {
        Step::Train { epoch: done as usize, report_accuracy: accuracy_epoch(done, epochs) }
    }
}

/// The phase that a step leads to.
pub open spec fn phase_after(step: Step) -> Phase {
    match step {
        Step::Train { .. } => Phase::Running,
        Step::Complete => Phase::Completed,
        Step::StopWithResult => Phase::StoppedEarly,
        Step::Abandon => Phase::Abandoned,
    }
}

impl<M> TrainingRun<M> {
    /// The loss history has one entry per epoch that ran, and the phase agrees
    /// with how many ran.
    pub open spec fn wf(&self) -> bool {
        let m = self@;
        &&& m.losses.len() <= m.epochs
        &&& m.phase == Phase::Completed ==> m.losses.len() == m.epochs
        &&& m.phase == Phase::StoppedEarly ==> 0 < m.losses.len() < m.epochs
        &&& m.phase == Phase::Abandoned ==> m.losses.len() == 0 && m.epochs > 0
    }

    /// Starts a run of `epochs` epochs with an empty loss history.
    pub fn new(epochs: usize) -> (r: Self)
        ensures
            r.wf(),
            r@.epochs == epochs,
            r@.losses.len() == 0,
            r@.phase == Phase::Running,
    {
        TrainingRun { epochs, losses: Vec::new(), phase: Phase::Running }
    }

    /// Epochs asked for.
    pub fn epochs(&self) -> (r: usize)
        ensures
            r == self@.epochs,
    {
        self.epochs
    }

    /// Epochs that ran.
    pub fn epochs_done(&self) -> (r: usize)
        ensures
            r == self@.losses.len(),
    {
        self.losses.len()
    }

    /// Where the run stands.
    pub fn phase(&self) -> (r: Phase)
        ensures
            r == self@.phase,
    {
        self.phase
    }

    /// The loss of each epoch that ran, in order.
    pub fn losses(&self) -> (r: &Vec<M>)
        ensures
            r@ == self@.losses,
    {
        &self.losses
    }

    /// Decides the next step at the top of an iteration. The stop request is
    /// looked at only here, and only while epochs remain.
    pub fn next_step(&mut self, stop_requested: bool) -> (r: Step)
        requires
            old(self).wf(),
            old(self)@.phase == Phase::Running,
        ensures
            final(self).wf(),
            r == step_for(old(self)@.epochs, old(self)@.losses.len(), stop_requested),
            final(self)@ == (RunModel { phase: phase_after(r), ..old(self)@ }),
    {
        let done = self.losses.len();
        let r = if done >= self.epochs {
            Step::Complete
        } else if stop_requested {
            if done > 0 {
                Step::StopWithResult
            } else {
                Step::Abandon
            }
        } else {
            Step::Train { epoch: done, report_accuracy: reports_accuracy(done, self.epochs) }
        };
        self.phase = match r {
            Step::Train { .. } => Phase::Running,
            Step::Complete => Phase::Completed,
            Step::StopWithResult => Phase::StoppedEarly,
            Step::Abandon => Phase::Abandoned,
        };
        r
    }

    /// Records the loss of the epoch that just ran.
    pub fn record_epoch(&mut self, loss: M)
        requires
            old(self).wf(),
            old(self)@.phase == Phase::Running,
            old(self)@.losses.len() < old(self)@.epochs,
        ensures
            final(self).wf(),
            final(self)@ == (RunModel { losses: old(self)@.losses.push(loss), ..old(self)@ }),
    {
        self.losses.push(loss);
    }
}

/// The loss history holds one entry per epoch that ran: all of them when the run
/// completed, fewer when it was stopped, none when it was stopped before the
/// first epoch.
pub proof fn lemma_history_length<M>(run: TrainingRun<M>)
    requires
        run.wf(),
    ensures
        run@.losses.len() <= run@.epochs,
        run@.phase == Phase::Completed ==> run@.losses.len() == run@.epochs,
        run@.phase == Phase::StoppedEarly ==> run@.losses.len() < run@.epochs,
        run@.phase == Phase::Abandoned ==> run@.losses.len() == 0,
{
}

} // verus!
