//! The bookkeeping of a run of trials.
//!
//! A run generates a polygon, may minimize it, classifies it, exports it
//! where that is called for, reports its VC-dimension and goes on to the
//! next trial. Generating, minimizing and exporting happen elsewhere.
//! [`Experiment`] holds what is carried from one trial to the next, and
//! decides after each trial what is to be done with its polygon.

use crate::arguments::RunParameters;
use crate::classifier::{interesting, is_interesting};
use crate::decimal::{decimal, push_decimal, push_zero_padded, zero_padded};
use crate::profile::{Visibility, VisibilityProfile};
use vstd::prelude::*;
use vstd::string::StringExecFns;

verus! {

/// Where the next trial's polygon comes from.
#[derive(Clone, Copy, Debug, PartialEq, Eq, Structural)]
pub enum Successor {
    /// A polygon generated from scratch. A minimized polygon is no fair
    /// start for the next one.
    Fresh,
    /// The present polygon, randomized in place.
    Perturbed,
    /// Nowhere: this was the last trial.
    Finished,
}

/// What is to be done at the end of a trial.
pub struct TrialReport {
    /// The file to export the polygon to, if it is to be exported.
    pub export_to: Option<String>,
    /// The text to print as progress.
    pub progress: String,
    /// Where the next trial's polygon comes from.
    pub successor: Successor,
}

/// The state of a run between two trials.
pub struct Run {
    pub parameters: RunParameters,
    /// The number of trials that are over.
    pub trial: nat,
    /// How many of them ended, after minimization, on a small polygon of
    /// VC-dimension 4.
    pub minimum_polygons: nat,
}

/// The name of the file for the polygon of trial `trial`: its
/// VC-dimension before any minimization, the number of vertices that the
/// run generates, and the trial's index in three digits or more.
pub open spec fn file_name(vc_dimension: nat, n: nat, trial: nat) -> Seq<char> {
    "out/vc"@ + decimal(vc_dimension) + "-n"@ + decimal(n) + "_"@ + zero_padded(trial, 3)
        + ".ipe"@
}

/// The closing line of a run.
pub open spec fn summary_of(minimum_polygons: nat) -> Seq<char> {
    "\nFound "@ + decimal(minimum_polygons) + " minimum polygons with d = 4."@
}

impl Run {
    /// The state before the first trial.
    pub open spec fn start(parameters: RunParameters) -> Run {
        Run { parameters, trial: 0, minimum_polygons: 0 }
    }

    /// No more trials were run than asked for, and no more minimum
    /// polygons counted than trials run.
    pub open spec fn valid(self) -> bool {
        self.minimum_polygons <= self.trial <= self.parameters.count
    }

    /// Whether all trials are over.
    pub open spec fn finished(self) -> bool {
        self.trial >= self.parameters.count
    }

    /// Whether a trial that ends on `active` adds to the minimum polygons.
    pub open spec fn counts_as_minimum(self, active: Visibility) -> bool {
        self.parameters.minimize && active.vc_dimension == 4 && active.small
    }

    /// Whether a trial that ends on `active` has its polygon exported.
    pub open spec fn exports(self, active: Visibility) -> bool {
        self.parameters.export_all || interesting(active)
    }

    /// The state after a trial that ended on `active`.
    pub open spec fn after_trial(self, active: Visibility) -> Run {
        Run {
            parameters: self.parameters,
            trial: self.trial + 1,
            minimum_polygons: if self.counts_as_minimum(active) {
                self.minimum_polygons + 1
            } else {
                self.minimum_polygons
            },
        }
    }

    /// Where the polygon of the trial after the present one comes from.
    pub open spec fn successor(self) -> Successor {
        if self.trial + 1 >= self.parameters.count {
            Successor::Finished
        } else if self.parameters.minimize {
            Successor::Fresh
        } else {
            Successor::Perturbed
        }
    }
}

/// A trial keeps a run valid. The count of minimum polygons grows by one
/// where the run minimizes and the trial ended on a small polygon of
/// VC-dimension 4, and stays as it is otherwise; so it never exceeds the
/// number of trials.
pub proof fn lemma_trial_keeps_valid(run: Run, active: Visibility)
    requires
        run.valid(),
        !run.finished(),
    ensures
        run.after_trial(active).valid(),
        run.after_trial(active).minimum_polygons <= run.parameters.count,
        run.after_trial(active).minimum_polygons == if run.parameters.minimize
            && active.vc_dimension == 4 && active.small {
            run.minimum_polygons + 1
        } else {
            run.minimum_polygons
        },
{
}

/// A run in progress.
pub struct Experiment {
    parameters: RunParameters,
    trial: usize,
    minimum_polygons: usize,
}

impl View for Experiment {
    type V = Run;

    closed spec fn view(&self) -> Run {
        Run {
            parameters: self.parameters,
            trial: self.trial as nat,
            minimum_polygons: self.minimum_polygons as nat,
        }
    }
}

impl Experiment {
    /// Every run in progress is valid.
    #[verifier::type_invariant]
    pub open spec fn inv(&self) -> bool {
        self@.valid()
    }

    /// Starts a run.
    pub fn new(parameters: RunParameters) -> (experiment: Self)
        ensures
            experiment@ == Run::start(parameters),
    {
        Experiment { parameters, trial: 0, minimum_polygons: 0 }
    }

    /// The parameters of the run.
    pub fn parameters(&self) -> (parameters: RunParameters)
        ensures
            parameters == self@.parameters,
    {
        self.parameters
    }

    /// Whether all trials are over.
    pub fn is_finished(&self) -> (finished: bool)
        ensures
            finished == self@.finished(),
    {
        self.trial >= self.parameters.count
    }

    /// Whether the polygon of a trial is to be minimized before it is
    /// classified.
    pub fn wants_minimization(&self) -> (wanted: bool)
        ensures
            wanted == self@.parameters.minimize,
    {
        self.parameters.minimize
    }

    /// The number of trials that are over.
    pub fn trial(&self) -> (trial: usize)
        ensures
            trial == self@.trial,
    {
        self.trial
    }

    /// How many trials ended, after minimization, on a small polygon of
    /// VC-dimension 4: never more than there were trials.
    pub fn minimum_polygons(&self) -> (found: usize)
        ensures
            found == self@.minimum_polygons,
            found <= self@.trial <= self@.parameters.count,
    {
        proof {
            use_type_invariant(self);
        }
        self.minimum_polygons
    }

    /// Ends a trial. `vc_dimension` is that of the trial's polygon as it
    /// was generated, `active` the visibility of the polygon that the
    /// trial ended on: the minimized one where the run minimizes.
    pub fn conclude_trial(&mut self, vc_dimension: usize, active: &VisibilityProfile) -> (report:
        TrialReport)
        requires
            !old(self)@.finished(),
        ensures
            final(self)@ == old(self)@.after_trial(active@),
            report.export_to is Some <==> old(self)@.exports(active@),
            report.export_to matches Some(name) ==> name@ == file_name(
                vc_dimension as nat,
                old(self)@.parameters.n as nat,
                old(self)@.trial,
            ),
            report.progress@ == decimal(vc_dimension as nat),
            report.successor == old(self)@.successor(),
    {
        let successor = if self.trial + 1 >= self.parameters.count {
            Successor::Finished
        } else if self.parameters.minimize {
            Successor::Fresh
        } else {
            Successor::Perturbed
        };
        let export_to = if self.parameters.export_all || is_interesting(active) {
            Some(export_file_name(vc_dimension, self.parameters.n, self.trial))
        } else {
            None
        };
        let mut progress = String::new();
        push_decimal(&mut progress, vc_dimension);
        proof {
            assert(Seq::<char>::empty() + decimal(vc_dimension as nat) =~= decimal(
                vc_dimension as nat,
            ));
        }
        proof {
            use_type_invariant(&*self);
        }
        self.trial = self.trial + 1;
        if self.parameters.minimize && active.vc_dimension() == 4 && active.is_small() {
            self.minimum_polygons = self.minimum_polygons + 1;
        }
        TrialReport { export_to, progress, successor }
    }

    /// The closing line of the run.
    pub fn summary(&self) -> (text: String)
        ensures
            text@ == summary_of(self@.minimum_polygons),
    {
        let mut text = String::from_str("\nFound ");
        push_decimal(&mut text, self.minimum_polygons);
        text.append(" minimum polygons with d = 4.");
        text
    }
}

/// Writes out the name of the file for a trial's polygon.
pub fn export_file_name(vc_dimension: usize, n: usize, trial: usize) -> (name: String)
    ensures
        name@ == file_name(vc_dimension as nat, n as nat, trial as nat),
{
    let mut name = String::from_str("out/vc");
    push_decimal(&mut name, vc_dimension);
    name.append("-n");
    push_decimal(&mut name, n);
    name.append("_");
    push_zero_padded(&mut name, trial, 3);
    name.append(".ipe");
    name
}

} // verus!
