use vstd::prelude::*;
use vstd::string::*;

verus! {

/// File name ending of a dataset.
pub open spec fn has_csv_suffix(s: Seq<char>) -> bool {
    &&& s.len() >= 4
    &&& s[s.len() - 4] == '.'
    &&& s[s.len() - 3] == 'c'
    &&& s[s.len() - 2] == 's'
    &&& s[s.len() - 1] == 'v'
}

/// Names that end in `.csv`, in their order.
pub open spec fn csv_names(names: Seq<Seq<char>>) -> Seq<Seq<char>>
    decreases names.len(),
{
    if names.len() == 0 {
        Seq::empty()
    } else {
        let prev = csv_names(names.drop_last());
        if has_csv_suffix(names.last()) {
            prev.push(names.last())
        } else {
            prev
        }
    }
}

/// The strings of a vector as character sequences.
pub open spec fn strings_view(v: Seq<String>) -> Seq<Seq<char>> {
    v.map_values(|s: String| s@)
}

/// Whether `s` ends in `.csv`.
pub fn is_csv_name(s: &str) -> (r: bool)
    ensures
        r == has_csv_suffix(s@),
{
    let n = s.unicode_len();
    if n < 4 {
        return false;
    }
    s.get_char(n - 4) == '.' && s.get_char(n - 3) == 'c' && s.get_char(n - 2) == 's'
        && s.get_char(n - 1) == 'v'
}

/// Picks, among the names of the files of the dataset directory, those that
/// end in `.csv`; when none does, the list names the default dataset alone.
pub fn select_csv_files(names: &Vec<String>) -> (r: Vec<String>)
    ensures
        csv_names(strings_view(names@)).len() > 0 ==> strings_view(r@) == csv_names(
            strings_view(names@),
        ),
        csv_names(strings_view(names@)).len() == 0 ==> r@.len() == 1 && r@[0]@
            == default_dataset_name_spec(),
{
    let ghost all = strings_view(names@);
    let mut out: Vec<String> = Vec::new();
    let mut i: usize = 0;
    while i < names.len()
        invariant
            all == strings_view(names@),
            i <= names.len(),
            strings_view(out@) == csv_names(all.take(i as int)),
        decreases names.len() - i,
    {
        assert(all.take(i + 1).drop_last() =~= all.take(i as int));
        assert(all.take(i + 1).last() == names@[i as int]@);
        let ghost before = out@;
        if is_csv_name(names[i].as_str()) {
            out.push(names[i].clone());
            assert(strings_view(out@) =~= strings_view(before).push(names@[i as int]@));
        }
        i += 1;
    }
    assert(all.take(i as int) =~= all);
    if out.len() == 0 {
        out.push(default_dataset_name());
    }
    out
}

/// The dataset used when the directory holds none.
pub open spec fn default_dataset_name_spec() -> Seq<char> {
    "pollution_dataset5k.csv"@
}

/// Name of the dataset offered when the directory holds none.
pub fn default_dataset_name() -> (r: String)
    ensures
        r@ == default_dataset_name_spec(),
{
    String::from_str("pollution_dataset5k.csv")
}

/// Path of a dataset, from its file name.
pub open spec fn dataset_path_of(name: Seq<char>) -> Seq<char> {
    "csv/"@ + name
}

/// Builds the path of a dataset from its file name.
pub fn dataset_path(name: &str) -> (r: String)
    ensures
        r@ == dataset_path_of(name@),
{
    let mut p = String::from_str("csv/");
    p.append(name);
    p
}

/// Whether some offered dataset has the path `path`.
pub open spec fn offers_path(names: Seq<Seq<char>>, path: Seq<char>) -> bool {
    exists|i: int| 0 <= i < names.len() && dataset_path_of(#[trigger] names[i]) == path
}

/// State of the current run shared between the worker and the window: latest
/// epoch, loss and accuracy (`None` until reported), their histories, the run's
/// flags, and which dataset is chosen among those offered.
pub struct TrainingData<M> {
    pub epoch: usize,
    pub loss: Option<M>,
    pub accuracy: Option<M>,
    pub losses: Vec<M>,
    pub accuracies: Vec<M>,
    pub training_in_progress: bool,
    pub completed: bool,
    pub should_stop: bool,
    pub show_stop_confirm: bool,
    pub dataset_path: String,
    pub available_datasets: Vec<String>,
}

impl<M: Copy> TrainingData<M> {
    /// The dataset choice is the same in both states.
    pub open spec fn same_selection(&self, other: &Self) -> bool {
        &&& self.dataset_path == other.dataset_path
        &&& self.available_datasets == other.available_datasets
    }

    /// The progress fields are the same in both states.
    pub open spec fn same_progress(&self, other: &Self) -> bool {
        &&& self.epoch == other.epoch
        &&& self.loss == other.loss
        &&& self.accuracy == other.accuracy
        &&& self.losses@ == other.losses@
        &&& self.accuracies@ == other.accuracies@
    }

    /// A fresh state: nothing reported, no flag set, the default dataset chosen
    /// among the three bundled ones.
    pub fn new() -> (r: Self)
        ensures
            r.epoch == 0,
            r.loss is None,
            r.accuracy is None,
            r.losses@.len() == 0,
            r.accuracies@.len() == 0,
            !r.training_in_progress,
            !r.completed,
            !r.should_stop,
            !r.show_stop_confirm,
            r.dataset_path@ == dataset_path_of(default_dataset_name_spec()),
            strings_view(r.available_datasets@) == seq![
                default_dataset_name_spec(),
                "pollution_dataset2k.csv"@,
                "pollution_dataset1k.csv"@,
            ],
    {
        let first = default_dataset_name();
        let path = dataset_path(first.as_str());
        let mut available: Vec<String> = Vec::new();
        available.push(first);
        available.push(String::from_str("pollution_dataset2k.csv"));
        available.push(String::from_str("pollution_dataset1k.csv"));
        let r = TrainingData {
            epoch: 0,
            loss: None,
            accuracy: None,
            losses: Vec::new(),
            accuracies: Vec::new(),
            training_in_progress: false,
            completed: false,
            should_stop: false,
            show_stop_confirm: false,
            dataset_path: path,
            available_datasets: available,
        };
        assert(strings_view(r.available_datasets@) =~= seq![
            default_dataset_name_spec(),
            "pollution_dataset2k.csv"@,
            "pollution_dataset1k.csv"@,
        ]);
        r
    }

    /// Clears what a previous run reported and marks a run as in progress.
    pub fn reset(&mut self)
        ensures
            final(self).epoch == 0,
            final(self).loss is None,
            final(self).accuracy is None,
            final(self).losses@.len() == 0,
            final(self).accuracies@.len() == 0,
            final(self).training_in_progress,
            !final(self).completed,
            !final(self).should_stop,
            !final(self).show_stop_confirm,
            final(self).same_selection(old(self)),
    {
        self.epoch = 0;
        self.loss = None;
        self.accuracy = None;
        self.training_in_progress = true;
        self.completed = false;
        self.should_stop = false;
        self.show_stop_confirm = false;
        self.losses = Vec::new();
        self.accuracies = Vec::new();
    }

    /// Records the metrics of one epoch: the accuracy shown is the measured one
    /// or, on epochs without a measurement, the estimate the caller derived.
    pub fn update_progress(&mut self, epoch: usize, loss: M, accuracy: M)
        ensures
            final(self).epoch == epoch,
            final(self).loss == Some(loss),
            final(self).accuracy == Some(accuracy),
            final(self).losses@ == old(self).losses@.push(loss),
            final(self).accuracies@ == old(self).accuracies@.push(accuracy),
            final(self).training_in_progress == old(self).training_in_progress,
            final(self).completed == old(self).completed,
            final(self).should_stop == old(self).should_stop,
            final(self).show_stop_confirm == old(self).show_stop_confirm,
            final(self).same_selection(old(self)),
    {
        self.epoch = epoch;
        self.loss = Some(loss);
        self.accuracy = Some(accuracy);
        self.losses.push(loss);
        self.accuracies.push(accuracy);
    }

    /// Marks the run as finished with its final accuracy; a pending stop
    /// request is cleared.
    pub fn training_completed(&mut self, accuracy: M)
        ensures
            final(self).completed,
            !final(self).training_in_progress,
            !final(self).should_stop,
            final(self).accuracy == Some(accuracy),
            final(self).epoch == old(self).epoch,
            final(self).loss == old(self).loss,
            final(self).losses@ == old(self).losses@,
            final(self).accuracies@ == old(self).accuracies@,
            final(self).show_stop_confirm == old(self).show_stop_confirm,
            final(self).same_selection(old(self)),
    {
        self.completed = true;
        self.training_in_progress = false;
        self.should_stop = false;
        self.accuracy = Some(accuracy);
    }

    /// Marks a run that was stopped before its first epoch: neither in
    /// progress nor completed, with nothing reported.
    pub fn training_abandoned(&mut self)
        ensures
            !final(self).completed,
            !final(self).training_in_progress,
            final(self).should_stop == old(self).should_stop,
            final(self).show_stop_confirm == old(self).show_stop_confirm,
            final(self).same_progress(old(self)),
            final(self).same_selection(old(self)),
    {
        self.training_in_progress = false;
        self.completed = false;
    }

    /// Asks the running worker to stop; without a run in progress nothing
    /// changes.
    pub fn stop_training(&mut self)
        ensures
            final(self).should_stop == (old(self).should_stop || old(self).training_in_progress),
            final(self).training_in_progress == old(self).training_in_progress,
            final(self).completed == old(self).completed,
            final(self).show_stop_confirm == old(self).show_stop_confirm,
            final(self).same_progress(old(self)),
            final(self).same_selection(old(self)),
    {
        if self.training_in_progress {
            self.should_stop = true;
        }
    }

    /// Whether a stop was requested.
    pub fn should_stop_training(&self) -> (r: bool)
        ensures
            r == self.should_stop,
    {
        self.should_stop
    }

    /// The stop button: while a run is in progress, ask for confirmation.
    pub fn ask_stop_confirmation(&mut self)
        ensures
            final(self).show_stop_confirm == (old(self).show_stop_confirm
                || old(self).training_in_progress),
            final(self).should_stop == old(self).should_stop,
            final(self).training_in_progress == old(self).training_in_progress,
            final(self).completed == old(self).completed,
            final(self).same_progress(old(self)),
            final(self).same_selection(old(self)),
    {
        if self.training_in_progress {
            self.show_stop_confirm = true;
        }
    }

    /// The confirmation was accepted: request the stop and close the dialog.
    pub fn confirm_stop(&mut self)
        ensures
            final(self).should_stop,
            !final(self).show_stop_confirm,
            final(self).training_in_progress == old(self).training_in_progress,
            final(self).completed == old(self).completed,
            final(self).same_progress(old(self)),
            final(self).same_selection(old(self)),
    {
        self.should_stop = true;
        self.show_stop_confirm = false;
    }

    /// The confirmation was declined: close the dialog, keep training.
    pub fn cancel_stop(&mut self)
        ensures
            !final(self).show_stop_confirm,
            final(self).should_stop == old(self).should_stop,
            final(self).training_in_progress == old(self).training_in_progress,
            final(self).completed == old(self).completed,
            final(self).same_progress(old(self)),
            final(self).same_selection(old(self)),
    {
        self.show_stop_confirm = false;
    }

    /// The train button. While a run is in progress it is ignored and `false`
    /// comes back. Otherwise the state is reset for a new run and `true` tells
    /// the caller to start the worker.
    pub fn start_training(&mut self) -> (r: bool)
        ensures
            r == !old(self).training_in_progress,
            !r ==> *final(self) == *old(self),
            r ==> final(self).training_in_progress && !final(self).completed
                && final(self).epoch == 0 && final(self).loss is None
                && final(self).accuracy is None && final(self).losses@.len() == 0
                && final(self).accuracies@.len() == 0 && !final(self).should_stop
                && !final(self).show_stop_confirm && final(self).same_selection(old(self)),
    {
        if self.training_in_progress {
            return false;
        }
        self.reset();
        true
    }

    /// Chooses the dataset with file name `name`.
    pub fn select_dataset(&mut self, name: &str)
        ensures
            final(self).dataset_path@ == dataset_path_of(name@),
            final(self).available_datasets == old(self).available_datasets,
            final(self).training_in_progress == old(self).training_in_progress,
            final(self).completed == old(self).completed,
            final(self).should_stop == old(self).should_stop,
            final(self).show_stop_confirm == old(self).show_stop_confirm,
            final(self).same_progress(old(self)),
    {
        self.dataset_path = dataset_path(name);
    }

    /// Replaces the offered datasets by the `.csv` files among `file_names`
    /// (the default dataset alone when there is none); when the chosen path is
    /// no longer offered, the first offered dataset is chosen.
    pub fn refresh_datasets(&mut self, file_names: &Vec<String>)
        ensures
            csv_names(strings_view(file_names@)).len() > 0 ==> strings_view(
                final(self).available_datasets@,
            ) == csv_names(strings_view(file_names@)),
            csv_names(strings_view(file_names@)).len() == 0 ==> strings_view(
                final(self).available_datasets@,
            ) == seq![default_dataset_name_spec()],
            offers_path(strings_view(final(self).available_datasets@), old(self).dataset_path@)
                ==> final(self).dataset_path@ == old(self).dataset_path@,
            !offers_path(strings_view(final(self).available_datasets@), old(self).dataset_path@)
                ==> final(self).dataset_path@ == dataset_path_of(
                final(self).available_datasets@[0]@,
            ),
            final(self).training_in_progress == old(self).training_in_progress,
            final(self).completed == old(self).completed,
            final(self).should_stop == old(self).should_stop,
            final(self).show_stop_confirm == old(self).show_stop_confirm,
            final(self).same_progress(old(self)),
    {
        let found = select_csv_files(file_names);
        proof {
            if csv_names(strings_view(file_names@)).len() == 0 {
                assert(strings_view(found@) =~= seq![default_dataset_name_spec()]);
            }
        }
        let ghost names = strings_view(found@);
        let mut offered = false;
        let mut i: usize = 0;
        while i < found.len()
            invariant
                names == strings_view(found@),
                i <= found.len(),
                offered == exists|k: int|
                    0 <= k < i && dataset_path_of(#[trigger] names[k]) == self.dataset_path@,
            decreases found.len() - i,
        {
            let candidate = dataset_path(found[i].as_str());
            if candidate == self.dataset_path {
                offered = true;
            }
            proof {
                if candidate@ == self.dataset_path@ {
                    assert(dataset_path_of(names[i as int]) == self.dataset_path@);
                }
            }
            i += 1;
        }
        if !offered && found.len() > 0 {
            self.dataset_path = dataset_path(found[0].as_str());
        }
        self.available_datasets = found;
    }
}

} // verus!
