//! What the selection of files reports to the metrics.
//!
//! A [`GaugeLog`] holds, in order, the values that a gauge is to be set to, each for some
//! attributes. A [`HistogramLog`] holds, in order, the series that are to be recorded in a
//! histogram: the attributes, which the histogram then knows of, and the samples for them, if any.

use vstd::prelude::*;

verus! {

/// A value observed under some attributes, which are given by name and text.
#[derive(Clone, Debug, PartialEq, Eq)]
pub struct Observation {
    /// Attributes, each by its name and its text
    pub attributes: Vec<(&'static str, &'static str)>,
    /// Observed value
    pub value: u64,
}

/// The observations to report to a gauge, in order.
#[derive(Clone, Debug, PartialEq, Eq)]
pub struct GaugeLog {
    /// Observations, the earliest first
    pub observations: Vec<Observation>,
}

/// Samples under some attributes, which are given by name and text.
#[derive(Clone, Debug, PartialEq, Eq)]
pub struct Series {
    /// Attributes, each by its name and its text
    pub attributes: Vec<(&'static str, &'static str)>,
    /// Samples, in order; there may be none
    pub values: Vec<u64>,
}

/// The series to record in a histogram, in order.
#[derive(Clone, Debug, PartialEq, Eq)]
pub struct HistogramLog {
    /// Series, the earliest first
    pub series: Vec<Series>,
}

/// An observation, with the attributes as text.
#[verifier::ext_equal]
pub ghost struct ObservationView {
    pub attributes: Seq<(Seq<char>, Seq<char>)>,
    pub value: nat,
}

/// A series, with the attributes as text.
#[verifier::ext_equal]
pub ghost struct SeriesView {
    pub attributes: Seq<(Seq<char>, Seq<char>)>,
    pub values: Seq<u64>,
}

/// The text of some attributes.
pub open spec fn attribute_text(attributes: Seq<(&'static str, &'static str)>) -> Seq<
    (Seq<char>, Seq<char>),
> {
    attributes.map_values(|a: (&'static str, &'static str)| (a.0@, a.1@))
}

impl View for Observation {
    type V = ObservationView;

    open spec fn view(&self) -> ObservationView {
        ObservationView {
            attributes: attribute_text(self.attributes@),
            value: self.value as nat,
        }
    }
}

impl View for Series {
    type V = SeriesView;

    open spec fn view(&self) -> SeriesView {
        SeriesView { attributes: attribute_text(self.attributes@), values: self.values@ }
    }
}

impl View for HistogramLog {
    type V = Seq<SeriesView>;

    open spec fn view(&self) -> Seq<SeriesView> {
        self.series@.map_values(|s: Series| s@)
    }
}

impl View for GaugeLog {
    type V = Seq<ObservationView>;

    open spec fn view(&self) -> Seq<ObservationView> {
        self.observations@.map_values(|o: Observation| o@)
    }
}

impl GaugeLog {
    /// A log without observations.
    pub fn new() -> (res: Self)
        ensures
            res@ == Seq::<ObservationView>::empty(),
    {
        GaugeLog { observations: Vec::new() }
    }

    /// Adds an observation at the end.
    pub fn push(&mut self, attributes: Vec<(&'static str, &'static str)>, value: u64)
        ensures
            final(self)@ == old(self)@.push(
                (ObservationView {
                    attributes: attribute_text(attributes@),
                    value: value as nat,
                }),
            ),
    {
        let ghost before = self@;
        let observation = Observation { attributes, value };
        self.observations.push(observation);
        assert(self@ =~= before.push(observation@));
    }
}

impl HistogramLog {
    /// A log without series.
    pub fn new() -> (res: Self)
        ensures
            res@ == Seq::<SeriesView>::empty(),
    {
        HistogramLog { series: Vec::new() }
    }

    /// Adds a series at the end.
    pub fn push(&mut self, attributes: Vec<(&'static str, &'static str)>, values: Vec<u64>)
        ensures
            final(self)@ == old(self)@.push(
                (SeriesView { attributes: attribute_text(attributes@), values: values@ }),
            ),
    {
        let ghost before = self@;
        let series = Series { attributes, values };
        self.series.push(series);
        assert(self@ =~= before.push(series@));
    }
}

/// The attributes under which the number of files of a level with a status is reported.
pub open spec fn file_attributes(level: Seq<char>, status: Seq<char>) -> Seq<
    (Seq<char>, Seq<char>),
> {
    seq![("compaction_level"@, level), ("status"@, status)]
}

/// The number of files of a level that were, or were not, selected.
pub open spec fn file_observation(
    level: Seq<char>,
    status: Seq<char>,
    value: nat,
) -> ObservationView {
    ObservationView { attributes: file_attributes(level, status), value }
}

/// For each level, how many of the considered files were selected and how many were not.
pub open spec fn file_observations(
    level_0_considering: nat,
    level_1_considering: nat,
    level_0_compacting: nat,
    level_1_compacting: nat,
) -> Seq<ObservationView> {
    seq![
        file_observation("0"@, "selected_for_compaction"@, level_0_compacting),
        file_observation(
            "0"@,
            "not_selected_for_compaction"@,
            (level_0_considering - level_0_compacting) as nat,
        ),
        file_observation("1"@, "selected_for_compaction"@, level_1_compacting),
        file_observation(
            "1"@,
            "not_selected_for_compaction"@,
            (level_1_considering - level_1_compacting) as nat,
        ),
    ]
}

/// Samples under one attribute.
pub open spec fn series(name: Seq<char>, text: Seq<char>, values: Seq<u64>) -> SeriesView {
    SeriesView { attributes: seq![(name, text)], values }
}

/// The sizes of the selected files, then what they are estimated to need, each with level 0 first.
/// There is a series for each of them, also where no file of the level is selected.
pub open spec fn byte_series(
    level_0_sizes: Seq<u64>,
    level_1_sizes: Seq<u64>,
    level_0_budgets: Seq<u64>,
    level_1_budgets: Seq<u64>,
) -> Seq<SeriesView> {
    seq![
        series("file_size_compaction_level"@, "0"@, level_0_sizes),
        series("file_size_compaction_level"@, "1"@, level_1_sizes),
        series("file_estimated_compacting_budget_compaction_level"@, "0"@, level_0_budgets),
        series("file_estimated_compacting_budget_compaction_level"@, "1"@, level_1_budgets),
    ]
}

/// Reports how many files were considered and how many of them were selected.
pub fn record_file_metrics(
    gauge: &mut GaugeLog,
    num_level_0_considering: u64,
    num_level_1_considering: u64,
    num_level_0_compacting: u64,
    num_level_1_compacting: u64,
)
    requires
        num_level_0_compacting <= num_level_0_considering,
        num_level_1_compacting <= num_level_1_considering,
    ensures
        final(gauge)@ == old(gauge)@ + file_observations(
            num_level_0_considering as nat,
            num_level_1_considering as nat,
            num_level_0_compacting as nat,
            num_level_1_compacting as nat,
        ),
{
    push_file_metric(gauge, "0", "selected_for_compaction", num_level_0_compacting);
    push_file_metric(
        gauge,
        "0",
        "not_selected_for_compaction",
        num_level_0_considering - num_level_0_compacting,
    );
    push_file_metric(gauge, "1", "selected_for_compaction", num_level_1_compacting);
    push_file_metric(
        gauge,
        "1",
        "not_selected_for_compaction",
        num_level_1_considering - num_level_1_compacting,
    );
}

/// Adds the number of files of a level with a status.
fn push_file_metric(
    gauge: &mut GaugeLog,
    level: &'static str,
    status: &'static str,
    value: u64,
)
    ensures
        final(gauge)@ == old(gauge)@.push(file_observation(level@, status@, value as nat)),
{
    let attributes: Vec<(&'static str, &'static str)> = vec![
        ("compaction_level", level),
        ("status", status),
    ];
    assert(attribute_text(attributes@) =~= file_attributes(level@, status@));
    gauge.push(attributes, value);
}

/// Reports the sizes of the selected files and the memory that they are estimated to need.
pub fn record_byte_metrics(
    histogram: &mut HistogramLog,
    level_0_sizes: Vec<u64>,
    level_1_sizes: Vec<u64>,
    level_0_estimated_compacting_budgets: Vec<u64>,
    level_1_estimated_compacting_budgets: Vec<u64>,
)
    ensures
        final(histogram)@ == old(histogram)@ + byte_series(
            level_0_sizes@,
            level_1_sizes@,
            level_0_estimated_compacting_budgets@,
            level_1_estimated_compacting_budgets@,
        ),
{
    push_series(histogram, "file_size_compaction_level", "0", level_0_sizes);
    push_series(histogram, "file_size_compaction_level", "1", level_1_sizes);
    push_series(
        histogram,
        "file_estimated_compacting_budget_compaction_level",
        "0",
        level_0_estimated_compacting_budgets,
    );
    push_series(
        histogram,
        "file_estimated_compacting_budget_compaction_level",
        "1",
        level_1_estimated_compacting_budgets,
    );
}

/// Adds a series under one attribute.
fn push_series(
    histogram: &mut HistogramLog,
    name: &'static str,
    text: &'static str,
    values: Vec<u64>,
)
    ensures
        final(histogram)@ == old(histogram)@.push(series(name@, text@, values@)),
{
    let attributes: Vec<(&'static str, &'static str)> = vec![(name, text)];
    assert(attribute_text(attributes@) =~= seq![(name@, text@)]);
    histogram.push(attributes, values);
}

/// The considered files of each level are split between those that are reported as selected and
/// those that are reported as not selected.
pub proof fn law_considered_files_are_all_counted(
    level_0_considering: nat,
    level_1_considering: nat,
    level_0_compacting: nat,
    level_1_compacting: nat,
)
    requires
        level_0_compacting <= level_0_considering,
        level_1_compacting <= level_1_considering,
    ensures
        ({
            let reported = file_observations(
                level_0_considering,
                level_1_considering,
                level_0_compacting,
                level_1_compacting,
            );
            &&& reported[0].value + reported[1].value == level_0_considering
            &&& reported[2].value + reported[3].value == level_1_considering
        }),
{
}

/// What a gauge shows under some attributes: the value that was set last.
pub open spec fn gauge_value(
    log: Seq<ObservationView>,
    attributes: Seq<(Seq<char>, Seq<char>)>,
) -> Option<nat>
    decreases log.len(),
{
    if log.len() == 0 {
        None
    } else if log.last().attributes == attributes {
        Some(log.last().value)
    } else {
        gauge_value(log.drop_last(), attributes)
    }
}

/// Once a selection is reported, the gauge shows for each level how many files were selected and
/// how many of the considered ones were not, whatever was reported before.
pub proof fn law_gauge_shows_the_last_selection(
    log: Seq<ObservationView>,
    level_0_considering: nat,
    level_1_considering: nat,
    level_0_compacting: nat,
    level_1_compacting: nat,
)
    requires
        level_0_compacting <= level_0_considering,
        level_1_compacting <= level_1_considering,
    ensures
        ({
            let shown = log + file_observations(
                level_0_considering,
                level_1_considering,
                level_0_compacting,
                level_1_compacting,
            );
            let selected = "selected_for_compaction"@;
            let not_selected = "not_selected_for_compaction"@;
            &&& gauge_value(shown, file_attributes("0"@, selected)) == Some(level_0_compacting)
            &&& gauge_value(shown, file_attributes("0"@, not_selected)) == Some(
                (level_0_considering - level_0_compacting) as nat,
            )
            &&& gauge_value(shown, file_attributes("1"@, selected)) == Some(level_1_compacting)
            &&& gauge_value(shown, file_attributes("1"@, not_selected)) == Some(
                (level_1_considering - level_1_compacting) as nat,
            )
        }),
{
    reveal_strlit("0");
    reveal_strlit("1");
    reveal_strlit("selected_for_compaction");
    reveal_strlit("not_selected_for_compaction");
    let reported = file_observations(
        level_0_considering,
        level_1_considering,
        level_0_compacting,
        level_1_compacting,
    );
    let selected = "selected_for_compaction"@;
    let not_selected = "not_selected_for_compaction"@;
    assert("0"@[0] != "1"@[0]);
    assert(selected.len() != not_selected.len());
    assert(file_attributes("0"@, selected)[0] == ("compaction_level"@, "0"@));
    assert(file_attributes("0"@, not_selected)[0] == ("compaction_level"@, "0"@));
    assert(file_attributes("1"@, selected)[0] == ("compaction_level"@, "1"@));
    assert(file_attributes("1"@, not_selected)[0] == ("compaction_level"@, "1"@));
    assert(file_attributes("0"@, selected)[1] == ("status"@, selected));
    assert(file_attributes("0"@, not_selected)[1] == ("status"@, not_selected));
    assert(file_attributes("1"@, selected)[1] == ("status"@, selected));
    assert(file_attributes("1"@, not_selected)[1] == ("status"@, not_selected));
    let shown = log + reported;
    assert(shown.drop_last() =~= log + reported.take(3));
    assert((log + reported.take(3)).drop_last() =~= log + reported.take(2));
    assert((log + reported.take(2)).drop_last() =~= log + reported.take(1));
    reveal_with_fuel(gauge_value, 5);
}

/// What a histogram holds under some attributes once it has got samples for them, of which there
/// may be none.
pub open spec fn samples_with(before: Option<Seq<u64>>, values: Seq<u64>) -> Option<Seq<u64>> {
    match before {
        Some(earlier) => Some(earlier + values),
        None => Some(values),
    }
}

/// What a histogram holds under some attributes: all samples for them, in order, or nothing if it
/// does not know of the attributes.
pub open spec fn histogram_samples(
    log: Seq<SeriesView>,
    attributes: Seq<(Seq<char>, Seq<char>)>,
) -> Option<Seq<u64>>
    decreases log.len(),
{
    if log.len() == 0 {
        None
    } else {
        let before = histogram_samples(log.drop_last(), attributes);
        if log.last().attributes != attributes {
            before
        } else {
            samples_with(before, log.last().values)
        }
    }
}

/// Once a selection is reported, the histogram knows of the sizes and the budgets of both levels,
/// even of a level without files: under each of them it holds what it held and then the new
/// samples. Under other attributes nothing changes.
pub proof fn law_histogram_holds_each_series(
    log: Seq<SeriesView>,
    level_0_sizes: Seq<u64>,
    level_1_sizes: Seq<u64>,
    level_0_budgets: Seq<u64>,
    level_1_budgets: Seq<u64>,
    other: Seq<(Seq<char>, Seq<char>)>,
)
    ensures
        ({
            let held = log + byte_series(
                level_0_sizes,
                level_1_sizes,
                level_0_budgets,
                level_1_budgets,
            );
            let size_0 = seq![("file_size_compaction_level"@, "0"@)];
            let size_1 = seq![("file_size_compaction_level"@, "1"@)];
            let budget_0 = seq![("file_estimated_compacting_budget_compaction_level"@, "0"@)];
            let budget_1 = seq![("file_estimated_compacting_budget_compaction_level"@, "1"@)];
            &&& histogram_samples(held, size_0) == samples_with(
                histogram_samples(log, size_0),
                level_0_sizes,
            )
            &&& histogram_samples(held, size_1) == samples_with(
                histogram_samples(log, size_1),
                level_1_sizes,
            )
            &&& histogram_samples(held, budget_0) == samples_with(
                histogram_samples(log, budget_0),
                level_0_budgets,
            )
            &&& histogram_samples(held, budget_1) == samples_with(
                histogram_samples(log, budget_1),
                level_1_budgets,
            )
            &&& other != size_0 && other != size_1 && other != budget_0 && other != budget_1
                ==> histogram_samples(held, other) == histogram_samples(log, other)
        }),
{
    reveal_strlit("0");
    reveal_strlit("1");
    reveal_strlit("file_size_compaction_level");
    reveal_strlit("file_estimated_compacting_budget_compaction_level");
    let size = "file_size_compaction_level"@;
    let budget = "file_estimated_compacting_budget_compaction_level"@;
    assert("0"@[0] != "1"@[0]);
    assert(size.len() != budget.len());
    assert(seq![(size, "0"@)][0] == (size, "0"@));
    assert(seq![(size, "1"@)][0] == (size, "1"@));
    assert(seq![(budget, "0"@)][0] == (budget, "0"@));
    assert(seq![(budget, "1"@)][0] == (budget, "1"@));
    let reported = byte_series(level_0_sizes, level_1_sizes, level_0_budgets, level_1_budgets);
    assert((log + reported).drop_last() =~= log + reported.take(3));
    assert((log + reported.take(3)).drop_last() =~= log + reported.take(2));
    assert((log + reported.take(2)).drop_last() =~= log + reported.take(1));
    assert((log + reported.take(1)).drop_last() =~= log);
    reveal_with_fuel(histogram_samples, 5);
}

/// What is reported on the number of files: for each level how many of the considered files were
/// selected, and how many were not.
pub proof fn law_file_observations(
    level_0_considering: nat,
    level_1_considering: nat,
    level_0_compacting: nat,
    level_1_compacting: nat,
)
    requires
        level_0_compacting <= level_0_considering,
        level_1_compacting <= level_1_considering,
    ensures
        file_observations(
            level_0_considering,
            level_1_considering,
            level_0_compacting,
            level_1_compacting,
        ) == seq![
            ObservationView {
                attributes: seq![
                    ("compaction_level"@, "0"@),
                    ("status"@, "selected_for_compaction"@),
                ],
                value: level_0_compacting,
            },
            ObservationView {
                attributes: seq![
                    ("compaction_level"@, "0"@),
                    ("status"@, "not_selected_for_compaction"@),
                ],
                value: (level_0_considering - level_0_compacting) as nat,
            },
            ObservationView {
                attributes: seq![
                    ("compaction_level"@, "1"@),
                    ("status"@, "selected_for_compaction"@),
                ],
                value: level_1_compacting,
            },
            ObservationView {
                attributes: seq![
                    ("compaction_level"@, "1"@),
                    ("status"@, "not_selected_for_compaction"@),
                ],
                value: (level_1_considering - level_1_compacting) as nat,
            },
        ],
{
}

/// What is reported on the bytes of files: the sizes and the budgets of each level, each list as it
/// is, under its own attribute.
pub proof fn law_byte_series(
    level_0_sizes: Seq<u64>,
    level_1_sizes: Seq<u64>,
    level_0_budgets: Seq<u64>,
    level_1_budgets: Seq<u64>,
)
    ensures
        byte_series(level_0_sizes, level_1_sizes, level_0_budgets, level_1_budgets) == seq![
            SeriesView {
                attributes: seq![("file_size_compaction_level"@, "0"@)],
                values: level_0_sizes,
            },
            SeriesView {
                attributes: seq![("file_size_compaction_level"@, "1"@)],
                values: level_1_sizes,
            },
            SeriesView {
                attributes: seq![("file_estimated_compacting_budget_compaction_level"@, "0"@)],
                values: level_0_budgets,
            },
            SeriesView {
                attributes: seq![("file_estimated_compacting_budget_compaction_level"@, "1"@)],
                values: level_1_budgets,
            },
        ],
{
}

/// A gauge log stands for its observations, each with its value and the text of its attributes, in
/// their order.
pub proof fn law_gauge_log_is_its_observations(log: GaugeLog)
    ensures
        log@.len() == log.observations@.len(),
        forall|i: int|
            0 <= i < log@.len() ==> {
                &&& (#[trigger] log@[i]).value == log.observations@[i].value
                &&& log@[i].attributes.len() == log.observations@[i].attributes@.len()
                &&& forall|k: int|
                    0 <= k < log@[i].attributes.len() ==> {
                        &&& (#[trigger] log@[i].attributes[k]).0
                            == log.observations@[i].attributes@[k].0@
                        &&& log@[i].attributes[k].1 == log.observations@[i].attributes@[k].1@
                    }
            },
{
}

/// A histogram log stands for its series, each with its samples and the text of its attributes, in
/// their order.
pub proof fn law_histogram_log_is_its_series(log: HistogramLog)
    ensures
        log@.len() == log.series@.len(),
        forall|i: int|
            0 <= i < log@.len() ==> {
                &&& (#[trigger] log@[i]).values == log.series@[i].values@
                &&& log@[i].attributes.len() == log.series@[i].attributes@.len()
                &&& forall|k: int|
                    0 <= k < log@[i].attributes.len() ==> {
                        &&& (#[trigger] log@[i].attributes[k]).0
                            == log.series@[i].attributes@[k].0@
                        &&& log@[i].attributes[k].1 == log.series@[i].attributes@[k].1@
                    }
            },
{
}

} // verus!
