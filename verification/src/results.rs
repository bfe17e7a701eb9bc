//! The results of a benchmark in the form in which they are stored.

use vstd::prelude::*;

verus! {

/// One series of measurements. A measurement is kept as the decimal text
/// that the tool printed; whoever stores the results reads the number from
/// it.
#[derive(Clone, Debug, PartialEq, Eq)]
pub struct DataEntry {
    /// What was run to get the series.
    pub parameter: String,
    pub measurements: Vec<String>,
    pub data_unit: String,
    /// The label of the axis on which the series is drawn.
    pub measurement_name: String,
}

pub struct DataEntryView {
    pub parameter: Seq<char>,
    pub measurements: Seq<Seq<char>>,
    pub data_unit: Seq<char>,
    pub measurement_name: Seq<char>,
}

impl View for DataEntry {
    type V = DataEntryView;

    open spec fn view(&self) -> DataEntryView {
        DataEntryView {
            parameter: self.parameter@,
            measurements: self.measurements.deep_view(),
            data_unit: self.data_unit@,
            measurement_name: self.measurement_name@,
        }
    }
}

impl DeepView for DataEntry {
    type V = DataEntryView;

    open spec fn deep_view(&self) -> DataEntryView {
        self@
    }
}

/// The results of one benchmark.
#[derive(Clone, Debug, PartialEq, Eq)]
pub struct ResultResponse {
    pub name: String,
    pub description: String,
    pub data: Vec<DataEntry>,
    /// What the tool printed, unchanged.
    pub raw_data: String,
    pub generated_jupyter: Option<String>,
}

pub struct ResultResponseView {
    pub name: Seq<char>,
    pub description: Seq<char>,
    pub data: Seq<DataEntryView>,
    pub raw_data: Seq<char>,
    pub generated_jupyter: Option<Seq<char>>,
}

impl View for ResultResponse {
    type V = ResultResponseView;

    open spec fn view(&self) -> ResultResponseView {
        ResultResponseView {
            name: self.name@,
            description: self.description@,
            data: self.data.deep_view(),
            raw_data: self.raw_data@,
            generated_jupyter: self.generated_jupyter.deep_view(),
        }
    }
}

impl DeepView for ResultResponse {
    type V = ResultResponseView;

    open spec fn deep_view(&self) -> ResultResponseView {
        self@
    }
}

} // verus!
