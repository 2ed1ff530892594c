//! The run-level summary built once all jobs are retired.
use vstd::prelude::*;

use crate::messages::{BuildReport, ReportM};

verus! {

pub open spec fn pairs_view(v: Seq<(String, BuildReport)>) -> Seq<(Seq<char>, ReportM)> {
    Seq::new(v.len(), |i: int| (v[i].0@, v[i].1@))
}

/// The summary of one whole run: how many jobs were retired, how many
/// succeeded and failed, and each retired job's parsed report keyed by the
/// job's name.  The key order carries no meaning.
#[derive(Debug)]
pub struct RunnerReport {
    pub num_files: usize,
    pub success: usize,
    pub fail: usize,
    pub build_reports: Vec<(String, BuildReport)>,
}

pub ghost struct RunnerReportM {
    pub num_files: int,
    pub success: int,
    pub fail: int,
    pub build_reports: Seq<(Seq<char>, ReportM)>,
}

impl View for RunnerReport {
    type V = RunnerReportM;

    open spec fn view(&self) -> RunnerReportM {
        RunnerReportM {
            num_files: self.num_files as int,
            success: self.success as int,
            fail: self.fail as int,
            build_reports: pairs_view(self.build_reports@),
        }
    }
}

impl RunnerReport {
    /// An empty summary.
    pub fn new() -> (r: RunnerReport)
        ensures
            r@.num_files == 0,
            r@.success == 0,
            r@.fail == 0,
            r@.build_reports.len() == 0,
    {
        RunnerReport { num_files: 0, success: 0, fail: 0, build_reports: Vec::new() }
    }
}

} // verus!
