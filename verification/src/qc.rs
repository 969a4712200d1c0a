//! What is checked after a chunk is stored, and what becomes of the answers
//! of the checks.

use vstd::prelude::*;
use vstd::string::StringExecFns;
use crate::labels::{DataChunk, Datum};
use crate::time::TimeResolution;

verus! {

/// The history that the checks of one parameter at one resolution need.
#[derive(Debug, Clone, Copy, PartialEq, Eq, Structural)]
pub struct PipelineWindow {
    pub param_id: i32,
    pub time_resolution: TimeResolution,
    pub num_leading_required: u8,
    pub num_trailing_required: u8,
}

/// One run of a check pipeline on one stored value.
#[derive(Debug, Clone, Copy, PartialEq, Eq, Structural)]
pub struct QcJob {
    /// Index of the value in its chunk.
    pub datum: usize,
    /// Index of the pipeline among the configured ones.
    pub pipeline: usize,
    pub timeseries_id: i32,
    pub timestamp: i64,
    pub time_resolution: TimeResolution,
    pub num_leading_required: u8,
    pub num_trailing_required: u8,
}

/// The index, from `i` on, of the first pipeline for this parameter and
/// resolution.
pub open spec fn pipeline_for(
    pipelines: Seq<PipelineWindow>,
    i: int,
    param_id: i32,
    res: TimeResolution,
) -> Option<int>
    decreases pipelines.len() - i,
{
    if i < 0 || i >= pipelines.len() {
        None
    } else if pipelines[i].param_id == param_id && pipelines[i].time_resolution == res {
        Some(i)
    } else {
        pipeline_for(pipelines, i + 1, param_id, res)
    }
}

/// Finds the pipeline for a parameter at a resolution.
pub fn find_pipeline(pipelines: &Vec<PipelineWindow>, param_id: i32, res: TimeResolution) -> (r:
    Option<usize>)
    ensures
        match r {
            Some(at) => pipeline_for(pipelines@, 0, param_id, res) == Some(at as int) && at
                < pipelines@.len(),
            None => pipeline_for(pipelines@, 0, param_id, res) is None,
        },
{
    let mut i: usize = 0;
    while i < pipelines.len()
        invariant
            i <= pipelines@.len(),
            pipeline_for(pipelines@, i as int, param_id, res) == pipeline_for(
                pipelines@,
                0,
                param_id,
                res,
            ),
        decreases pipelines@.len() - i,
    {
        let p = &pipelines[i];
        if p.param_id == param_id && p.time_resolution.months == res.months
            && p.time_resolution.seconds == res.seconds {
            return Some(i);
        }
        i += 1;
    }
    None
}

/// The jobs for the values of a chunk from index `i` on, after those in
/// `acc`: one for each value whose parameter has a pipeline at the
/// resolution `res`, in the order of the chunk.
pub open spec fn jobs_from(
    data: Seq<Datum>,
    timestamp: i64,
    res: TimeResolution,
    pipelines: Seq<PipelineWindow>,
    i: int,
    acc: Seq<QcJob>,
) -> Seq<QcJob>
    decreases data.len() - i,
{
    if i < 0 || i >= data.len() {
        acc
    } else {
        match pipeline_for(pipelines, 0, data[i].param_id, res) {
            None => jobs_from(data, timestamp, res, pipelines, i + 1, acc),
            Some(at) => jobs_from(
                data,
                timestamp,
                res,
                pipelines,
                i + 1,
                acc.push(
                    QcJob {
                        datum: i as usize,
                        pipeline: at as usize,
                        timeseries_id: data[i].timeseries_id,
                        timestamp,
                        time_resolution: res,
                        num_leading_required: pipelines[at].num_leading_required,
                        num_trailing_required: pipelines[at].num_trailing_required,
                    },
                ),
            ),
        }
    }
}

/// The jobs for a chunk: none where its resolution is not known.
pub open spec fn jobs_of(chunk: DataChunk, pipelines: Seq<PipelineWindow>) -> Seq<QcJob> {
    match chunk.time_resolution {
        None => Seq::empty(),
        Some(res) => jobs_from(chunk.data@, chunk.timestamp, res, pipelines, 0, Seq::empty()),
    }
}

/// Lists the checks to run on a stored chunk.
pub fn qc_jobs(chunk: &DataChunk, pipelines: &Vec<PipelineWindow>) -> (r: Vec<QcJob>)
    ensures
        r@ == jobs_of(*chunk, pipelines@),
{
    let mut out: Vec<QcJob> = Vec::new();
    let res: TimeResolution = match chunk.time_resolution {
        Some(res) => res,
        None => {
            return out;
        },
    };
    let mut i: usize = 0;
    while i < chunk.data.len()
        invariant
            i <= chunk.data@.len(),
            chunk.time_resolution == Some(res),
            jobs_from(chunk.data@, chunk.timestamp, res, pipelines@, i as int, out@) == jobs_of(
                *chunk,
                pipelines@,
            ),
        decreases chunk.data@.len() - i,
    {
        let datum = &chunk.data[i];
        match find_pipeline(pipelines, datum.param_id, res) {
            None => {},
            Some(at) => {
                let job = QcJob {
                    datum: i,
                    pipeline: at,
                    timeseries_id: datum.timeseries_id,
                    timestamp: chunk.timestamp,
                    time_resolution: res,
                    num_leading_required: pipelines[at].num_leading_required,
                    num_trailing_required: pipelines[at].num_trailing_required,
                };
                assert(pipeline_for(pipelines@, 0, chunk.data@[i as int].param_id, res) == Some(
                    at as int,
                ));
                assert((i as int) as usize == i);
                assert((at as int) as usize == at);
                out.push(job);
            },
        }
        i += 1;
    }
    out
}

/// The flag that a check gave a value.
#[derive(Debug, Clone, Copy, PartialEq, Eq, Structural)]
pub enum CheckFlag {
    Pass,
    Fail,
    Warn,
    Inconclusive,
    Invalid,
    DataMissing,
    Isolated,
}

/// The answer of one check: its name and the first flag it gave, if it gave
/// any.
#[derive(Debug, Clone, PartialEq)]
pub struct CheckOutcome {
    pub check: String,
    pub first_flag: Option<CheckFlag>,
}

/// The index, from `i` on, of the first check that failed.
pub open spec fn first_failure(outcomes: Seq<CheckOutcome>, i: int) -> Option<int>
    decreases outcomes.len() - i,
{
    if i < 0 || i >= outcomes.len() {
        None
    } else if outcomes[i].first_flag == Some(CheckFlag::Fail) {
        Some(i)
    } else {
        first_failure(outcomes, i + 1)
    }
}

/// The verdict of a pipeline on one value.
#[derive(Debug, Clone, PartialEq)]
pub struct QcResult {
    pub timeseries_id: i32,
    pub timestamp: i64,
    pub pipeline: String,
    /// 0 where no check failed, 1 where one did.
    pub flag: i32,
    /// The name of the first check that failed.
    pub fail_condition: Option<String>,
}

impl QcResult {
    /// The verdict of the pipeline for fresh values: the first check that
    /// failed decides, and without one the value passes.
    pub fn fresh(timeseries_id: i32, timestamp: i64, outcomes: &Vec<CheckOutcome>) -> (r: QcResult)
        ensures
            r.timeseries_id == timeseries_id,
            r.timestamp == timestamp,
            r.pipeline@ == "fresh"@,
            match first_failure(outcomes@, 0) {
                Some(at) => r.flag == 1 && r.fail_condition is Some && r.fail_condition->Some_0@
                    == outcomes@[at].check@,
                None => r.flag == 0 && r.fail_condition is None,
            },
    {
        let mut i: usize = 0;
        while i < outcomes.len()
            invariant
                i <= outcomes@.len(),
                first_failure(outcomes@, i as int) == first_failure(outcomes@, 0),
            decreases outcomes@.len() - i,
        {
            let failed: bool = match outcomes[i].first_flag {
                Some(CheckFlag::Fail) => true,
                _ => false,
            };
            if failed {
                return QcResult {
                    timeseries_id,
                    timestamp,
                    pipeline: String::from_str("fresh"),
                    flag: 1,
                    fail_condition: Some(outcomes[i].check.clone()),
                };
            }
            i += 1;
        }
        QcResult {
            timeseries_id,
            timestamp,
            pipeline: String::from_str("fresh"),
            flag: 0,
            fail_condition: None,
        }
    }

    pub open spec fn spec_usable(&self) -> bool {
        self.flag == 0
    }

    /// Whether the verdict leaves the value usable.
    #[verifier::when_used_as_spec(spec_usable)]
    pub fn usable(&self) -> (r: bool)
        ensures
            r == self.spec_usable(),
    {
        self.flag == 0
    }
}

/// What the usable flag of a value becomes when a verdict arrives: the
/// verdict where no flag was stored yet, else the stored flag and the
/// verdict together.
pub open spec fn combined(stored: Option<bool>, incoming: bool) -> bool {
    match stored {
        Some(before) => before && incoming,
        None => incoming,
    }
}

/// Combines the stored usable flag of a value with one more verdict.
pub fn combine_usable(stored: Option<bool>, incoming: bool) -> (r: bool)
    ensures
        r == combined(stored, incoming),
{
    match stored {
        Some(before) => before && incoming,
        None => incoming,
    }
}

/// The usable flag that is stored after a run of verdicts.
pub open spec fn combined_all(stored: Option<bool>, verdicts: Seq<bool>) -> Option<bool>
    decreases verdicts.len(),
{
    if verdicts.len() == 0 {
        stored
    } else {
        Some(combined(combined_all(stored, verdicts.drop_last()), verdicts.last()))
    }
}

/// A value that was once marked unusable stays so, whatever verdicts
/// follow.
pub proof fn lemma_unusable_stays(verdicts: Seq<bool>)
    ensures
        combined_all(Some(false), verdicts) == Some(false),
    decreases verdicts.len(),
{
    if verdicts.len() > 0 {
        lemma_unusable_stays(verdicts.drop_last());
    }
}

/// One more verdict never turns an unusable value usable: the flag after
/// it implies the flag before it.
pub proof fn lemma_usable_never_rises(stored: bool, incoming: bool)
    ensures
        combined(Some(stored), incoming) ==> stored,
        combined(Some(stored), incoming) ==> incoming,
{
}

} // verus!
