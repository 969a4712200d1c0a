//! Which observations of a chunk go on to storage, and the steps by which
//! one of them finds or gets its timeseries.

use vstd::prelude::*;
use vstd::string::StringExecFns;
use crate::error::Error;
use crate::kldata::{
    resolution_of_type, type_id_to_time_resolution, ObsType, ObsTypeView, ObsinnChunk,
    ObsinnChunkView, ObsinnObs, ObsinnObsView,
};
use crate::permissions::{is_open, timeseries_is_open, ParamPermit, ParamPermitTable, StationPermitTable};
use crate::reference::{ParamConversions, ReferenceParamView};
use crate::time::TimeResolution;

verus! {

/// What a timeseries is known by on the wire. A sensor or level that is
/// missing matches only a missing one, never 0.
#[derive(Debug, Clone, PartialEq)]
pub struct LabelKey {
    pub station_id: i32,
    pub type_id: i32,
    pub param_code: String,
    pub sensor: Option<i32>,
    pub level: Option<i32>,
}

pub struct LabelKeyView {
    pub station_id: i32,
    pub type_id: i32,
    pub param_code: Seq<char>,
    pub sensor: Option<i32>,
    pub level: Option<i32>,
}

impl View for LabelKey {
    type V = LabelKeyView;

    open spec fn view(&self) -> LabelKeyView {
        LabelKeyView {
            station_id: self.station_id,
            type_id: self.type_id,
            param_code: self.param_code@,
            sensor: self.sensor,
            level: self.level,
        }
    }
}

/// An observation that may be stored, with the canonical id of its
/// parameter.
#[derive(Debug, Clone, PartialEq)]
pub struct Accepted {
    pub key: LabelKey,
    pub param_id: i32,
    pub value: ObsType,
}

pub struct AcceptedView {
    pub key: LabelKeyView,
    pub param_id: i32,
    pub value: ObsTypeView,
}

impl View for Accepted {
    type V = AcceptedView;

    open spec fn view(&self) -> AcceptedView {
        AcceptedView { key: self.key@, param_id: self.param_id, value: self.value@ }
    }
}

pub open spec fn accepted_views(list: Seq<Accepted>) -> Seq<AcceptedView> {
    list.map_values(|a: Accepted| a@)
}

pub open spec fn unrecognised(code: Seq<char>) -> Seq<char> {
    "unrecognised param_code '"@ + code + "'"@
}

/// What becomes of one observation: a parameter that the table does not
/// know fails the batch, a closed timeseries drops the observation, and an
/// open one passes it on under its label key.
pub open spec fn screening(
    obs: ObsinnObsView,
    station_id: i32,
    type_id: i32,
    table: Map<Seq<char>, ReferenceParamView>,
    param_permits: Map<i32, Vec<ParamPermit>>,
    station_permits: Map<i32, i32>,
) -> Result<Option<AcceptedView>, Seq<char>> {
    let code = obs.id.param_code;
    if !table.contains_key(code) {
        Err(unrecognised(code))
    } else if !is_open(param_permits, station_permits, station_id, type_id, table[code].id) {
        Ok(None)
    } else {
        Ok(
            Some(
                AcceptedView {
                    key: LabelKeyView {
                        station_id,
                        type_id,
                        param_code: code,
                        sensor: match obs.id.sensor_and_level {
                            Some(both) => Some(both.0),
                            None => None,
                        },
                        level: match obs.id.sensor_and_level {
                            Some(both) => Some(both.1),
                            None => None,
                        },
                    },
                    param_id: table[code].id,
                    value: obs.value,
                },
            ),
        )
    }
}

/// The observations of a chunk from index `i` on that may be stored, in
/// order, after those in `acc`; the first unknown parameter fails.
pub open spec fn screenings_from(
    chunk: ObsinnChunkView,
    i: int,
    acc: Seq<AcceptedView>,
    table: Map<Seq<char>, ReferenceParamView>,
    param_permits: Map<i32, Vec<ParamPermit>>,
    station_permits: Map<i32, i32>,
) -> Result<Seq<AcceptedView>, Seq<char>>
    decreases chunk.observations.len() - i,
{
    if i < 0 || i >= chunk.observations.len() {
        Ok(acc)
    } else {
        match screening(
            chunk.observations[i],
            chunk.station_id,
            chunk.type_id,
            table,
            param_permits,
            station_permits,
        ) {
            Err(m) => Err(m),
            Ok(None) => screenings_from(chunk, i + 1, acc, table, param_permits, station_permits),
            Ok(Some(a)) => screenings_from(
                chunk,
                i + 1,
                acc.push(a),
                table,
                param_permits,
                station_permits,
            ),
        }
    }
}

fn copy_value(value: &ObsType) -> (r: ObsType)
    ensures
        r@ == value@,
{
    match value {
        ObsType::Scalar(t) => ObsType::Scalar(t.clone()),
        ObsType::NonScalar(t) => ObsType::NonScalar(t.clone()),
    }
}

/// Decides what becomes of one observation of a station under a message
/// type.
pub fn screen_observation(
    obs: &ObsinnObs,
    station_id: i32,
    type_id: i32,
    param_conversions: &ParamConversions,
    param_permits: &ParamPermitTable,
    station_permits: &StationPermitTable,
) -> (r: Result<Option<Accepted>, Error>)
    ensures
        match screening(
            obs@,
            station_id,
            type_id,
            param_conversions@,
            param_permits@,
            station_permits@,
        ) {
            Ok(Some(a)) => r is Ok && r->Ok_0 is Some && r->Ok_0->Some_0@ == a,
            Ok(None) => r is Ok && r->Ok_0 is None,
            Err(m) => r is Err && r->Err_0 is Parse && r->Err_0.text() == m,
        },
{
    let param = match param_conversions.get(obs.id.param_code.as_str()) {
        Some(param) => param,
        None => {
            return Err(
                Error::Parse(
                    String::from_str("unrecognised param_code '").concat(
                        obs.id.param_code.as_str(),
                    ).concat("'"),
                ),
            );
        },
    };
    if !timeseries_is_open(param_permits, station_permits, station_id, type_id, param.id) {
        return Ok(None);
    }
    let (sensor, level) = match obs.id.sensor_and_level {
        Some(both) => (Some(both.0), Some(both.1)),
        None => (None, None),
    };
    Ok(
        Some(
            Accepted {
                key: LabelKey {
                    station_id,
                    type_id,
                    param_code: obs.id.param_code.clone(),
                    sensor,
                    level,
                },
                param_id: param.id,
                value: copy_value(&obs.value),
            },
        ),
    )
}

/// The observations of `chunk` that may be stored, in the order of the
/// chunk.
pub fn screen_chunk(
    chunk: &ObsinnChunk,
    param_conversions: &ParamConversions,
    param_permits: &ParamPermitTable,
    station_permits: &StationPermitTable,
) -> (r: Result<Vec<Accepted>, Error>)
    ensures
        match screenings_from(
            chunk@,
            0,
            Seq::empty(),
            param_conversions@,
            param_permits@,
            station_permits@,
        ) {
            Ok(list) => r is Ok && accepted_views(r->Ok_0@) == list,
            Err(m) => r is Err && r->Err_0 is Parse && r->Err_0.text() == m,
        },
{
    let mut out: Vec<Accepted> = Vec::new();
    let mut i: usize = 0;
    assert(accepted_views(out@) == Seq::<AcceptedView>::empty());
    while i < chunk.observations.len()
        invariant
            chunk@.observations.len() == chunk.observations@.len(),
            screenings_from(
                chunk@,
                i as int,
                accepted_views(out@),
                param_conversions@,
                param_permits@,
                station_permits@,
            ) == screenings_from(
                chunk@,
                0,
                Seq::empty(),
                param_conversions@,
                param_permits@,
                station_permits@,
            ),
        decreases chunk.observations@.len() - i,
    {
        assert(chunk@.observations[i as int] == chunk.observations@[i as int]@);
        match screen_observation(
            &chunk.observations[i],
            chunk.station_id,
            chunk.type_id,
            param_conversions,
            param_permits,
            station_permits,
        ) {
            Err(e) => {
                return Err(e);
            },
            Ok(None) => {},
            Ok(Some(a)) => {
                let ghost before = out@;
                let ghost view = a@;
                out.push(a);
                assert(accepted_views(out@) == accepted_views(before).push(view));
            },
        }
        i += 1;
    }
    Ok(out)
}

/// A value ready to be stored under its timeseries.
#[derive(Debug, Clone, PartialEq)]
pub struct Datum {
    pub timeseries_id: i32,
    pub param_id: i32,
    pub value: ObsType,
}

/// The values of one instant that are ready to be stored.
#[derive(Debug, Clone, PartialEq)]
pub struct DataChunk {
    /// Seconds since the Unix epoch.
    pub timestamp: i64,
    pub time_resolution: Option<TimeResolution>,
    pub data: Vec<Datum>,
}

impl DataChunk {
    /// The chunk of the values `data` of the instant `timestamp`, at the
    /// resolution at which stations report under the message type.
    pub fn labelled(timestamp: i64, type_id: i32, data: Vec<Datum>) -> (r: DataChunk)
        ensures
            r.timestamp == timestamp,
            r.time_resolution == resolution_of_type(type_id),
            r.data == data,
    {
        DataChunk { timestamp, time_resolution: type_id_to_time_resolution(type_id), data }
    }
}

/// The value store that a datum goes to.
#[derive(Debug, Clone, Copy, PartialEq, Eq, Structural)]
pub enum ValueStore {
    Scalar,
    NonScalar,
}

impl Datum {
    pub open spec fn spec_store(&self) -> ValueStore {
        match self.value {
            ObsType::Scalar(_) => ValueStore::Scalar,
            ObsType::NonScalar(_) => ValueStore::NonScalar,
        }
    }

    /// The store that the kind of the value selects.
    #[verifier::when_used_as_spec(spec_store)]
    pub fn store(&self) -> (r: ValueStore)
        ensures
            r == self.spec_store(),
    {
        match &self.value {
            ObsType::Scalar(_) => ValueStore::Scalar,
            ObsType::NonScalar(_) => ValueStore::NonScalar,
        }
    }
}

/// Where the resolution of one identity stands.
#[derive(Debug, Clone, Copy, PartialEq, Eq, Structural)]
pub enum Resolution {
    /// The label has been looked up and the answer is awaited.
    Looking,
    /// A new timeseries has been asked for.
    Creating,
    /// The two labels of the new timeseries have been asked for.
    Labelling { timeseries_id: i32 },
    /// The identity is settled.
    Resolved { timeseries_id: i32 },
    /// Storage failed; the failure goes to the caller.
    Failed,
}

/// What storage answered.
#[derive(Debug, Clone, Copy, PartialEq, Eq, Structural)]
pub enum StorageEvent {
    /// The lookup found the label.
    Found { timeseries_id: i32 },
    /// The lookup found no label.
    Missing,
    /// A timeseries row was inserted under this id.
    Created { timeseries_id: i32 },
    /// Both labels were inserted and the transaction was committed.
    Labelled,
    /// The label key exists by now: another request created the identity.
    Conflict,
    /// Any other failure.
    Failure,
}

/// What to ask of storage next.
#[derive(Debug, Clone, Copy, PartialEq, Eq, Structural)]
pub enum StorageAction {
    /// Look the label up.
    Lookup,
    /// Open a transaction and insert a timeseries row.
    InsertTimeseries,
    /// Insert the wire label and the canonical label of this timeseries in
    /// the open transaction, and commit.
    InsertLabels { timeseries_id: i32 },
    /// Roll the open transaction back, if any, and look the label up again.
    RollbackAndLookup,
    /// Nothing: the identity is settled.
    Finish,
    /// Roll back and report the failure.
    Abort,
}

/// The state and the action that follow an answer of storage. A label that
/// is found is reused; one that is missing is created, timeseries first and
/// then both labels at once; a conflict on the way means that the identity
/// exists by now, so it is looked up again; an answer that the state does
/// not await fails.
pub open spec fn resolution_step(state: Resolution, event: StorageEvent) -> (
    Resolution,
    StorageAction,
) {
    match (state, event) {
        (Resolution::Looking, StorageEvent::Found { timeseries_id }) => (
            Resolution::Resolved { timeseries_id },
            StorageAction::Finish,
        ),
        (Resolution::Looking, StorageEvent::Missing) => (
            Resolution::Creating,
            StorageAction::InsertTimeseries,
        ),
        (Resolution::Creating, StorageEvent::Created { timeseries_id }) => (
            Resolution::Labelling { timeseries_id },
            StorageAction::InsertLabels { timeseries_id },
        ),
        (Resolution::Labelling { timeseries_id }, StorageEvent::Labelled) => (
            Resolution::Resolved { timeseries_id },
            StorageAction::Finish,
        ),
        (Resolution::Creating, StorageEvent::Conflict) => (
            Resolution::Looking,
            StorageAction::RollbackAndLookup,
        ),
        (Resolution::Labelling { timeseries_id }, StorageEvent::Conflict) => (
            Resolution::Looking,
            StorageAction::RollbackAndLookup,
        ),
        (Resolution::Resolved { timeseries_id }, _) => (
            Resolution::Resolved { timeseries_id },
            StorageAction::Finish,
        ),
        _ => (Resolution::Failed, StorageAction::Abort),
    }
}

/// Takes the resolution of one identity one step further.
pub fn resolve_step(state: Resolution, event: StorageEvent) -> (r: (Resolution, StorageAction))
    ensures
        r == resolution_step(state, event),
{
    match state {
        Resolution::Looking => match event {
            StorageEvent::Found { timeseries_id } => (
                Resolution::Resolved { timeseries_id },
                StorageAction::Finish,
            ),
            StorageEvent::Missing => (Resolution::Creating, StorageAction::InsertTimeseries),
            _ => (Resolution::Failed, StorageAction::Abort),
        },
        Resolution::Creating => match event {
            StorageEvent::Created { timeseries_id } => (
                Resolution::Labelling { timeseries_id },
                StorageAction::InsertLabels { timeseries_id },
            ),
            StorageEvent::Conflict => (Resolution::Looking, StorageAction::RollbackAndLookup),
            _ => (Resolution::Failed, StorageAction::Abort),
        },
        Resolution::Labelling { timeseries_id } => match event {
            StorageEvent::Labelled => (
                Resolution::Resolved { timeseries_id },
                StorageAction::Finish,
            ),
            StorageEvent::Conflict => (Resolution::Looking, StorageAction::RollbackAndLookup),
            _ => (Resolution::Failed, StorageAction::Abort),
        },
        Resolution::Resolved { timeseries_id } => (
            Resolution::Resolved { timeseries_id },
            StorageAction::Finish,
        ),
        Resolution::Failed => (Resolution::Failed, StorageAction::Abort),
    }
}

/// What storage answers to a lookup of `key` when its labels are `labels`.
pub open spec fn lookup_answer(labels: Map<LabelKeyView, i32>, key: LabelKeyView) -> StorageEvent {
    if labels.contains_key(key) {
        StorageEvent::Found { timeseries_id: labels[key] }
    } else {
        StorageEvent::Missing
    }
}

/// The labels and the id after one request for `key` has run to its end
/// alone, storage answering each step as it stands and giving `fresh` to a
/// timeseries that is created.
pub open spec fn settled(labels: Map<LabelKeyView, i32>, key: LabelKeyView, fresh: i32) -> (
    Map<LabelKeyView, i32>,
    Resolution,
) {
    let (looked, first) = resolution_step(Resolution::Looking, lookup_answer(labels, key));
    if first == StorageAction::InsertTimeseries {
        let (created, _second) = resolution_step(
            looked,
            StorageEvent::Created { timeseries_id: fresh },
        );
        let (done, _third) = resolution_step(created, StorageEvent::Labelled);
        (labels.insert(key, fresh), done)
    } else {
        (labels, looked)
    }
}

/// A request ends with the identity that the labels hold for its key, and
/// leaves the labels of every other key alone.
pub proof fn lemma_settled_is_labelled(labels: Map<LabelKeyView, i32>, key: LabelKeyView, fresh: i32)
    ensures
        settled(labels, key, fresh).0.contains_key(key),
        settled(labels, key, fresh).1 == (Resolution::Resolved {
            timeseries_id: settled(labels, key, fresh).0[key],
        }),
        labels.contains_key(key) ==> settled(labels, key, fresh).0 == labels,
        forall|other: LabelKeyView|
            other != key ==> (#[trigger] settled(labels, key, fresh).0.contains_key(other)
                == labels.contains_key(other)),
{
}

/// Sending the same key twice creates one identity: the second request
/// finds what the first one left, changes nothing and resolves to the same
/// id, whatever id storage would have given it.
pub proof fn lemma_resolution_is_idempotent(
    labels: Map<LabelKeyView, i32>,
    key: LabelKeyView,
    fresh: i32,
    later: i32,
)
    ensures
        settled(settled(labels, key, fresh).0, key, later) == settled(labels, key, fresh),
{
}

/// Two first requests for one key at once end in one identity: the one
/// whose labels storage refuses as a conflict looks the key up again, and
/// resolves to the id that the other one created.
pub proof fn lemma_conflict_resolves_to_winner(
    labels: Map<LabelKeyView, i32>,
    key: LabelKeyView,
    winner: i32,
    loser: i32,
)
    requires
        !labels.contains_key(key),
    ensures
        ({
            let after = settled(labels, key, winner).0;
            let (looked, _a) = resolution_step(Resolution::Looking, lookup_answer(labels, key));
            let (created, _b) = resolution_step(
                looked,
                StorageEvent::Created { timeseries_id: loser },
            );
            let (again, action) = resolution_step(created, StorageEvent::Conflict);
            let (done, last) = resolution_step(again, lookup_answer(after, key));
            &&& action == StorageAction::RollbackAndLookup
            &&& done == Resolution::Resolved { timeseries_id: winner }
            &&& last == StorageAction::Finish
            &&& after[key] == winner
        }),
{
}

} // verus!
