//! The permits that decide whether the observations of a station may be
//! stored.

use std::collections::HashMap;
use vstd::prelude::*;

verus! {

broadcast use vstd::std_specs::hash::group_hash_axioms;

/// A permit for one parameter of one message type of a station.
#[derive(Debug, Clone, Copy, PartialEq, Eq, Structural)]
pub struct ParamPermit {
    pub type_id: i32,
    pub param_id: i32,
    pub permit_id: i32,
}

impl ParamPermit {
    pub fn new(type_id: i32, param_id: i32, permit_id: i32) -> (r: ParamPermit)
        ensures
            r == (ParamPermit { type_id, param_id, permit_id }),
    {
        ParamPermit { type_id, param_id, permit_id }
    }
}

/// Station id to the permits of single parameters of the station.
pub type ParamPermitTable = HashMap<i32, Vec<ParamPermit>>;

/// Station id to the permit of the station as a whole.
pub type StationPermitTable = HashMap<i32, i32>;

/// The permit id that opens a timeseries.
pub open spec fn open_permit() -> i32 {
    1
}

/// The first permit from index `i` on that is for this type and parameter.
pub open spec fn governing_permit(
    permits: Seq<ParamPermit>,
    i: int,
    type_id: i32,
    param_id: i32,
) -> Option<ParamPermit>
    decreases permits.len() - i,
{
    if i < 0 || i >= permits.len() {
        None
    } else if permits[i].type_id == type_id && permits[i].param_id == param_id {
        Some(permits[i])
    } else {
        governing_permit(permits, i + 1, type_id, param_id)
    }
}

/// Whether observations of a parameter under a message type of a station
/// may be stored. A permit for the parameter decides where the station has
/// one; else the permit of the station decides where it has one; else the
/// timeseries is closed.
pub open spec fn is_open(
    param_permits: Map<i32, Vec<ParamPermit>>,
    station_permits: Map<i32, i32>,
    station_id: i32,
    type_id: i32,
    param_id: i32,
) -> bool {
    let own = if param_permits.contains_key(station_id) {
        governing_permit(param_permits[station_id]@, 0, type_id, param_id)
    } else {
        None
    };
    match own {
        Some(permit) => permit.permit_id == open_permit(),
        None => station_permits.contains_key(station_id) && station_permits[station_id]
            == open_permit(),
    }
}

/// Decides whether observations of a parameter under a message type of a
/// station may be stored.
pub fn timeseries_is_open(
    param_permits: &ParamPermitTable,
    station_permits: &StationPermitTable,
    station_id: i32,
    type_id: i32,
    param_id: i32,
) -> (r: bool)
    ensures
        r == is_open(param_permits@, station_permits@, station_id, type_id, param_id),
{
    if let Some(permits) = param_permits.get(&station_id) {
        let mut i: usize = 0;
        while i < permits.len()
            invariant
                i <= permits@.len(),
                param_permits@.contains_key(station_id),
                param_permits@[station_id] == *permits,
                governing_permit(permits@, i as int, type_id, param_id) == governing_permit(
                    permits@,
                    0,
                    type_id,
                    param_id,
                ),
            decreases permits@.len() - i,
        {
            let permit = &permits[i];
            if permit.type_id == type_id && permit.param_id == param_id {
                return permit.permit_id == 1;
            }
            i += 1;
        }
    }
    match station_permits.get(&station_id) {
        Some(permit_id) => *permit_id == 1,
        None => false,
    }
}

/// A station that neither table knows is closed for every type and
/// parameter.
pub proof fn lemma_unknown_station_closed(
    param_permits: Map<i32, Vec<ParamPermit>>,
    station_permits: Map<i32, i32>,
    station_id: i32,
    type_id: i32,
    param_id: i32,
)
    requires
        !param_permits.contains_key(station_id),
        !station_permits.contains_key(station_id),
    ensures
        !is_open(param_permits, station_permits, station_id, type_id, param_id),
{
}

/// Where a station has a permit for the type and the parameter, the first
/// such permit decides, whatever the permit of the station as a whole says.
pub proof fn lemma_param_permit_overrides(
    param_permits: Map<i32, Vec<ParamPermit>>,
    station_permits: Map<i32, i32>,
    other_station_permits: Map<i32, i32>,
    station_id: i32,
    type_id: i32,
    param_id: i32,
)
    requires
        param_permits.contains_key(station_id),
        governing_permit(param_permits[station_id]@, 0, type_id, param_id) is Some,
    ensures
        is_open(param_permits, station_permits, station_id, type_id, param_id) == is_open(
            param_permits,
            other_station_permits,
            station_id,
            type_id,
            param_id,
        ),
        is_open(param_permits, station_permits, station_id, type_id, param_id) == (governing_permit(
            param_permits[station_id]@,
            0,
            type_id,
            param_id,
        )->Some_0.permit_id == open_permit()),
{
}

} // verus!
