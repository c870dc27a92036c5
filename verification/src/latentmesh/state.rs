//! Canonical, deterministic representation of drone advisory telemetry.
//!
//! Floating-point values never cross the LatentMesh boundary directly: they
//! are validated and converted to signed Q16.16 values before hashing or
//! signing. This module holds the integer side of that schema: its field
//! ids, which fields a snapshot must carry, how typed symbols are read, and
//! the wire codes of the fail-safe state. The schema ids are wire ABI and
//! must never be renumbered.

use vstd::prelude::*;

use super::protocol::AirError;

verus! {

/// Version of the deterministic advisory telemetry schema.
pub const CRITICAL_STATE_SCHEMA_VERSION: u64 = 1;

pub const FIELD_SCHEMA_VERSION: u16 = 0x0001;
pub const FIELD_NODE_ID: u16 = 0x0010;
pub const FIELD_POSITION_NORTH_M: u16 = 0x0100;
pub const FIELD_POSITION_EAST_M: u16 = 0x0101;
pub const FIELD_POSITION_DOWN_M: u16 = 0x0102;
pub const FIELD_VELOCITY_NORTH_MPS: u16 = 0x0200;
pub const FIELD_VELOCITY_EAST_MPS: u16 = 0x0201;
pub const FIELD_VELOCITY_DOWN_MPS: u16 = 0x0202;
pub const FIELD_HEADING_RAD: u16 = 0x0300;
pub const FIELD_ALTITUDE_AGL_M: u16 = 0x0301;
pub const FIELD_BATTERY_PCT: u16 = 0x0400;
pub const FIELD_LINK_QUALITY: u16 = 0x0401;
pub const FIELD_TIMESTAMP_MS: u16 = 0x0402;
pub const FIELD_FAILSAFE_STATE: u16 = 0x0403;

/// Why advisory telemetry could not be converted to or from the schema.
#[derive(Clone, Copy, Debug, PartialEq, Eq)]
pub enum StateError {
    NonFinite { field: &'static str },
    OutOfRange { field: &'static str, minimum: &'static str, maximum: &'static str },
    MissingField { field_id: u16 },
    WrongType { field_id: u16 },
    UnknownField { field_id: u16 },
    UnsupportedSchema(u64),
    UnknownFailsafe(u64),
    Air(AirError),
}

/// The on-board fail-safe state reported in advisory telemetry.
#[derive(Clone, Copy, Debug, PartialEq, Eq, Hash, Structural)]
pub enum FailSafeState {
    Nominal,
    AutonomousHold,
    LowBatteryWarn,
    ReturnToHome,
    EmergencyLand,
    EmergencyDiverge,
    ControlledDescent,
}

/// The wire code of a fail-safe state.
pub open spec fn failsafe_code_of(state: FailSafeState) -> u64 {
    match state {
        FailSafeState::Nominal => 0,
        FailSafeState::AutonomousHold => 1,
        FailSafeState::LowBatteryWarn => 2,
        FailSafeState::ReturnToHome => 3,
        FailSafeState::EmergencyLand => 4,
        FailSafeState::EmergencyDiverge => 5,
        FailSafeState::ControlledDescent => 6,
    }
}

/// Encode a fail-safe state as its wire code.
pub fn failsafe_code(state: &FailSafeState) -> (code: u64)
    ensures
        code == failsafe_code_of(*state),
{
    match state {
        FailSafeState::Nominal => 0,
        FailSafeState::AutonomousHold => 1,
        FailSafeState::LowBatteryWarn => 2,
        FailSafeState::ReturnToHome => 3,
        FailSafeState::EmergencyLand => 4,
        FailSafeState::EmergencyDiverge => 5,
        FailSafeState::ControlledDescent => 6,
    }
}

/// Decode a fail-safe wire code; codes above 6 are unknown.
pub fn failsafe_from_code(code: u64) -> (result: Result<FailSafeState, StateError>)
    ensures
        code <= 6 ==> result is Ok && failsafe_code_of(result->Ok_0) == code,
        code > 6 ==> result == Err::<FailSafeState, StateError>(StateError::UnknownFailsafe(code)),
{
    match code {
        0 => Ok(FailSafeState::Nominal),
        1 => Ok(FailSafeState::AutonomousHold),
        2 => Ok(FailSafeState::LowBatteryWarn),
        3 => Ok(FailSafeState::ReturnToHome),
        4 => Ok(FailSafeState::EmergencyLand),
        5 => Ok(FailSafeState::EmergencyDiverge),
        6 => Ok(FailSafeState::ControlledDescent),
        _ => Err(StateError::UnknownFailsafe(code)),
    }
}

/// Decoding a state's code gives the state back, and distinct states have
/// distinct codes.
pub proof fn law_failsafe_codes_round_trip(state: FailSafeState, other: FailSafeState)
    ensures
        failsafe_code_of(state) <= 6,
        failsafe_code_of(state) == failsafe_code_of(other) ==> state == other,
{
}

/// The fields every schema-1 snapshot carries, in the order they are checked.
pub open spec fn required_fields() -> Seq<u16> {
    seq![
        FIELD_SCHEMA_VERSION,
        FIELD_NODE_ID,
        FIELD_POSITION_NORTH_M,
        FIELD_POSITION_EAST_M,
        FIELD_POSITION_DOWN_M,
        FIELD_VELOCITY_NORTH_MPS,
        FIELD_VELOCITY_EAST_MPS,
        FIELD_VELOCITY_DOWN_MPS,
        FIELD_HEADING_RAD,
        FIELD_ALTITUDE_AGL_M,
        FIELD_BATTERY_PCT,
        FIELD_LINK_QUALITY,
        FIELD_TIMESTAMP_MS,
        FIELD_FAILSAFE_STATE,
    ]
}

/// The fields every schema-1 snapshot carries, in the order they are checked.
pub fn required_field_ids() -> (ids: Vec<u16>)
    ensures
        ids@ == required_fields(),
{
    let ids = vec![
        FIELD_SCHEMA_VERSION,
        FIELD_NODE_ID,
        FIELD_POSITION_NORTH_M,
        FIELD_POSITION_EAST_M,
        FIELD_POSITION_DOWN_M,
        FIELD_VELOCITY_NORTH_MPS,
        FIELD_VELOCITY_EAST_MPS,
        FIELD_VELOCITY_DOWN_MPS,
        FIELD_HEADING_RAD,
        FIELD_ALTITUDE_AGL_M,
        FIELD_BATTERY_PCT,
        FIELD_LINK_QUALITY,
        FIELD_TIMESTAMP_MS,
        FIELD_FAILSAFE_STATE,
    ];
    assert(ids@ =~= required_fields());
    ids
}

/// The verdict on a snapshot's field ids, given in the order the snapshot
/// lists them: the first required field (in schema order) that is absent is
/// missing; otherwise the first listed field that the schema does not know
/// is unknown; otherwise the set is exactly the schema's.
pub open spec fn field_set_outcome(present: Seq<u16>) -> Result<(), StateError> {
    if exists|i: int| 0 <= i < required_fields().len() && !present.contains(#[trigger] required_fields()[i]) {
        let i = choose|i: int|
            0 <= i < required_fields().len() && !present.contains(#[trigger] required_fields()[i])
                && forall|j: int| 0 <= j < i ==> present.contains(#[trigger] required_fields()[j]);
        Err(StateError::MissingField { field_id: required_fields()[i] })
    } else if exists|i: int| 0 <= i < present.len() && !required_fields().contains(#[trigger] present[i]) {
        let i = choose|i: int|
            0 <= i < present.len() && !required_fields().contains(#[trigger] present[i])
                && forall|j: int| 0 <= j < i ==> required_fields().contains(#[trigger] present[j]);
        Err(StateError::UnknownField { field_id: present[i] })
    } else {
        Ok(())
    }
}

fn contains_field(ids: &Vec<u16>, field_id: u16) -> (found: bool)
    ensures
        found == ids@.contains(field_id),
{
    let mut i: usize = 0;
    while i < ids.len()
        invariant
            0 <= i <= ids@.len(),
            forall|j: int| 0 <= j < i ==> ids@[j] != field_id,
        decreases ids@.len() - i,
    {
        if ids[i] == field_id {
            return true;
        }
        i = i + 1;
    }
    false
}

/// Check that a snapshot's field ids, in the order the snapshot lists them,
/// are exactly the schema's required fields (see [`field_set_outcome`]).
pub fn validate_field_set(present: &Vec<u16>) -> (result: Result<(), StateError>)
    ensures
        result == field_set_outcome(present@),
{
    let required = required_field_ids();
    let mut i: usize = 0;
    while i < required.len()
        invariant
            0 <= i <= required@.len(),
            required@ == required_fields(),
            forall|j: int| 0 <= j < i ==> present@.contains(#[trigger] required_fields()[j]),
        decreases required@.len() - i,
    {
        let field_id = required[i];
        if !contains_field(present, field_id) {
            proof {
                let k = choose|k: int|
                    0 <= k < required_fields().len() && !present@.contains(#[trigger] required_fields()[k])
                        && forall|j: int| 0 <= j < k ==> present@.contains(#[trigger] required_fields()[j]);
                assert(k == i as int) by {
                    if k < i {
                    } else if k > i {
                        assert(present@.contains(required_fields()[i as int]));
                    }
                }
            }
            return Err(StateError::MissingField { field_id });
        }
        i = i + 1;
    }
    let mut k: usize = 0;
    while k < present.len()
        invariant
            0 <= k <= present@.len(),
            required@ == required_fields(),
            forall|j: int| 0 <= j < required_fields().len() ==> present@.contains(#[trigger] required_fields()[j]),
            forall|j: int| 0 <= j < k ==> required_fields().contains(#[trigger] present@[j]),
        decreases present@.len() - k,
    {
        let field_id = present[k];
        if !contains_field(&required, field_id) {
            proof {
                let m = choose|m: int|
                    0 <= m < present@.len() && !required_fields().contains(#[trigger] present@[m])
                        && forall|j: int| 0 <= j < m ==> required_fields().contains(#[trigger] present@[j]);
                assert(m == k as int) by {
                    if m > k {
                        assert(required_fields().contains(present@[k as int]));
                    }
                }
            }
            return Err(StateError::UnknownField { field_id });
        }
        k = k + 1;
    }
    Ok(())
}

/// A typed value of the deterministic state, as far as the schema reads it.
#[derive(Clone, Copy, Debug, PartialEq, Eq, Structural)]
pub enum Symbol {
    U64(u64),
    /// A signed Q16.16 fixed-point value, as its raw 32 bit integer.
    Q16(i32),
    /// Any other symbol type.
    Other,
}

/// Read a required unsigned field.
pub fn required_u64(value: Option<Symbol>, field_id: u16) -> (result: Result<u64, StateError>)
    ensures
        result == match value {
            Some(Symbol::U64(v)) => Ok::<u64, StateError>(v),
            Some(_) => Err(StateError::WrongType { field_id }),
            None => Err(StateError::MissingField { field_id }),
        },
{
    match value {
        Some(Symbol::U64(v)) => Ok(v),
        Some(_) => Err(StateError::WrongType { field_id }),
        None => Err(StateError::MissingField { field_id }),
    }
}

/// Read a required Q16.16 field as its raw integer.
pub fn required_q16_raw(value: Option<Symbol>, field_id: u16) -> (result: Result<i32, StateError>)
    ensures
        result == match value {
            Some(Symbol::Q16(v)) => Ok::<i32, StateError>(v),
            Some(_) => Err(StateError::WrongType { field_id }),
            None => Err(StateError::MissingField { field_id }),
        },
{
    match value {
        Some(Symbol::Q16(v)) => Ok(v),
        Some(_) => Err(StateError::WrongType { field_id }),
        None => Err(StateError::MissingField { field_id }),
    }
}

/// The schema version must be 1, the node id must fit 32 bits, and the
/// fail-safe code must be known, checked in that order.
pub open spec fn identity_outcome(schema: u64, node: u64, failsafe_code: u64) -> Result<(u32, FailSafeState), StateError> {
    if schema != CRITICAL_STATE_SCHEMA_VERSION {
        Err(StateError::UnsupportedSchema(schema))
    } else if node > u32::MAX {
        Err(StateError::OutOfRange { field: "node_id", minimum: "0", maximum: "u32::MAX" })
    } else if failsafe_code > 6 {
        Err(StateError::UnknownFailsafe(failsafe_code))
    } else {
        Ok((node as u32, choose|s: FailSafeState| failsafe_code_of(s) == failsafe_code))
    }
}

/// Decode the schema version, node id and fail-safe code of a snapshot.
pub fn decode_identity(schema: u64, node: u64, failsafe_code: u64) -> (result: Result<(u32, FailSafeState), StateError>)
    ensures
        result is Ok <==> identity_outcome(schema, node, failsafe_code) is Ok,
        result is Err ==> result == identity_outcome(schema, node, failsafe_code),
        result matches Ok((id, state)) ==> id == node && failsafe_code_of(state) == failsafe_code,
{
    if schema != CRITICAL_STATE_SCHEMA_VERSION {
        return Err(StateError::UnsupportedSchema(schema));
    }
    if node > u32::MAX as u64 {
        return Err(StateError::OutOfRange { field: "node_id", minimum: "0", maximum: "u32::MAX" });
    }
    let state = failsafe_from_code(failsafe_code)?;
    Ok((node as u32, state))
}

} // verus!
