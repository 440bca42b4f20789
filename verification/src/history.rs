//! The durable reading history, modelled as plain values: one record per
//! poll, together with the exact textual encoding of its columns as the
//! storage layer writes them, proved to round-trip.

use vstd::prelude::*;
use crate::timestamp::Timestamp;
use crate::timestamp::timestamp_bytes;
use crate::timestamp::decoded_timestamp;
use crate::timestamp::format_timestamp;
use crate::timestamp::parse_timestamp;
use crate::timestamp::lemma_timestamp_round_trip;

verus! {

/// The power state reported with a reading.
#[derive(Clone, Copy, PartialEq, Eq, Structural, Debug)]
pub enum BatteryState {
    Charging,
    Discharging,
    Empty,
    Full,
    Unknown,
    Other,
}

/// The textual label of a power state, as the storage layer writes it.
pub open spec fn state_bytes(st: BatteryState) -> Seq<u8> {
    match st {
        BatteryState::Charging => seq![67u8, 104, 97, 114, 103, 105, 110, 103],
        BatteryState::Discharging => seq![
            68u8,
            105,
            115,
            99,
            104,
            97,
            114,
            103,
            105,
            110,
            103,
        ],
        BatteryState::Empty => seq![69u8, 109, 112, 116, 121],
        BatteryState::Full => seq![70u8, 117, 108, 108],
        BatteryState::Unknown => seq![85u8, 110, 107, 110, 111, 119, 110],
        BatteryState::Other => seq![79u8, 116, 104, 101, 114],
    }
}

/// No two power states share a label.
proof fn lemma_state_bytes_injective(a: BatteryState, b: BatteryState)
    requires
        state_bytes(a) == state_bytes(b),
    ensures
        a == b,
{
    assert(state_bytes(a).len() == state_bytes(b).len());
    assert(state_bytes(a)[0] == state_bytes(b)[0]);
}

/// The power state that the label `s` names, or `None` when `s` names no
/// power state.
pub open spec fn decoded_state(s: Seq<u8>) -> Option<BatteryState> {
    if exists|st: BatteryState| #[trigger] state_bytes(st) == s {
        Some(choose|st: BatteryState| #[trigger] state_bytes(st) == s)
    } else {
        None
    }
}

/// Law: decoding the label of any power state gives it back unchanged.
pub proof fn lemma_state_round_trip(st: BatteryState)
    ensures
        decoded_state(state_bytes(st)) == Some(st),
{
    let s = state_bytes(st);
    assert(state_bytes(st) == s);
    let u = choose|u: BatteryState| #[trigger] state_bytes(u) == s;
    lemma_state_bytes_injective(u, st);
}

/// Encodes the label of `st` as ASCII bytes.
pub fn state_label(st: &BatteryState) -> (v: Vec<u8>)
    ensures
        v@ == state_bytes(*st),
{
    let mut v: Vec<u8> = Vec::new();
    match st {
        BatteryState::Charging => {
            v.push(67u8);
            v.push(104);
            v.push(97);
            v.push(114);
            v.push(103);
            v.push(105);
            v.push(110);
            v.push(103);
        },
        BatteryState::Discharging => {
            v.push(68u8);
            v.push(105);
            v.push(115);
            v.push(99);
            v.push(104);
            v.push(97);
            v.push(114);
            v.push(103);
            v.push(105);
            v.push(110);
            v.push(103);
        },
        BatteryState::Empty => {
            v.push(69u8);
            v.push(109);
            v.push(112);
            v.push(116);
            v.push(121);
        },
        BatteryState::Full => {
            v.push(70u8);
            v.push(117);
            v.push(108);
            v.push(108);
        },
        BatteryState::Unknown => {
            v.push(85u8);
            v.push(110);
            v.push(107);
            v.push(110);
            v.push(111);
            v.push(119);
            v.push(110);
        },
        BatteryState::Other => {
            v.push(79u8);
            v.push(116);
            v.push(104);
            v.push(101);
            v.push(114);
        },
    }
    proof {
        assert(v@ =~= state_bytes(*st));
    }
    v
}

/// True when the byte slices hold the same bytes.
fn bytes_eq(a: &[u8], b: &[u8]) -> (r: bool)
    ensures
        r == (a@ == b@),
{
    if a.len() != b.len() {
        return false;
    }
    let mut i: usize = 0;
    while i < a.len()
        invariant
            i <= a@.len(),
            a@.len() == b@.len(),
            forall|j: int| 0 <= j < i ==> a@[j] == b@[j],
        decreases a@.len() - i,
    {
        if a[i] != b[i] {
            return false;
        }
        i = i + 1;
    }
    proof {
        assert(a@ =~= b@);
    }
    true
}

/// Decodes a power state label. Returns the state exactly when `s` is one
/// of the six labels, and `None` on any other input.
pub fn parse_state(s: &[u8]) -> (r: Option<BatteryState>)
    ensures
        r == decoded_state(s@),
        r is Some ==> state_bytes(r->Some_0) == s@,
{
    let candidates: [BatteryState; 6] = [
        BatteryState::Charging,
        BatteryState::Discharging,
        BatteryState::Empty,
        BatteryState::Full,
        BatteryState::Unknown,
        BatteryState::Other,
    ];
    let mut k: usize = 0;
    while k < 6
        invariant
            k <= 6,
            candidates@ == seq![
                BatteryState::Charging,
                BatteryState::Discharging,
                BatteryState::Empty,
                BatteryState::Full,
                BatteryState::Unknown,
                BatteryState::Other,
            ],
            forall|j: int| 0 <= j < k ==> #[trigger] state_bytes(candidates@[j]) != s@,
        decreases 6 - k,
    {
        let candidate = candidates[k];
        let label = state_label(&candidate);
        if bytes_eq(s, label.as_slice()) {
            proof {
                assert(state_bytes(candidate) == s@);
                let u = choose|u: BatteryState| #[trigger] state_bytes(u) == s@;
                lemma_state_bytes_injective(u, candidate);
            }
            return Some(candidate);
        }
        k = k + 1;
    }
    proof {
        assert forall|st: BatteryState| #[trigger] state_bytes(st) != s@ by {
            match st {
                BatteryState::Charging => {
                    assert(st == candidates@[0]);
                },
                BatteryState::Discharging => {
                    assert(st == candidates@[1]);
                },
                BatteryState::Empty => {
                    assert(st == candidates@[2]);
                },
                BatteryState::Full => {
                    assert(st == candidates@[3]);
                },
                BatteryState::Unknown => {
                    assert(st == candidates@[4]);
                },
                BatteryState::Other => {
                    assert(st == candidates@[5]);
                },
            }
        }
    }
    None
}

/// One reading of the battery, as the history keeps it: a wall-clock
/// timestamp, the charge percentage, the power state, and the estimated
/// minutes to empty or to full when the platform reports them.
#[derive(Clone, Copy, PartialEq, Eq, Structural, Debug)]
pub struct BatteryStatus {
    pub timestamp: Timestamp,
    pub percentage: u8,
    pub state: BatteryState,
    pub time_to_empty: Option<u32>,
    pub time_to_full: Option<u32>,
}

impl BatteryStatus {
    /// A record whose timestamp is calendar-valid and whose percentage is
    /// an actual percentage.
    pub open spec fn well_formed(&self) -> bool {
        &&& self.timestamp.well_formed()
        &&& self.percentage <= 100
    }

    /// Decides whether this record is well formed.
    pub fn check_well_formed(&self) -> (r: bool)
        ensures
            r == self.well_formed(),
    {
        self.timestamp.check_well_formed() && self.percentage <= 100
    }
}

/// One row of the history table, with each column as the plain value the
/// storage layer writes: the timestamp and state as their textual
/// encodings, the rest verbatim.
pub struct HistoryRow {
    pub timestamp: Vec<u8>,
    pub percentage: u8,
    pub state: Vec<u8>,
    pub time_to_empty: Option<u32>,
    pub time_to_full: Option<u32>,
}

/// Encodes a record as the row the storage layer writes for it.
pub fn encode_status(status: &BatteryStatus) -> (row: HistoryRow)
    requires
        status.well_formed(),
    ensures
        row.timestamp@ == timestamp_bytes(status.timestamp),
        row.percentage == status.percentage,
        row.state@ == state_bytes(status.state),
        row.time_to_empty == status.time_to_empty,
        row.time_to_full == status.time_to_full,
{
    HistoryRow {
        timestamp: format_timestamp(&status.timestamp),
        percentage: status.percentage,
        state: state_label(&status.state),
        time_to_empty: status.time_to_empty,
        time_to_full: status.time_to_full,
    }
}

/// Decodes a stored row back into a record. Succeeds exactly when the
/// timestamp column encodes a well-formed timestamp, the state column is
/// one of the six labels, and the percentage is at most 100; every field
/// of the result is pinned to the corresponding column.
pub fn decode_status(row: &HistoryRow) -> (r: Option<BatteryStatus>)
    ensures
        (r is Some) <==> (decoded_timestamp(row.timestamp@) is Some && decoded_state(row.state@)
            is Some && row.percentage <= 100),
        r is Some ==> r->Some_0 == (BatteryStatus {
            timestamp: decoded_timestamp(row.timestamp@)->Some_0,
            percentage: row.percentage,
            state: decoded_state(row.state@)->Some_0,
            time_to_empty: row.time_to_empty,
            time_to_full: row.time_to_full,
        }),
        r is Some ==> r->Some_0.well_formed(),
{
    let timestamp = match parse_timestamp(row.timestamp.as_slice()) {
        Some(t) => t,
        None => {
            return None;
        },
    };
    let state = match parse_state(row.state.as_slice()) {
        Some(st) => st,
        None => {
            return None;
        },
    };
    if row.percentage > 100 {
        return None;
    }
    Some(
        BatteryStatus {
            timestamp,
            percentage: row.percentage,
            state,
            time_to_empty: row.time_to_empty,
            time_to_full: row.time_to_full,
        },
    )
}

/// Law: a record written as a row and read back yields identical field
/// values — the timestamp to the second, the state label, the percentage
/// and both estimates.
pub proof fn lemma_status_round_trip(status: BatteryStatus)
    requires
        status.well_formed(),
    ensures
        decoded_timestamp(timestamp_bytes(status.timestamp)) == Some(status.timestamp),
        decoded_state(state_bytes(status.state)) == Some(status.state),
{
    lemma_timestamp_round_trip(status.timestamp);
    lemma_state_round_trip(status.state);
}

} // verus!
