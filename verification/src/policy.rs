//! Target-policy resolution and the orchestrator's plan.
//!
//! Given a device's logical name, its maximum brightness and the global mode
//! flag, the policy yields the target the device's ramp engine is bound for:
//! restoring lifts every device to 100% of its maximum — except one
//! hard-coded device pinned to 70% — while dimming sends every device to
//! zero. A computed target is clamped at the device maximum.

use vstd::prelude::*;
use crate::brightness::{Brightness, percent_of, percent_value};
use crate::ramp::ramp_seq;

verus! {

/// The restore-mode target for an ordinary device, in percent of maximum.
pub const RESTORE_PERCENT: u64 = 100;

/// The restore-mode target for the one special device, in percent of maximum.
pub const SPECIAL_RESTORE_PERCENT: u64 = 70;

/// The logical name of the one device whose restore target is pinned below
/// full brightness.
pub open spec fn spec_special_name() -> Seq<char> {
    "ddcci9"@
}

/// Whether `name` is the special device's logical name.
pub open spec fn spec_is_special(name: Seq<char>) -> bool {
    name == spec_special_name()
}

/// Compares two strings character by character.
fn str_eq(a: &str, b: &str) -> (r: bool)
    ensures
        r == (a@ == b@),
{
    let a_len = a.unicode_len();
    let b_len = b.unicode_len();
    if a_len != b_len {
        return false;
    }
    let mut i: usize = 0;
    while i < a_len
        invariant
            0 <= i <= a_len,
            a_len == a@.len(),
            a_len == b@.len(),
            forall|j: int| 0 <= j < i ==> a@[j] == b@[j],
        decreases a_len - i,
    {
        if a.get_char(i) != b.get_char(i) {
            return false;
        }
        i = i + 1;
    }
    proof {
        assert(a@ =~= b@);
    }
    true
}

/// Whether the device with this logical name falls under the special-case
/// restore target.
pub fn is_special_device(name: &str) -> (r: bool)
    ensures
        r == spec_is_special(name@),
{
    str_eq(name, "ddcci9")
}

/// The brightness value the policy selects, before construction guarantees
/// make the clamp a no-op: restore gives 100% of maximum (70% for the
/// special device), dim gives zero; anything above the maximum is cut back
/// to it.
pub open spec fn spec_target(restore: bool, special: bool, max: u64) -> u64 {
    let raw = if restore {
        if special {
            percent_of(SPECIAL_RESTORE_PERCENT as nat, max as nat)
        } else {
            percent_of(RESTORE_PERCENT as nat, max as nat)
        }
    } else {
        0
    };
    if raw > max {
        max
    } else {
        raw as u64
    }
}

/// Resolves the ramp target for one device from the global mode flag, the
/// device's special-case status and its maximum brightness.
pub fn resolve_target(restore: bool, special: bool, max: Brightness) -> (r: Brightness)
    ensures
        r.0 == spec_target(restore, special, max.0),
        r.0 <= max.0,
{
    let raw: u64 = if restore {
        if special {
            percent_value(SPECIAL_RESTORE_PERCENT, max.0)
        } else {
            percent_value(RESTORE_PERCENT, max.0)
        }
    } else {
        0
    };
    if raw > max.0 {
        Brightness(max.0)
    } else {
        Brightness(raw)
    }
}

/// What the orchestrator knows of one discovered device after reading its
/// counters: its logical name, its live brightness and its maximum.
pub struct DeviceSnapshot {
    pub name: String,
    pub current: Brightness,
    pub max: Brightness,
}

/// One engine's marching orders: where its ramp starts and where it ends.
pub struct RampPlan {
    pub start: Brightness,
    pub target: Brightness,
}

/// Builds the plan for a whole run: one ramp per discovered device, each
/// starting at the device's live brightness and bound for the policy target.
/// No devices means an empty plan, which is a valid run.
pub fn plan_run(devices: &Vec<DeviceSnapshot>, restore: bool) -> (r: Vec<RampPlan>)
    ensures
        r@.len() == devices@.len(),
        forall|i: int|
            0 <= i < r@.len() ==> {
                &&& (#[trigger] r@[i]).start == devices@[i].current
                &&& r@[i].target.0 == spec_target(
                    restore,
                    spec_is_special(devices@[i].name@),
                    devices@[i].max.0,
                )
                &&& r@[i].target.0 <= devices@[i].max.0
            },
{
    let mut plans: Vec<RampPlan> = Vec::new();
    let mut i: usize = 0;
    while i < devices.len()
        invariant
            0 <= i <= devices@.len(),
            plans@.len() == i,
            forall|j: int|
                0 <= j < i ==> {
                    &&& (#[trigger] plans@[j]).start == devices@[j].current
                    &&& plans@[j].target.0 == spec_target(
                        restore,
                        spec_is_special(devices@[j].name@),
                        devices@[j].max.0,
                    )
                    &&& plans@[j].target.0 <= devices@[j].max.0
                },
        decreases devices@.len() - i,
    {
        let device = &devices[i];
        let special = is_special_device(device.name.as_str());
        let target = resolve_target(restore, special, device.max);
        plans.push(RampPlan { start: device.current, target });
        i = i + 1;
    }
    plans
}

/// Law: for every computed target and device maximum, no value the device's
/// engine ever writes exceeds the maximum — provided the ramp starts at or
/// below the maximum, as a live reading from the device does.
pub proof fn lemma_run_clamped(restore: bool, special: bool, start: u64, max: u64, step: u64)
    requires
        step >= 1,
        start <= max,
    ensures
        spec_target(restore, special, max) <= max,
        forall|i: int|
            0 <= i < ramp_seq(start, spec_target(restore, special, max), step).len()
                ==> #[trigger] ramp_seq(start, spec_target(restore, special, max), step)[i] <= max,
{
    crate::ramp::lemma_ramp_bounded(start, spec_target(restore, special, max), step, max);
}

/// The total number of writes a run of these plans performs: the lengths of
/// every engine's written sequence, summed.
pub open spec fn total_writes(plans: Seq<RampPlan>, step: u64) -> nat
    decreases plans.len(),
{
    if plans.len() == 0 {
        0
    } else {
        ramp_seq(plans[0].start.0, plans[0].target.0, step).len() + total_writes(
            plans.drop_first(),
            step,
        )
    }
}

/// Law: a run that discovers no devices performs no writes.
pub proof fn lemma_empty_run_no_writes(plans: Seq<RampPlan>, step: u64)
    requires
        plans.len() == 0,
    ensures
        total_writes(plans, step) == 0,
{
}

} // verus!
