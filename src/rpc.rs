//! Results of the node's RPC methods and how they are shown.
use crate::text::{dec_str, push_decimal, push_str};
use move_core_types::vm_status::StatusCode;
use vstd::prelude::*;

verus! {

/// The status code of a successful execution.
pub const EXECUTED: u64 = 4001;

/// A weight of the chain.
#[derive(Debug, Clone, Copy, PartialEq, Eq, Structural)]
pub struct Weight {
    /// The weight of computational time used based on some reference hardware.
    pub ref_time: u64,
    /// The weight of storage space used by proof of validity.
    pub proof_size: u64,
}

/// Gas estimation information.
#[derive(Debug, Clone, Copy, PartialEq, Eq, Structural)]
pub struct Estimation {
    /// Gas used.
    pub gas_used: u64,
    /// Status code of the execution.
    pub vm_status_code: u64,
    /// Weight of the whole extrinsic, the gas used included.
    pub total_weight_including_gas_used: Weight,
}

/// The name of a VM status code.
pub uninterp spec fn status_name_of(code: u64) -> Seq<char>;

/// Relies on `move_core_types::vm_status::StatusCode`: the name of the
/// variant with this code, `UNKNOWN_STATUS` for a code it does not have.
#[verifier::external_body]
fn status_name(code: u64) -> (r: String)
    ensures
        r@ == status_name_of(code),
{
    match StatusCode::try_from(code) {
        Ok(status) => format!("{:?}", status),
        Err(_) => format!("{:?}", StatusCode::UNKNOWN_STATUS),
    }
}

/// How a weight is written in the text of an estimation.
pub open spec fn weight_debug_text(ref_time: nat, proof_size: nat) -> Seq<char> {
    "Weight { ref_time: "@ + dec_str(ref_time) + ", proof_size: "@ + dec_str(proof_size) + " }"@
}

/// The text of an estimation. Gas and weight figures of an execution that
/// did not succeed mean nothing and are shown as 0.
pub open spec fn estimation_text(e: Estimation) -> Seq<char> {
    let ok = e.vm_status_code == EXECUTED;
    let gas: nat = if ok {
        e.gas_used as nat
    } else {
        0
    };
    let w = if ok {
        e.total_weight_including_gas_used
    } else {
        Weight { ref_time: 0, proof_size: 0 }
    };
    "Estimate (gas_used: "@ + dec_str(gas) + ", total_extrinsic cost with gas_used: "@
        + weight_debug_text(w.ref_time as nat, w.proof_size as nat) + ", vm_status_code: "@
        + status_name_of(e.vm_status_code) + ")"@
}

/// The text of a weight.
pub open spec fn weight_text(w: Weight) -> Seq<char> {
    "Weight (ref_time: "@ + dec_str(w.ref_time as nat) + ", proof_size: "@ + dec_str(
        w.proof_size as nat,
    ) + ")"@
}

impl Weight {
    /// `Weight (ref_time: .., proof_size: ..)`.
    pub fn to_display_string(&self) -> (r: String)
        ensures
            r@ == weight_text(*self),
    {
        let mut r = String::new();
        push_str(&mut r, "Weight (ref_time: ");
        push_decimal(&mut r, self.ref_time);
        push_str(&mut r, ", proof_size: ");
        push_decimal(&mut r, self.proof_size);
        push_str(&mut r, ")");
        r
    }
}

impl Estimation {
    /// The estimation as shown to the user; see [`estimation_text`].
    pub fn to_display_string(&self) -> (r: String)
        ensures
            r@ == estimation_text(*self),
    {
        let (gas, w) = if self.vm_status_code == EXECUTED {
            (self.gas_used, self.total_weight_including_gas_used)
        } else {
            (0, Weight { ref_time: 0, proof_size: 0 })
        };
        let mut r = String::new();
        push_str(&mut r, "Estimate (gas_used: ");
        push_decimal(&mut r, gas);
        push_str(&mut r, ", total_extrinsic cost with gas_used: ");
        push_str(&mut r, "Weight { ref_time: ");
        push_decimal(&mut r, w.ref_time);
        push_str(&mut r, ", proof_size: ");
        push_decimal(&mut r, w.proof_size);
        push_str(&mut r, " }");
        push_str(&mut r, ", vm_status_code: ");
        let name = status_name(self.vm_status_code);
        push_str(&mut r, name.as_str());
        push_str(&mut r, ")");
        assert(r@ =~= estimation_text(*self));
        r
    }
}

/// An estimation of a failed execution shows no gas and no weight,
/// whatever figures the node sent.
pub proof fn lemma_failed_estimation_shows_zero(e: Estimation)
    requires
        e.vm_status_code != EXECUTED,
    ensures
        estimation_text(e) == "Estimate (gas_used: "@ + dec_str(0) + ", total_extrinsic cost with gas_used: "@
            + weight_debug_text(0, 0) + ", vm_status_code: "@ + status_name_of(e.vm_status_code) + ")"@,
        estimation_text(e) == estimation_text(
            Estimation { gas_used: 0, total_weight_including_gas_used: Weight { ref_time: 0, proof_size: 0 }, ..e },
        ),
{
}

/// The line shown for a conversion of gas to weight.
pub fn gas_to_weight_line(gas: u64, w: &Weight) -> (r: String)
    ensures
        r@ == "Value of "@ + dec_str(gas as nat) + " gas converted to weight has a value of "@
            + weight_text(*w),
{
    let mut r = String::new();
    push_str(&mut r, "Value of ");
    push_decimal(&mut r, gas);
    push_str(&mut r, " gas converted to weight has a value of ");
    let t = w.to_display_string();
    push_str(&mut r, t.as_str());
    r
}

} // verus!
