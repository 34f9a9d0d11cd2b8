//! Payment records.

use vstd::prelude::*;

verus! {

/// Where a payment stands. A payment starts as `Pending`; confirming it
/// makes it `Completed`.
#[derive(Clone, Copy, Debug, PartialEq, Eq, Structural)]
pub enum PaymentStatus {
    Pending,
    Completed,
    Failed,
}

/// One payment. Ids are the 128-bit values of UUIDs; `amount_bits` is the
/// IEEE 754 bit pattern of the amount, which the store carries unchanged.
#[derive(Clone, Copy, Debug, PartialEq, Eq, Structural)]
pub struct Payment {
    pub id: u128,
    pub user_id: u128,
    pub course_id: i32,
    pub amount_bits: u64,
    pub status: PaymentStatus,
}

/// Payload that opens a payment.
#[derive(Clone, Copy, Debug, PartialEq, Eq, Structural)]
pub struct NewPayment {
    pub user_id: u128,
    pub course_id: i32,
    pub amount_bits: u64,
}

impl Payment {
    /// This payment with its status set to `Completed`.
    pub open spec fn confirmed(self) -> Payment {
        Payment { status: PaymentStatus::Completed, ..self }
    }
}

} // verus!
