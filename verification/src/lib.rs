//! Control-plane core of a small networked embedded device.
//!
//! The crate covers the pieces of the firmware and its host companion that
//! carry correctness obligations: a framed, checksum-verified message codec
//! over an unreliable byte stream, a durable append-style key-value store on
//! a fixed flash range, the broker that dispatches decoded host commands,
//! the connectivity bring-up state machine, and the bounded FIFO mailboxes
//! that connect them.

use vstd::prelude::*;

pub mod broker;
pub mod codec;
pub mod datetime;
pub mod http;
pub mod mailbox;
pub mod messages;
pub mod model;
pub mod serial;
pub mod storage;
pub mod wifi;

verus! {

/// Widens two independent 32-bit random draws into one 64-bit seed, low
/// half first.
pub fn generate_rand_u64(seed1: u32, seed2: u32) -> (r: u64)
    ensures
        r == seed1 + seed2 * 0x1_0000_0000u64,
{
    let r = (seed1 as u64) | ((seed2 as u64) << 32);
    proof {
        let s1 = seed1 as u64;
        let s2 = seed2 as u64;
        assert(s1 < 0x1_0000_0000 && s2 < 0x1_0000_0000 ==> (s1 | (s2 << 32)) == s1 + s2
            * 0x1_0000_0000) by (bit_vector);
    }
    r
}

} // verus!
