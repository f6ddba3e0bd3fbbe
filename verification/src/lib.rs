//! Verified core of an RTMP ingest pipeline: FLV tag decoding, H.264
//! parameter-set extraction, frame assembly with monotonic media time, and a
//! one-producer many-consumer fan-out queue with bounded per-consumer backlog.

pub mod avc;
pub mod flv;
pub mod media;
pub mod queue;
pub mod session;

use vstd::prelude::*;

verus! {

/// Millisecond delta between two 32-bit RTMP timestamps, clamped at zero.
pub fn rtmp_delta(prev: u32, now: u32) -> (d: u32)
    ensures
        d == if now >= prev {
            (now - prev) as int
        } else {
            0int
        },
{
    if now >= prev {
        now - prev
    } else {
        0
    }
}

} // verus!
