//! UUID version 7 identifiers: a 48-bit millisecond Unix timestamp followed
//! by 74 random bits, with the version and variant fields fixed, and a
//! sequencing rule that keeps identifiers generated by one process
//! monotonically increasing even when the clock stalls or steps backward.
use vstd::prelude::*;

pub mod generator;
pub mod text;
pub mod uuid7;

use crate::generator::SharedGenerator;
use crate::uuid7::is_uuid_v7;
use crate::uuid7::spec_pack;
use crate::uuid7::UuidV7;

verus! {

/// One version-7 identifier from a shared generator: the entry point the
/// process calls, from any thread, with the generator as its one shared
/// state.
pub fn gen_uuid_v7(generator: &SharedGenerator) -> (r: UuidV7)
    ensures
        is_uuid_v7(r.value),
        exists|ts: u64, rnd: Seq<u8>| rnd.len() == 10 && r.value == spec_pack(ts, rnd),
{
    generator.generate()
}

} // verus!
