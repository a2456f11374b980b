use vstd::prelude::*;

pub mod codec;
pub mod protocol;
pub mod bootrom;
pub mod bl2;
pub mod session;
pub mod brom_session;
pub mod bl2_session;

verus! {

} // verus!
