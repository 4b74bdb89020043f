//! Setting the clock from a timestamp that a client writes.

use vstd::prelude::*;
use crate::transmission::wire::{get_u64, le_u64};

verus! {

/// A setting of the system clock: whole seconds since the Unix epoch, as
/// far as 32 bits hold them, and the microseconds beyond.
#[derive(Debug, Clone, Copy, PartialEq, Eq, Structural)]
pub struct ClockSetting {
    pub secs: u32,
    pub micros: u32,
}

/// The clock setting for `millis` milliseconds since the Unix epoch.
pub open spec fn setting_of(millis: u64) -> ClockSetting {
    ClockSetting {
        secs: ((millis / 1000) % 0x1_0000_0000) as u32,
        micros: ((millis % 1000) * 1000) as u32,
    }
}

/// What a write to the time characteristic asks for: eight bytes are a
/// little-endian count of milliseconds since the Unix epoch; anything else
/// is rejected.
pub open spec fn parsed_setting(data: Seq<u8>) -> Option<ClockSetting> {
    if data.len() == 8 {
        Some(setting_of(le_u64(data, 0)))
    } else {
        None
    }
}

/// Reads a write to the time characteristic.
pub fn parse_timestamp(data: &[u8]) -> (r: Option<ClockSetting>)
    ensures
        r == parsed_setting(data@),
        r matches Some(c) ==> c.micros < 1_000_000,
{
    if data.len() != 8 {
        return None;
    }
    let millis = get_u64(data, 0);
    let secs = ((millis / 1000) % 0x1_0000_0000) as u32;
    let micros = ((millis % 1000) * 1000) as u32;
    Some(ClockSetting { secs, micros })
}

} // verus!
