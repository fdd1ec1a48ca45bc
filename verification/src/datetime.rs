//! Wall-clock time kept relative to a reference read at provisioning.
//!
//! The device learns the current unix time once, over the network, and from
//! then on derives the time of day from a local monotonic reading plus a
//! fixed offset from UTC. All arithmetic here saturates instead of wrapping:
//! a clock that pins at the range's edge beats one that jumps backwards.

use vstd::prelude::*;

verus! {

/// Relies on `std::time::SystemTime::now`, read as whole seconds since the
/// unix epoch; nothing is assumed of the value, which a verified caller
/// treats as an arbitrary reading.
#[verifier::external_body]
fn clock_secs() -> u64 {
    match std::time::SystemTime::now().duration_since(std::time::UNIX_EPOCH) {
        Ok(d) => d.as_secs(),
        Err(_) => 0,
    }
}

/// `a + b` capped at the top of the range.
pub open spec fn spec_sat_add(a: u64, b: u64) -> u64 {
    if a + b > u64::MAX {
        u64::MAX
    } else {
        (a + b) as u64
    }
}

/// `a - b`, with zero for a reading from before the reference.
pub open spec fn spec_sat_sub(a: u64, b: u64) -> u64 {
    if a >= b {
        (a - b) as u64
    } else {
        0
    }
}

/// A clock anchored at one absolute reading.
#[derive(Debug, Clone, Copy, PartialEq, Eq, Structural)]
pub struct DateTime {
    /// The moment the device booted, as a unix timestamp in UTC seconds.
    boot_time: u64,
    /// Offset of local time from UTC, in seconds.
    offset: u64,
}

impl DateTime {
    /// The boot moment this clock is anchored at.
    pub closed spec fn spec_boot_time(&self) -> u64 {
        self.boot_time
    }

    /// This clock's offset from UTC, in seconds.
    pub closed spec fn spec_offset(&self) -> u64 {
        self.offset
    }

    /// The local time this clock shows when the monotonic reading is `t`
    /// seconds.
    pub open spec fn spec_local_at(&self, t: u64) -> u64 {
        spec_sat_add(spec_sat_add(self.spec_boot_time(), t), self.spec_offset())
    }

    /// A clock anchored at `curr_time`, the unix time in UTC seconds at the
    /// moment of the call, showing UTC.
    pub fn new(curr_time: u64) -> (r: Self)
        ensures
            r.spec_offset() == 0,
            exists|t: u64| r.spec_boot_time() == spec_sat_sub(curr_time, t),
    {
        Self::with_offset(curr_time, 0)
    }

    /// A clock anchored at `curr_time`, the unix time in UTC seconds at the
    /// moment of the call, showing local time `offset` seconds east of UTC.
    pub fn with_offset(unix_time_utc: u64, offset: u64) -> (r: Self)
        ensures
            r.spec_offset() == offset,
            exists|t: u64| r.spec_boot_time() == spec_sat_sub(unix_time_utc, t),
    {
        let now = clock_secs();
        let boot_time = if unix_time_utc >= now {
            unix_time_utc - now
        } else {
            0
        };
        let r = Self { boot_time, offset };
        proof {
            assert(r.spec_boot_time() == spec_sat_sub(unix_time_utc, now));
        }
        r
    }

    /// The current time as a unix timestamp in UTC seconds, for the clock
    /// reading the call happened at.
    fn now(&self) -> (r: u64)
        ensures
            exists|t: u64| r == spec_sat_add(self.spec_boot_time(), t),
    {
        let from_boot = clock_secs();
        let r = if self.boot_time <= u64::MAX - from_boot {
            self.boot_time + from_boot
        } else {
            u64::MAX
        };
        proof {
            assert(r == spec_sat_add(self.spec_boot_time(), from_boot));
        }
        r
    }

    /// The current local time as a unix timestamp in seconds, for the clock
    /// reading the call happened at.
    pub fn now_local(&self) -> (r: u64)
        ensures
            exists|t: u64| r == self.spec_local_at(t),
    {
        let utc = self.now();
        let ghost t = choose|t: u64| utc == spec_sat_add(self.spec_boot_time(), t);
        let r = if utc <= u64::MAX - self.offset {
            utc + self.offset
        } else {
            u64::MAX
        };
        proof {
            assert(r == self.spec_local_at(t));
        }
        r
    }

    /// The local time shown when the monotonic reading is `t` seconds: the
    /// boot anchor plus the reading plus the UTC offset, saturating.
    pub fn local_at(&self, t: u64) -> (r: u64)
        ensures
            r == self.spec_local_at(t),
    {
        let utc = if self.boot_time <= u64::MAX - t {
            self.boot_time + t
        } else {
            u64::MAX
        };
        if utc <= u64::MAX - self.offset {
            utc + self.offset
        } else {
            u64::MAX
        }
    }
}

/// The three-letter English name of month `m`.
pub open spec fn spec_month_name(m: u32) -> Seq<char> {
    if m == 1 {
        "Jan"@
    } else if m == 2 {
        "Feb"@
    } else if m == 3 {
        "Mar"@
    } else if m == 4 {
        "Apr"@
    } else if m == 5 {
        "May"@
    } else if m == 6 {
        "Jun"@
    } else if m == 7 {
        "Jul"@
    } else if m == 8 {
        "Aug"@
    } else if m == 9 {
        "Sep"@
    } else if m == 10 {
        "Oct"@
    } else if m == 11 {
        "Nov"@
    } else {
        "Dec"@
    }
}

/// The short month name; the month number must be between 1 and 12. Use
/// [`try_month_name_short`] for the total version.
pub fn month_name_short(month_number: u32) -> (r: &'static str)
    requires
        1 <= month_number <= 12,
    ensures
        r@ == spec_month_name(month_number),
{
    match month_number {
        1 => "Jan",
        2 => "Feb",
        3 => "Mar",
        4 => "Apr",
        5 => "May",
        6 => "Jun",
        7 => "Jul",
        8 => "Aug",
        9 => "Sep",
        10 => "Oct",
        11 => "Nov",
        _ => "Dec",
    }
}

/// The short month name when the number is between 1 and 12, `None`
/// otherwise.
pub fn try_month_name_short(month_number: u32) -> (r: Option<&'static str>)
    ensures
        match r {
            Some(name) => 1 <= month_number <= 12 && name@ == spec_month_name(month_number),
            None => !(1 <= month_number <= 12),
        },
{
    if 1 <= month_number && month_number <= 12 {
        Some(month_name_short(month_number))
    } else {
        None
    }
}

} // verus!
