//! The simulated device: the codes that each call returns when no
//! hardware is attached. Only unit 0 exists, and every call checks its
//! parameters as the driver documents them.
use crate::device::DeviceStatus;
use vstd::prelude::*;

verus! {

/// The code for an unknown unit or a refused call.
pub const FAILED: i16 = 5;

/// The code for parameters out of range.
pub const INVALID_PARAMETERS: i16 = 8;

/// The samples each channel holds whenever the status is read.
pub const SIM_DATALEN: u32 = 10000;

/// Opens unit `id`.
pub fn open(id: i16) -> (r: i16)
    ensures
        r == if id == 0 {
            0
        } else {
            FAILED
        },
{
    if id == 0 {
        0
    } else {
        FAILED
    }
}

/// Starts continuous acquisition: `ch` 0, 1 or 2 for the first, the second
/// or both channels, a pre-trigger length of at least 0, a trigger type from
/// 0 to 3 and a trigger channel 0 or 1. A bad parameter is reported before
/// an unknown unit.
pub fn start(id: i16, ch: u8, prelen: i32, trig_type: u8, trig_ch: u8) -> (r: i16)
    ensures
        r == if ch > 2 || prelen < 0 || trig_type > 3 || trig_ch > 1 {
            INVALID_PARAMETERS
        } else if id != 0 {
            FAILED
        } else {
            0
        },
{
    if ch > 2 || prelen < 0 || trig_type > 3 || trig_ch > 1 {
        INVALID_PARAMETERS
    } else if id != 0 {
        FAILED
    } else {
        0
    }
}

/// Stops continuous acquisition.
pub fn stop(id: i16) -> (r: i16)
    ensures
        r == if id == 0 {
            0
        } else {
            FAILED
        },
{
    if id == 0 {
        0
    } else {
        FAILED
    }
}

/// Sets the sampling clock: a period of at least 500 ticks and a source,
/// 0 internal or 1 external. A bad period or source is reported before an
/// unknown unit.
pub fn set_clock(id: i16, clock_time: i32, sel: u8) -> (r: i16)
    ensures
        r == if clock_time < 500 || (sel != 0 && sel != 1) {
            INVALID_PARAMETERS
        } else if id != 0 {
            FAILED
        } else {
            0
        },
{
    let mut error: i16 = 0;
    if id != 0 {
        error = FAILED;
    }
    if clock_time < 500 {
        error = INVALID_PARAMETERS;
    }
    if sel != 0 && sel != 1 {
        error = INVALID_PARAMETERS;
    }
    error
}

/// Sets the input range of both channels, each from 0 to 6. An unsupported
/// range is reported before an unknown unit.
pub fn input_set(id: i16, type1: u8, type2: u8) -> (r: i16)
    ensures
        r == if type1 > 6 || type2 > 6 {
            INVALID_PARAMETERS
        } else if id != 0 {
            FAILED
        } else {
            0
        },
{
    if type1 > 6 || type2 > 6 {
        INVALID_PARAMETERS
    } else if id != 0 {
        FAILED
    } else {
        0
    }
}

/// Reads the input ranges of both channels: the code, then the two ranges,
/// which are always the ±10 V range.
pub fn input_check(id: i16) -> (r: (i16, u8, u8))
    ensures
        r == (
            if id == 0 {
                0
            } else {
                FAILED
            },
            0u8,
            0u8,
        ),
{
    if id == 0 {
        (0, 0, 0)
    } else {
        (FAILED, 0, 0)
    }
}

/// Issues a software trigger.
pub fn trigger(id: i16) -> (r: i16)
    ensures
        r == if id == 0 {
            0
        } else {
            FAILED
        },
{
    if id == 0 {
        0
    } else {
        FAILED
    }
}

/// The acquisition status: always converting, with a full batch on each
/// channel.
pub fn status() -> (r: DeviceStatus)
    ensures
        r == (DeviceStatus { status: 3, ch1_datalen: SIM_DATALEN, ch2_datalen: SIM_DATALEN }),
{
    DeviceStatus::new(3, SIM_DATALEN, SIM_DATALEN)
}

/// The input ranges of both channels of unit `id`, as `input_check` reads
/// them; its code is not looked at.
pub fn get_ranges(id: i16) -> (r: (u8, u8))
    ensures
        r == (0u8, 0u8),
{
    let (_error, r1, r2) = input_check(id);
    (r1, r2)
}

/// The smaller of two counts.
pub open spec fn min_count(a: int, b: int) -> int {
    if a <= b {
        a
    } else {
        b
    }
}

/// Reads the samples of channel `ch`, 0 or 1, into `data`: the simulated
/// signal `signal` is what the channel holds. `length` is both the most
/// samples to read and, on return, how many were read: the first
/// `min(length, signal.len())` samples. On an unknown unit or channel
/// nothing is read.
pub fn takeout_data(
    id: i16,
    ch: u8,
    signal: &Vec<i32>,
    data: &mut Vec<i32>,
    length: &mut u32,
) -> (r: i16)
    ensures
        r == if ch > 1 {
            INVALID_PARAMETERS
        } else if id != 0 {
            FAILED
        } else {
            0
        },
        r == 0 ==> *final(length) == min_count(*old(length) as int, signal@.len() as int)
            && final(data)@ == signal@.take(*final(length) as int),
        r != 0 ==> final(data)@ == old(data)@ && *final(length) == *old(length),
{
    if ch > 1 {
        return INVALID_PARAMETERS;
    }
    if id != 0 {
        return FAILED;
    }
    let n: usize = if (*length as usize) <= signal.len() {
        *length as usize
    } else {
        signal.len()
    };
    data.clear();
    let mut i: usize = 0;
    while i < n
        invariant
            i <= n <= signal@.len(),
            data@ == signal@.take(i as int),
        decreases n - i,
    {
        data.push(signal[i]);
        i = i + 1;
        assert(data@ =~= signal@.take(i as int));
    }
    *length = n as u32;
    0
}

} // verus!
