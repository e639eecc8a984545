use vstd::prelude::*;

verus! {

/// Why a capture device cannot be used.
#[derive(Debug, Clone, Copy, PartialEq, Eq, Structural)]
pub enum DeviceError {
    NoInputDevice,
    NoSupportedConfig,
}

/// One configuration range a device advertises: a channel count and the
/// sample rates it supports with it.
#[derive(Debug, Clone, Copy, PartialEq, Eq, Structural)]
pub struct ConfigRange {
    pub channels: u16,
    pub min_rate: u32,
    pub max_rate: u32,
}

pub open spec fn clamp_rate(rate: u32, r: ConfigRange) -> u32 {
    if rate < r.min_rate {
        r.min_rate
    } else if rate > r.max_rate {
        r.max_rate
    } else {
        rate
    }
}

pub open spec fn fits(r: ConfigRange, rate: u32, channels: u16) -> bool {
    r.channels == channels && r.min_rate <= rate && rate <= r.max_rate
}

/// The first range that supports the requested configuration exactly.
pub open spec fn first_fit(ranges: Seq<ConfigRange>, rate: u32, channels: u16) -> Option<int> {
    if exists|i: int| 0 <= i < ranges.len() && fits(#[trigger] ranges[i], rate, channels) {
        Some(
            choose|i: int|
                0 <= i < ranges.len() && fits(#[trigger] ranges[i], rate, channels) && forall|j: int|
                    0 <= j < i ==> !fits(#[trigger] ranges[j], rate, channels),
        )
    } else {
        None
    }
}

/// The first range with the given channel count.
pub open spec fn first_with_channels(ranges: Seq<ConfigRange>, channels: u16) -> Option<int> {
    if exists|i: int| 0 <= i < ranges.len() && (#[trigger] ranges[i]).channels == channels {
        Some(
            choose|i: int|
                0 <= i < ranges.len() && (#[trigger] ranges[i]).channels == channels && forall|j: int|
                    0 <= j < i ==> (#[trigger] ranges[j]).channels != channels,
        )
    } else {
        None
    }
}

pub open spec fn max_channels(ranges: Seq<ConfigRange>) -> u16
    decreases ranges.len(),
{
    if ranges.len() == 0 {
        0
    } else {
        let m = max_channels(ranges.drop_last());
        if ranges.last().channels > m {
            ranges.last().channels
        } else {
            m
        }
    }
}

/// The configuration to open: the requested one when a range supports it;
/// else, with the channel count clamped to the device's maximum, the first
/// range of that count with the rate clamped into it; else the first range,
/// with the rate clamped into it.
pub open spec fn negotiate_spec(ranges: Seq<ConfigRange>, rate: u32, channels: u16) -> Result<(u32, u16), DeviceError> {
    if ranges.len() == 0 {
        Err(DeviceError::NoSupportedConfig)
    } else {
        match first_fit(ranges, rate, channels) {
            Some(_) => Ok((rate, channels)),
            None => {
                let target = if channels > max_channels(ranges) { max_channels(ranges) } else { channels };
                match first_with_channels(ranges, target) {
                    Some(i) => Ok((clamp_rate(rate, ranges[i]), target)),
                    None => Ok((clamp_rate(rate, ranges[0]), ranges[0].channels)),
                }
            },
        }
    }
}

fn clamp(rate: u32, r: ConfigRange) -> (out: u32)
    ensures
        out == clamp_rate(rate, r),
{
    if rate < r.min_rate {
        r.min_rate
    } else if rate > r.max_rate {
        r.max_rate
    } else {
        rate
    }
}

proof fn lemma_first_fit(ranges: Seq<ConfigRange>, rate: u32, channels: u16, k: int)
    requires
        0 <= k < ranges.len(),
        fits(ranges[k], rate, channels),
        forall|j: int| 0 <= j < k ==> !fits(#[trigger] ranges[j], rate, channels),
    ensures
        first_fit(ranges, rate, channels) == Some(k),
{
    let c = choose|i: int|
        0 <= i < ranges.len() && fits(#[trigger] ranges[i], rate, channels) && forall|j: int|
            0 <= j < i ==> !fits(#[trigger] ranges[j], rate, channels);
    assert(c == k) by {
        if c < k {
            assert(!fits(ranges[c], rate, channels));
        } else if k < c {
            assert(!fits(ranges[k], rate, channels));
        }
    }
}

proof fn lemma_first_with_channels(ranges: Seq<ConfigRange>, channels: u16, k: int)
    requires
        0 <= k < ranges.len(),
        ranges[k].channels == channels,
        forall|j: int| 0 <= j < k ==> (#[trigger] ranges[j]).channels != channels,
    ensures
        first_with_channels(ranges, channels) == Some(k),
{
    let c = choose|i: int|
        0 <= i < ranges.len() && (#[trigger] ranges[i]).channels == channels && forall|j: int|
            0 <= j < i ==> (#[trigger] ranges[j]).channels != channels;
    assert(c == k) by {
        if c < k {
            assert(ranges[c].channels != channels);
        } else if k < c {
            assert(ranges[k].channels != channels);
        }
    }
}

/// Picks the sample rate and channel count to open a device with.
pub fn negotiate_config(ranges: &Vec<ConfigRange>, rate: u32, channels: u16) -> (r: Result<(u32, u16), DeviceError>)
    ensures
        r == negotiate_spec(ranges@, rate, channels),
{
    let n = ranges.len();
    if n == 0 {
        return Err(DeviceError::NoSupportedConfig);
    }
    let mut i: usize = 0;
    let mut maxc: u16 = 0;
    while i < n
        invariant
            n == ranges@.len(),
            0 <= i <= n,
            forall|j: int| 0 <= j < i ==> !fits(#[trigger] ranges@[j], rate, channels),
            maxc == max_channels(ranges@.subrange(0, i as int)),
        decreases n - i,
    {
        let c = ranges[i];
        proof {
            assert(ranges@.subrange(0, i + 1).drop_last() =~= ranges@.subrange(0, i as int));
        }
        if c.channels == channels && c.min_rate <= rate && rate <= c.max_rate {
            proof {
                lemma_first_fit(ranges@, rate, channels, i as int);
            }
            return Ok((rate, channels));
        }
        if c.channels > maxc {
            maxc = c.channels;
        }
        i = i + 1;
    }
    proof {
        assert(ranges@.subrange(0, n as int) =~= ranges@);
        if exists|k: int| 0 <= k < ranges@.len() && fits(#[trigger] ranges@[k], rate, channels) {
            let k = choose|k: int| 0 <= k < ranges@.len() && fits(#[trigger] ranges@[k], rate, channels);
            assert(!fits(ranges@[k], rate, channels));
        }
    }
    let target: u16 = if channels > maxc { maxc } else { channels };
    let mut j: usize = 0;
    while j < n
        invariant
            n == ranges@.len(),
            0 <= j <= n,
            forall|k: int| 0 <= k < j ==> (#[trigger] ranges@[k]).channels != target,
            first_fit(ranges@, rate, channels) is None,
            maxc == max_channels(ranges@),
            target == if channels > maxc { maxc } else { channels },
        decreases n - j,
    {
        if ranges[j].channels == target {
            proof {
                lemma_first_with_channels(ranges@, target, j as int);
            }
            return Ok((clamp(rate, ranges[j]), target));
        }
        j = j + 1;
    }
    proof {
        if exists|k: int| 0 <= k < ranges@.len() && (#[trigger] ranges@[k]).channels == target {
            let k = choose|k: int| 0 <= k < ranges@.len() && (#[trigger] ranges@[k]).channels == target;
            assert(ranges@[k].channels != target);
        }
    }
    Ok((clamp(rate, ranges[0]), ranges[0].channels))
}

} // verus!
