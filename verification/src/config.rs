//! The settings of the service, and the choice of an input device and of
//! the stream configuration to capture with.

use vstd::prelude::*;

verus! {

/// The settings of the service.
#[derive(Debug, Clone)]
pub struct Config {
    /// The time that the buffer spans, in seconds.
    pub buffer_duration: u64,
    /// Where the HTTP service listens.
    pub server: ServerSettings,
}

/// Where the HTTP service listens.
#[derive(Debug, Clone)]
pub struct ServerSettings {
    /// The address to bind to.
    pub host: String,
    /// The port to bind to.
    pub port: u16,
}

/// The size of the blocks in which a stream delivers its samples.
#[derive(Debug, Clone, Copy, PartialEq, Eq, Structural)]
pub enum BufferSize {
    /// Whatever the device chooses.
    Default,
    /// This many frames.
    Fixed(u32),
}

/// A stream configuration: what a capture stream is opened with.
#[derive(Debug, Clone, Copy, PartialEq, Eq, Structural)]
pub struct StreamConfig {
    /// The number of channels.
    pub channels: u16,
    /// The rate in samples per second.
    pub sample_rate: u32,
    /// The size of the blocks that the stream delivers.
    pub buffer_size: BufferSize,
}

/// What a device would capture with by default: a number of channels and a
/// rate.
#[derive(Debug, Clone, Copy, PartialEq, Eq, Structural)]
pub struct DefaultConfig {
    /// The number of channels.
    pub channels: u16,
    /// The rate in samples per second.
    pub sample_rate: u32,
}

/// A family of configurations that a device supports: one channel count,
/// and every rate from a lowest to a highest.
#[derive(Debug, Clone, Copy, PartialEq, Eq, Structural)]
pub struct SupportedConfigRange {
    /// The number of channels.
    pub channels: u16,
    /// The lowest rate in samples per second.
    pub min_sample_rate: u32,
    /// The highest rate in samples per second.
    pub max_sample_rate: u32,
}

/// What an input device said when it was asked. A query that failed is
/// `None`.
#[derive(Debug)]
pub struct DeviceProbe {
    /// The name of the device.
    pub name: Option<String>,
    /// The families of configurations that it supports, in the order in
    /// which it gave them.
    pub supported: Option<Vec<SupportedConfigRange>>,
    /// The configuration that it would use by default.
    pub default_config: Option<DefaultConfig>,
}

/// How the search for a device ended.
#[derive(Debug, Clone, Copy, PartialEq, Eq, Structural)]
pub enum Negotiation {
    /// The device at `device` can be captured from with `config`.
    Found { device: usize, config: StreamConfig },
    /// The device at `device` did not give its name, which ends the search.
    NameUnreadable { device: usize },
    /// No device has a usable configuration.
    NoDevice,
}

/// The rate that a configuration of the device should have: that of its
/// default configuration, or zero where it has none.
pub open spec fn target_rate(probe: DeviceProbe) -> u32 {
    match probe.default_config {
        Some(config) => config.sample_rate,
        None => 0,
    }
}

/// The configuration of a family at its highest rate, with blocks of the
/// size that the device chooses.
pub open spec fn at_max_rate(range: SupportedConfigRange) -> StreamConfig {
    StreamConfig {
        channels: range.channels,
        sample_rate: range.max_sample_rate,
        buffer_size: BufferSize::Default,
    }
}

/// The default configuration of a device as a stream configuration, with
/// blocks of the size that the device chooses.
pub open spec fn as_stream_config(config: DefaultConfig) -> StreamConfig {
    StreamConfig {
        channels: config.channels,
        sample_rate: config.sample_rate,
        buffer_size: BufferSize::Default,
    }
}

/// Whether `i` is the first family of `ranges` whose highest rate is
/// `rate`.
pub open spec fn first_match(ranges: Seq<SupportedConfigRange>, rate: u32, i: int) -> bool {
    &&& 0 <= i < ranges.len()
    &&& ranges[i].max_sample_rate == rate
    &&& forall|j: int| 0 <= j < i ==> ranges[j].max_sample_rate != rate
}

/// The configuration to capture from a device with, if it has a usable
/// one. A device whose families could not be read has none. Else it is the
/// first family whose highest rate is the device's default rate, at that
/// rate; and where there is no such family, the default configuration.
pub open spec fn supported_config(probe: DeviceProbe) -> Option<StreamConfig> {
    match probe.supported {
        None => None,
        Some(ranges) => {
            if exists|i: int| first_match(ranges@, target_rate(probe), i) {
                let i = choose|i: int| first_match(ranges@, target_rate(probe), i);
                Some(at_max_rate(ranges@[i]))
            } else {
                match probe.default_config {
                    Some(config) => Some(as_stream_config(config)),
                    None => None,
                }
            }
        },
    }
}

/// Whether the search goes past a device: its name could be read, and it
/// has no usable configuration.
pub open spec fn passed_over(probe: DeviceProbe) -> bool {
    probe.name is Some && supported_config(probe) is None
}

/// How the search over `probes` ends: at the first device that is not
/// passed over, which is found if its name could be read; with no device if
/// all are passed over.
pub open spec fn negotiated(probes: Seq<DeviceProbe>, outcome: Negotiation) -> bool {
    match outcome {
        Negotiation::Found { device, config } => {
            &&& device < probes.len()
            &&& forall|j: int| 0 <= j < device ==> passed_over(#[trigger] probes[j])
            &&& probes[device as int].name is Some
            &&& supported_config(probes[device as int]) == Some(config)
        },
        Negotiation::NameUnreadable { device } => {
            &&& device < probes.len()
            &&& forall|j: int| 0 <= j < device ==> passed_over(#[trigger] probes[j])
            &&& probes[device as int].name is None
        },
        Negotiation::NoDevice => forall|j: int|
            0 <= j < probes.len() ==> passed_over(#[trigger] probes[j]),
    }
}

/// Two indices that are both the first match are the same index.
proof fn lemma_first_match_unique(ranges: Seq<SupportedConfigRange>, rate: u32, i: int, j: int)
    requires
        first_match(ranges, rate, i),
        first_match(ranges, rate, j),
    ensures
        i == j,
{
}

/// The configuration to capture from a device with, if it has a usable one.
pub fn find_supported_config(probe: &DeviceProbe) -> (r: Option<StreamConfig>)
    ensures
        r == supported_config(*probe),
{
    let target: u32 = match probe.default_config {
        Some(config) => config.sample_rate,
        None => 0,
    };
    match &probe.supported {
        None => None,
        Some(ranges) => {
            let n: usize = ranges.len();
            let mut i: usize = 0;
            while i < n
                invariant
                    i <= n,
                    n == ranges@.len(),
                    target == target_rate(*probe),
                    probe.supported == Some(*ranges),
                    forall|j: int| 0 <= j < i ==> ranges@[j].max_sample_rate != target,
                decreases n - i,
            {
                let range: SupportedConfigRange = ranges[i];
                if range.max_sample_rate == target {
                    proof {
                        assert(first_match(ranges@, target_rate(*probe), i as int));
                        let c = choose|c: int| first_match(ranges@, target_rate(*probe), c);
                        lemma_first_match_unique(ranges@, target_rate(*probe), i as int, c);
                    }
                    return Some(
                        StreamConfig {
                            channels: range.channels,
                            sample_rate: range.max_sample_rate,
                            buffer_size: BufferSize::Default,
                        },
                    );
                }
                i = i + 1;
            }
            match probe.default_config {
                Some(config) => Some(
                    StreamConfig {
                        channels: config.channels,
                        sample_rate: config.sample_rate,
                        buffer_size: BufferSize::Default,
                    },
                ),
                None => None,
            }
        },
    }
}

/// The first device that can be captured from, and the configuration to
/// capture with.
pub fn find_working_device_and_config(probes: &[DeviceProbe]) -> (r: Negotiation)
    ensures
        negotiated(probes@, r),
{
    let n: usize = probes.len();
    let mut i: usize = 0;
    while i < n
        invariant
            i <= n,
            n == probes@.len(),
            forall|j: int| 0 <= j < i ==> passed_over(#[trigger] probes@[j]),
        decreases n - i,
    {
        if probes[i].name.is_none() {
            return Negotiation::NameUnreadable { device: i };
        }
        match find_supported_config(&probes[i]) {
            Some(config) => {
                return Negotiation::Found { device: i, config };
            },
            None => {},
        }
        i = i + 1;
    }
    Negotiation::NoDevice
}

/// The search has one outcome.
pub proof fn lemma_negotiation_is_unique(probes: Seq<DeviceProbe>, a: Negotiation, b: Negotiation)
    requires
        negotiated(probes, a),
        negotiated(probes, b),
    ensures
        a == b,
{
    let end_a: int = match a {
        Negotiation::Found { device, .. } => device as int,
        Negotiation::NameUnreadable { device } => device as int,
        Negotiation::NoDevice => probes.len() as int,
    };
    let end_b: int = match b {
        Negotiation::Found { device, .. } => device as int,
        Negotiation::NameUnreadable { device } => device as int,
        Negotiation::NoDevice => probes.len() as int,
    };
    if end_a < end_b {
        assert(passed_over(probes[end_a]));
    } else if end_b < end_a {
        assert(passed_over(probes[end_b]));
    }
}

/// With no device at all, the search finds none.
pub proof fn lemma_no_devices_no_session(outcome: Negotiation)
    requires
        negotiated(Seq::<DeviceProbe>::empty(), outcome),
    ensures
        outcome == Negotiation::NoDevice,
{
}

} // verus!
