//! A dongle's settings and the channel plan derived from them: device
//! lookup by serial, gain normalization, frequency ordering, the spread
//! check and the per-channel and center frequencies.

use vstd::prelude::*;
use crate::decoders::{ValidDecoderType, INTRATE};

verus! {

/// Widest span of channel frequencies one dongle can cover, in Hz.
pub const MAX_SPREAD_HZ: u64 = 2000000;
/// Most channels one dongle demodulates.
pub const MAX_CHANNELS: usize = 16;
/// Requested gains above this, in tenths of a dB, select automatic gain control.
pub const AGC_GAIN_SENTINEL: i32 = 500;

/// Why a device could not be set up.
#[derive(Clone, Debug, PartialEq, Eq)]
pub enum RTLSDRError {
    DeviceNotFound { sdr: String },
    FrequencySpreadTooLarge { sdr: String },
    NoFrequencyProvided { sdr: String },
}

/// What the USB layer reports of one attached dongle.
pub struct DeviceAttributesView {
    pub index: u32,
    pub vendor: Seq<char>,
    pub product: Seq<char>,
    pub serial: Seq<char>,
}

/// One attached dongle, as enumerated.
#[derive(Debug)]
pub struct DeviceAttributes {
    vendor: String,
    product: String,
    serial: String,
    index: u32,
}

impl View for DeviceAttributes {
    type V = DeviceAttributesView;

    closed spec fn view(&self) -> DeviceAttributesView {
        DeviceAttributesView {
            index: self.index,
            vendor: self.vendor@,
            product: self.product@,
            serial: self.serial@,
        }
    }
}

impl DeviceAttributes {
    pub fn new(index: u32, vendor: String, product: String, serial: String) -> (r: Self)
        ensures
            r@.index == index,
            r@.vendor == vendor@,
            r@.product == product@,
            r@.serial == serial@,
    {
        DeviceAttributes { vendor, product, serial, index }
    }

    pub fn index(&self) -> (r: u32)
        ensures
            r == self@.index,
    {
        self.index
    }

    pub fn vendor(&self) -> (r: &str)
        ensures
            r@ == self@.vendor,
    {
        self.vendor.as_str()
    }

    pub fn product(&self) -> (r: &str)
        ensures
            r@ == self@.product,
    {
        self.product.as_str()
    }

    pub fn serial(&self) -> (r: &str)
        ensures
            r@ == self@.serial,
    {
        self.serial.as_str()
    }

    /// Whether this dongle carries serial `serial`.
    pub fn has_serial(&self, serial: &String) -> (r: bool)
        ensures
            r == (self@.serial == serial@),
    {
        self.serial == *serial
    }
}

/// The index of the last enumerated dongle whose serial is `serial`.
pub fn find_device_index(devices: &Vec<DeviceAttributes>, serial: &String) -> (r: Option<u32>)
    ensures
        r is None <==> forall|i: int| 0 <= i < devices@.len() ==> #[trigger] devices@[i]@.serial
            != serial@,
        r matches Some(x) ==> exists|i: int|
            0 <= i < devices@.len() && #[trigger] devices@[i]@.serial == serial@ && devices@[i]@.index
                == x && forall|j: int| i < j < devices@.len() ==> devices@[j]@.serial != serial@,
{
    let mut found: Option<u32> = None;
    let mut i: usize = 0;
    let ghost mut at: int = -1;
    while i < devices.len()
        invariant
            i <= devices@.len(),
            found is None <==> forall|j: int| 0 <= j < i ==> #[trigger] devices@[j]@.serial
                != serial@,
            found matches Some(x) ==> 0 <= at < i && devices@[at]@.serial == serial@
                && devices@[at]@.index == x && forall|j: int| at < j < i ==> devices@[j]@.serial
                != serial@,
        decreases devices@.len() - i,
    {
        if devices[i].has_serial(serial) {
            found = Some(devices[i].index());
            proof {
                at = i as int;
            }
        }
        i = i + 1;
    }
    proof {
        if found is Some {
            assert(devices@[at]@.serial == serial@);
        }
    }
    found
}

/// Distance between a requested and an offered gain.
pub open spec fn gain_distance(target: i32, g: i32) -> int {
    let d = target as int - g as int;
    if d < 0 {
        -d
    } else {
        d
    }
}

/// Entries a gain may be taken from: the first, and every non-zero one.
pub open spec fn gain_candidate(gains: Seq<i32>, k: int) -> bool {
    k == 0 || gains[k] != 0
}

/// `gains[k]` is the nearest candidate to `target`, and no earlier candidate
/// is as near.
pub open spec fn nearest_gain_at(gains: Seq<i32>, target: i32, k: int) -> bool {
    &&& 0 <= k < gains.len()
    &&& gain_candidate(gains, k)
    &&& forall|j: int|
        0 <= j < gains.len() && #[trigger] gain_candidate(gains, j) ==> gain_distance(
            target,
            gains[k],
        ) <= gain_distance(target, gains[j])
    &&& forall|j: int|
        0 <= j < k && #[trigger] gain_candidate(gains, j) ==> gain_distance(target, gains[k])
            < gain_distance(target, gains[j])
}

fn distance(target: i32, g: i32) -> (r: i64)
    ensures
        r == gain_distance(target, g),
{
    let d = target as i64 - g as i64;
    if d < 0 {
        -d
    } else {
        d
    }
}

/// The gain of the dongle's table nearest to `target`; zero entries past
/// the first are unused slots. On ties the earliest entry wins.
pub fn closest_gain(gains: &Vec<i32>, target: i32) -> (r: i32)
    requires
        gains@.len() >= 1,
    ensures
        exists|k: int| nearest_gain_at(gains@, target, k) && r == gains@[k],
{
    let mut best: usize = 0;
    let mut i: usize = 1;
    while i < gains.len()
        invariant
            1 <= i <= gains@.len(),
            best < i,
            gain_candidate(gains@, best as int),
            forall|j: int|
                0 <= j < i && #[trigger] gain_candidate(gains@, j) ==> gain_distance(
                    target,
                    gains@[best as int],
                ) <= gain_distance(target, gains@[j]),
            forall|j: int|
                0 <= j < best && #[trigger] gain_candidate(gains@, j) ==> gain_distance(
                    target,
                    gains@[best as int],
                ) < gain_distance(target, gains@[j]),
        decreases gains@.len() - i,
    {
        if gains[i] != 0 && distance(target, gains[i]) < distance(target, gains[best]) {
            best = i;
        }
        i = i + 1;
    }
    assert(nearest_gain_at(gains@, target, best as int));
    gains[best]
}

/// How the tuner gain is to be set.
#[derive(Clone, Copy, Debug, PartialEq, Eq, Structural)]
pub enum GainSetting {
    /// Automatic gain control.
    Agc,
    /// A fixed gain, in tenths of a dB.
    Manual(i32),
}

/// Requests above the sentinel select AGC; others are normalized to the
/// nearest gain the dongle offers.
pub fn select_gain(requested: i32, gains: &Vec<i32>) -> (r: GainSetting)
    requires
        gains@.len() >= 1,
    ensures
        requested > AGC_GAIN_SENTINEL ==> r == GainSetting::Agc,
        requested <= AGC_GAIN_SENTINEL ==> exists|k: int|
            nearest_gain_at(gains@, requested, k) && r == GainSetting::Manual(gains@[k]),
{
    if requested > AGC_GAIN_SENTINEL {
        GainSetting::Agc
    } else {
        GainSetting::Manual(closest_gain(gains, requested))
    }
}

pub open spec fn strictly_increasing(s: Seq<u32>) -> bool {
    forall|i: int, j: int| 0 <= i < j < s.len() ==> s[i] < s[j]
}

/// `s` ascending without repeats, holding exactly the values of `input`.
pub open spec fn sorted_set_of(s: Seq<u32>, input: Seq<u32>) -> bool {
    &&& strictly_increasing(s)
    &&& forall|x: u32| s.contains(x) <==> input.contains(x)
}

/// The channel frequencies sorted ascending, each kept once.
pub fn sort_frequencies(freqs: &Vec<u32>) -> (r: Vec<u32>)
    ensures
        sorted_set_of(r@, freqs@),
{
    let mut r: Vec<u32> = Vec::new();
    let mut i: usize = 0;
    while i < freqs.len()
        invariant
            i <= freqs@.len(),
            strictly_increasing(r@),
            forall|x: u32| r@.contains(x) <==> freqs@.subrange(0, i as int).contains(x),
        decreases freqs@.len() - i,
    {
        let x = freqs[i];
        let mut p: usize = 0;
        while p < r.len() && r[p] < x
            invariant
                p <= r@.len(),
                forall|j: int| 0 <= j < p ==> r@[j] < x,
            decreases r@.len() - p,
        {
            p = p + 1;
        }
        let ghost old_r = r@;
        if p < r.len() && r[p] == x {
        } else {
            r.insert(p, x);
            assert forall|a: int, b: int| 0 <= a < b < r@.len() implies r@[a] < r@[b] by {
                if b < p {
                } else if b == p {
                } else if a < p {
                    assert(r@[b] == old_r[b - 1]);
                    if p < old_r.len() {
                        assert(x < old_r[p as int]);
                    }
                } else if a == p {
                    assert(r@[b] == old_r[b - 1]);
                    assert(x < old_r[p as int]);
                    assert(old_r[p as int] <= old_r[b - 1]);
                } else {
                    assert(r@[a] == old_r[a - 1]);
                }
            }
        }
        proof {
            let pre = freqs@.subrange(0, i as int);
            let post = freqs@.subrange(0, i as int + 1);
            assert(post =~= pre.push(x));
            assert forall|y: u32| r@.contains(y) <==> post.contains(y) by {
                if post.contains(y) {
                    let k = choose|k: int| 0 <= k < post.len() && post[k] == y;
                    if k < pre.len() {
                        assert(pre[k] == y);
                        assert(old_r.contains(y));
                        let m = choose|m: int| 0 <= m < old_r.len() && old_r[m] == y;
                        if !(p < old_r.len() && old_r[p as int] == x) {
                            if m < p {
                                assert(r@[m] == y);
                            } else {
                                assert(r@[m + 1] == y);
                            }
                        }
                    } else {
                        if p < old_r.len() && old_r[p as int] == x {
                            assert(r@[p as int] == y);
                        } else {
                            assert(r@[p as int] == y);
                        }
                    }
                }
                if r@.contains(y) {
                    let m = choose|m: int| 0 <= m < r@.len() && r@[m] == y;
                    if p < old_r.len() && old_r[p as int] == x {
                        assert(old_r.contains(y));
                        assert(pre.contains(y));
                        let k = choose|k: int| 0 <= k < pre.len() && pre[k] == y;
                        assert(post[k] == y);
                    } else if m == p {
                        assert(post[i as int] == y);
                    } else {
                        if m < p {
                            assert(old_r[m] == y);
                        } else {
                            assert(old_r[m - 1] == y);
                        }
                        assert(old_r.contains(y));
                        assert(pre.contains(y));
                        let k = choose|k: int| 0 <= k < pre.len() && pre[k] == y;
                        assert(post[k] == y);
                    }
                }
            }
        }
        i = i + 1;
    }
    assert(freqs@.subrange(0, freqs@.len() as int) == freqs@);
    r
}

/// Lowest frequency of the air band, in Hz.
pub const AIRBAND_LOW_HZ: u32 = 108000000;
/// Highest frequency of the air band, in Hz.
pub const AIRBAND_HIGH_HZ: u32 = 137000000;

pub open spec fn in_airband(f: u32) -> bool {
    AIRBAND_LOW_HZ <= f <= AIRBAND_HIGH_HZ
}

/// The settings of one dongle.
pub struct DeviceConfig {
    pub serial: String,
    pub ppm: i32,
    /// Requested gain in tenths of a dB; above the sentinel, AGC.
    pub gain: i32,
    pub bias_tee: bool,
    /// Oversampling multiplier M: the dongle samples at M times the channel rate.
    pub rtl_mult: u32,
    /// Channel frequencies in Hz, ascending, without repeats.
    pub frequencies: Vec<u32>,
    pub decoder_type: ValidDecoderType,
}

/// A channel's frequency: `f` rounded to the nearest multiple of the
/// channel rate `rate`.
pub open spec fn quantized(f: u32, rate: u32) -> int {
    ((f as int + rate as int / 2) / rate as int) * rate as int
}

/// The frequency the dongle is tuned to for ascending channels `freqs`:
/// with one channel, that channel's own frequency; with more, the middle of
/// the lowest and highest, rounded to a whole MHz.
pub open spec fn center_of(freqs: Seq<u32>) -> int {
    if freqs.len() > 1 {
        ((freqs.last() as int + freqs[0] as int + 1000000) / 2000000) * 1000000
    } else {
        quantized(freqs[0], INTRATE)
    }
}

/// Tuning of a dongle and its channels.
pub struct ChannelPlan {
    /// Center frequency, Hz.
    pub center_freq: u64,
    /// Each channel's quantized frequency, Hz, in the order of the settings.
    pub channel_freqs: Vec<u64>,
    /// Dongle sample rate, samples per second.
    pub sample_rate: u64,
}

/// The channel rate of `f`, rounded to the nearest multiple of INTRATE.
pub fn channel_frequency(f: u32) -> (r: u64)
    ensures
        r == quantized(f, INTRATE),
{
    let s: u64 = f as u64 + (INTRATE / 2) as u64;
    let q: u64 = s / (INTRATE as u64);
    assert(q <= s);
    q * (INTRATE as u64)
}

impl DeviceConfig {
    /// The frequencies are ascending without repeats.
    pub open spec fn wf(&self) -> bool {
        strictly_increasing(self.frequencies@)
    }

    /// Settings for one dongle; the frequencies are sorted ascending and
    /// each kept once.
    pub fn new(
        serial: String,
        ppm: i32,
        gain: i32,
        bias_tee: bool,
        rtl_mult: u32,
        frequencies: Vec<u32>,
        decoder: ValidDecoderType,
    ) -> (r: Self)
        ensures
            r.wf(),
            sorted_set_of(r.frequencies@, frequencies@),
            (forall|i: int| 0 <= i < frequencies@.len() ==> in_airband(#[trigger] frequencies@[i]))
                ==> (forall|j: int| 0 <= j < r.frequencies@.len() ==> in_airband(
                #[trigger] r.frequencies@[j],
            )),
            r.serial@ == serial@,
            r.ppm == ppm,
            r.gain == gain,
            r.bias_tee == bias_tee,
            r.rtl_mult == rtl_mult,
            r.decoder_type == decoder,
    {
        let sorted = sort_frequencies(&frequencies);
        proof {
            if forall|i: int| 0 <= i < frequencies@.len() ==> in_airband(#[trigger] frequencies@[i]) {
                assert forall|j: int| 0 <= j < sorted@.len() implies in_airband(
                    #[trigger] sorted@[j],
                ) by {
                    assert(sorted@.contains(sorted@[j]));
                    assert(frequencies@.contains(sorted@[j]));
                }
            }
        }
        DeviceConfig {
            serial,
            ppm,
            gain,
            bias_tee,
            rtl_mult,
            frequencies: sorted,
            decoder_type: decoder,
        }
    }

    pub fn get_serial(&self) -> (r: &str)
        ensures
            r@ == self.serial@,
    {
        self.serial.as_str()
    }

    /// The dongle's sample rate: the decoder's channel rate times M.
    pub fn sample_rate(&self) -> (r: u64)
        ensures
            r == self.decoder_type.intrate() as u64 * self.rtl_mult as u64,
    {
        let rate = self.decoder_type.get_intrate() as u64;
        assert(rate * (self.rtl_mult as u64) <= 12500 * 0xffff_ffffu64) by (nonlinear_arith)
            requires
                rate <= 12500,
        ;
        rate * self.rtl_mult as u64
    }

    /// Checks the frequencies and derives the tuning: every channel's
    /// quantized frequency and the center frequency.
    pub fn init_channels(&self) -> (r: Result<ChannelPlan, RTLSDRError>)
        requires
            self.wf(),
            self.frequencies@.len() <= MAX_CHANNELS,
            self.decoder_type == ValidDecoderType::ACARS,
        ensures
            r matches Ok(plan) ==> 1 <= plan.channel_freqs@.len() <= MAX_CHANNELS,
            self.frequencies@.len() == 0 ==> match r {
                Err(RTLSDRError::NoFrequencyProvided { sdr }) => sdr@ == self.serial@,
                _ => false,
            },
            self.frequencies@.len() > 1 && self.frequencies@.last() - self.frequencies@[0]
                > MAX_SPREAD_HZ ==> match r {
                Err(RTLSDRError::FrequencySpreadTooLarge { sdr }) => sdr@ == self.serial@,
                _ => false,
            },
            self.frequencies@.len() == 1 || (self.frequencies@.len() > 1
                && self.frequencies@.last() - self.frequencies@[0] <= MAX_SPREAD_HZ) ==> match r {
                Ok(plan) => {
                    &&& plan.channel_freqs@.len() == self.frequencies@.len()
                    &&& forall|i: int|
                        0 <= i < self.frequencies@.len() ==> #[trigger] plan.channel_freqs@[i]
                            == quantized(self.frequencies@[i], INTRATE)
                    &&& plan.center_freq == center_of(self.frequencies@)
                    &&& self.frequencies@.len() == 1 ==> plan.center_freq
                        == plan.channel_freqs@[0]
                    &&& plan.sample_rate == INTRATE as u64 * self.rtl_mult as u64
                },
                Err(_) => false,
            },
    {
        let n = self.frequencies.len();
        if n == 0 {
            return Err(RTLSDRError::NoFrequencyProvided { sdr: self.serial.clone() });
        }
        let low = self.frequencies[0];
        let high = self.frequencies[n - 1];
        if n > 1 && high as u64 - low as u64 > MAX_SPREAD_HZ {
            return Err(RTLSDRError::FrequencySpreadTooLarge { sdr: self.serial.clone() });
        }
        let mut channel_freqs: Vec<u64> = Vec::new();
        let mut i: usize = 0;
        while i < n
            invariant
                i <= n,
                n == self.frequencies@.len(),
                channel_freqs@.len() == i,
                forall|j: int|
                    0 <= j < i ==> #[trigger] channel_freqs@[j] == quantized(
                        self.frequencies@[j],
                        INTRATE,
                    ),
            decreases n - i,
        {
            channel_freqs.push(channel_frequency(self.frequencies[i]));
            i = i + 1;
        }
        let center_freq = if n > 1 {
            ((high as u64 + low as u64 + 1000000) / 2000000) * 1000000
        } else {
            channel_freqs[0]
        };
        Ok(ChannelPlan { center_freq, channel_freqs, sample_rate: self.sample_rate() })
    }
}

} // verus!
