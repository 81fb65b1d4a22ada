//! Buffer sizes: the periods, in frames, that a device can be opened with.
use vstd::prelude::*;

verus! {

/// The period where nothing better is known.
pub const FALLBACK_PERIOD_FRAMES: usize = 1024;

/// The period that is asked for where the driver takes the nearest it has.
pub const LARGEST_PERIOD_FRAMES: usize = 65536;

/// The largest fragment of an OSS device.
pub const MAX_OSS_FRAGMENT_BYTES: usize = 65536;

/// The periods of a device that advertises no buffer size.
pub const DEFAULT_PERIOD_LADDER: [usize; 13] = [
    16,
    32,
    64,
    128,
    256,
    512,
    1024,
    2048,
    4096,
    8192,
    16384,
    32768,
    65536,
];

/// The first of `p`, `2 * p`, `4 * p` and so on that is at least `n`.
pub open spec fn doubled_to(p: nat, n: nat) -> nat
    decreases (if p < n { n - p } else { 0 }),
{
    if p == 0 || p >= n {
        p
    } else {
        doubled_to(2 * p, n)
    }
}

/// The smallest power of two that is at least `n`.
pub open spec fn next_power(n: nat) -> nat {
    doubled_to(1, n)
}

/// The bytes of one sample.
pub open spec fn sample_bytes(bits: usize) -> Option<nat> {
    if bits == 8 {
        Some(1nat)
    } else if bits == 16 {
        Some(2nat)
    } else if bits == 24 {
        Some(3nat)
    } else if bits == 32 {
        Some(4nat)
    } else {
        None
    }
}

/// The periods for the fragment sizes `bytes`, `2 * bytes` and so on, up to
/// `max` bytes.
pub open spec fn ladder(bytes: nat, max: nat, frame: nat) -> Seq<usize>
    decreases (if bytes <= max { max + 1 - bytes } else { 0 }),
{
    if bytes == 0 || bytes > max {
        Seq::empty()
    } else {
        seq![(bytes / frame) as usize] + ladder(2 * bytes, max, frame)
    }
}

/// The smaller of the device's buffer and the largest fragment, but no less
/// than the smallest fragment.
pub open spec fn max_fragment(max_buffer_bytes: usize, min_bytes: nat) -> nat {
    let capped: nat = if max_buffer_bytes < MAX_OSS_FRAGMENT_BYTES {
        max_buffer_bytes as nat
    } else {
        MAX_OSS_FRAGMENT_BYTES as nat
    };
    if capped < min_bytes {
        min_bytes
    } else {
        capped
    }
}

/// The periods of an OSS device: fragments grow in powers of two from one
/// frame up to the device's buffer, at most 64 KiB. `None` where the buffer,
/// the channels or the sample size are not known, or a fragment of one frame
/// is too large to be doubled.
pub open spec fn oss_ladder(max_buffer_bytes: usize, channels: usize, bits: usize) -> Option<
    Seq<usize>,
> {
    match sample_bytes(bits) {
        Some(sample) => {
            let frame = channels as nat * sample;
            let smallest = next_power(frame);
            if max_buffer_bytes == 0 || channels == 0 || frame > usize::MAX || 2 * smallest
                > usize::MAX {
                None
            } else {
                Some(ladder(smallest, max_fragment(max_buffer_bytes, smallest), frame))
            }
        },
        None => None,
    }
}

/// The smallest fragment of an OSS device can be told: no frame size between
/// the largest power of two of a machine word and the largest word.
pub open spec fn fragment_exists(max_buffer_bytes: usize, channels: usize, bits: usize) -> bool {
    match sample_bytes(bits) {
        Some(sample) => max_buffer_bytes > 0 && channels > 0 && channels as nat * sample
            <= usize::MAX ==> next_power(channels as nat * sample) <= usize::MAX,
        None => true,
    }
}

proof fn lemma_doubled_to(p: nat, n: nat)
    requires
        p > 0,
    ensures
        doubled_to(p, n) >= n,
        doubled_to(p, n) >= p,
    decreases (if p < n { n - p } else { 0 }),
{
    if p < n {
        lemma_doubled_to(2 * p, n);
    }
}

proof fn lemma_doubled_below(p: nat, n: nat)
    requires
        p > 0,
    ensures
        doubled_to(p, n) == p || doubled_to(p, n) < 2 * n,
    decreases (if p < n { n - p } else { 0 }),
{
    if p < n {
        lemma_doubled_below(2 * p, n);
    }
}

/// The smallest fragment can be told of every device with no more channels
/// than an eighth of the largest word.
pub proof fn law_few_channels_have_fragments(
    max_buffer_bytes: usize,
    channels: usize,
    bits: usize,
)
    requires
        channels <= usize::MAX / 8,
    ensures
        fragment_exists(max_buffer_bytes, channels, bits),
{
    if let Some(sample) = sample_bytes(bits) {
        let frame = channels as nat * sample;
        assert(frame <= 4 * (channels as nat)) by (nonlinear_arith)
            requires
                frame == channels as nat * sample,
                sample <= 4,
        ;
        lemma_doubled_below(1, frame);
    }
}

/// The smallest power of two that is at least `n`.
fn next_power_of_two(n: usize) -> (r: usize)
    requires
        next_power(n as nat) <= usize::MAX,
    ensures
        r == next_power(n as nat),
        r >= n,
        r >= 1,
{
    let mut p: usize = 1;
    while p < n
        invariant
            1 <= p,
            next_power(n as nat) == doubled_to(p as nat, n as nat),
            next_power(n as nat) <= usize::MAX,
        decreases (if p < n { n - p } else { 0 }),
    {
        proof {
            lemma_doubled_to(2 * p as nat, n as nat);
        }
        p = p * 2;
    }
    p
}

/// The periods of an OSS device with the given buffer, channels and sample
/// size.
pub fn oss_period_options(max_buffer_bytes: usize, channels: usize, bits: usize) -> (r: Option<
    Vec<usize>,
>)
    requires
        fragment_exists(max_buffer_bytes, channels, bits),
    ensures
        match r {
            Some(options) => oss_ladder(max_buffer_bytes, channels, bits) == Some(options@)
                && options@.len() > 0,
            None => oss_ladder(max_buffer_bytes, channels, bits) is None,
        },
{
    if max_buffer_bytes == 0 || channels == 0 {
        return None;
    }
    let sample: usize = match bits {
        8 => 1,
        16 => 2,
        24 => 3,
        32 => 4,
        _ => {
            return None;
        },
    };
    let ghost product: nat = channels as nat * sample as nat;
    assert(product >= channels) by (nonlinear_arith)
        requires
            product == channels as nat * sample as nat,
            sample >= 1,
    ;
    let frame: usize = match channels.checked_mul(sample) {
        Some(frame) => frame,
        None => {
            return None;
        },
    };
    let smallest = next_power_of_two(frame);
    let capped: usize = if max_buffer_bytes < MAX_OSS_FRAGMENT_BYTES {
        max_buffer_bytes
    } else {
        MAX_OSS_FRAGMENT_BYTES
    };
    let max_bytes: usize = if capped < smallest {
        smallest
    } else {
        capped
    };
    let ghost all = ladder(smallest as nat, max_bytes as nat, frame as nat);
    let mut options: Vec<usize> = Vec::new();
    let mut bytes: usize = smallest;
    assert(options@ + all =~= all);
    while bytes <= max_bytes
        invariant
            1 <= frame <= bytes,
            1 <= smallest <= bytes,
            all == ladder(smallest as nat, max_bytes as nat, frame as nat),
            options@ + ladder(bytes as nat, max_bytes as nat, frame as nat) == all,
            bytes > smallest ==> options@.len() > 0 && bytes >= 2 * smallest,
            smallest <= max_bytes,
            max_bytes == max_fragment(max_buffer_bytes, smallest as nat),
            smallest == next_power(frame as nat),
            Some(frame as nat) == (match sample_bytes(bits) {
                Some(s) => Some((channels as nat * s) as nat),
                None => None,
            }),
            max_buffer_bytes > 0,
            channels > 0,
        decreases (if bytes <= max_bytes { max_bytes + 1 - bytes } else { 0 }),
    {
        let ghost before = options@;
        let ghost rest = ladder(2 * bytes as nat, max_bytes as nat, frame as nat);
        options.push(bytes / frame);
        assert(options@ + rest =~= before + (seq![(bytes as nat / frame as nat) as usize] + rest));
        bytes = match bytes.checked_mul(2) {
            Some(doubled) => doubled,
            None => {
                assert(bytes == smallest) by {
                    if bytes > smallest {
                        assert(bytes <= MAX_OSS_FRAGMENT_BYTES);
                    }
                }
                return None;
            },
        };
    }
    assert(options@ + ladder(bytes as nat, max_bytes as nat, frame as nat) =~= options@);
    assert(options@.len() > 0);
    Some(options)
}

/// The periods that a device can be opened with.
pub open spec fn device_ladder(max_buffer_bytes: usize, channels: usize, bits: usize) -> Seq<
    usize,
> {
    match oss_ladder(max_buffer_bytes, channels, bits) {
        Some(options) => options,
        None => DEFAULT_PERIOD_LADDER@,
    }
}

/// The periods of a device: those of its OSS buffer where it advertises one,
/// otherwise the default ones.
pub fn period_options(max_buffer_bytes: usize, channels: usize, bits: usize) -> (r: Vec<usize>)
    requires
        fragment_exists(max_buffer_bytes, channels, bits),
    ensures
        r@ == device_ladder(max_buffer_bytes, channels, bits),
        r@.len() > 0,
{
    match oss_period_options(max_buffer_bytes, channels, bits) {
        Some(options) => options,
        None => {
            let ladder: [usize; 13] = DEFAULT_PERIOD_LADDER;
            let mut r: Vec<usize> = Vec::new();
            let mut i: usize = 0;
            while i < 13
                invariant
                    i <= 13,
                    ladder@.len() == 13,
                    r@ == ladder@.take(i as int),
                decreases 13 - i,
            {
                r.push(ladder[i]);
                i = i + 1;
            }
            assert(r@ =~= ladder@);
            r
        },
    }
}

/// The largest period of an OSS device.
pub fn max_oss_period_frames(max_buffer_bytes: usize, channels: usize, bits: usize) -> (r: Option<
    usize,
>)
    requires
        fragment_exists(max_buffer_bytes, channels, bits),
    ensures
        r == (match oss_ladder(max_buffer_bytes, channels, bits) {
            Some(options) => Some(options.last()),
            None => None,
        }),
{
    match oss_period_options(max_buffer_bytes, channels, bits) {
        Some(options) => Some(options[options.len() - 1]),
        None => None,
    }
}

/// The last of the periods that is at most `limit`.
pub open spec fn last_within(options: Seq<usize>, limit: usize) -> Option<usize>
    decreases options.len(),
{
    if options.len() == 0 {
        None
    } else if options.last() <= limit {
        Some(options.last())
    } else {
        last_within(options.drop_last(), limit)
    }
}

/// The period that an OSS device is opened with where none is chosen: the
/// largest one up to the fallback, since larger ones may play too slowly.
pub fn small_oss_period_frames(max_buffer_bytes: usize, channels: usize, bits: usize) -> (r: Option<
    usize,
>)
    requires
        fragment_exists(max_buffer_bytes, channels, bits),
    ensures
        r == (match oss_ladder(max_buffer_bytes, channels, bits) {
            Some(options) => last_within(options, FALLBACK_PERIOD_FRAMES),
            None => None,
        }),
{
    match oss_period_options(max_buffer_bytes, channels, bits) {
        Some(options) => {
            let mut n: usize = options.len();
            assert(options@.take(n as int) =~= options@);
            while n > 0
                invariant
                    n <= options@.len(),
                    last_within(options@, FALLBACK_PERIOD_FRAMES) == last_within(
                        options@.take(n as int),
                        FALLBACK_PERIOD_FRAMES,
                    ),
                    oss_ladder(max_buffer_bytes, channels, bits) == Some(options@),
                decreases n,
            {
                if options[n - 1] <= FALLBACK_PERIOD_FRAMES {
                    return Some(options[n - 1]);
                }
                assert(options@.take(n as int).drop_last() =~= options@.take(n - 1));
                n = n - 1;
            }
            None
        },
        None => None,
    }
}

proof fn lemma_ladder_grows(bytes: nat, max: nat, frame: nat, i: int)
    requires
        0 < frame <= bytes,
        max <= usize::MAX,
        0 <= i < ladder(bytes, max, frame).len(),
    ensures
        1 <= ladder(bytes, max, frame)[i],
        ladder(bytes, max, frame)[i] * frame <= max,
        i > 0 ==> ladder(bytes, max, frame)[i - 1] < ladder(bytes, max, frame)[i],
        i > 0 ==> ladder(bytes, max, frame)[i - 1] * frame <= max / 2,
    decreases (if bytes <= max { max + 1 - bytes } else { 0 }),
{
    let all = ladder(bytes, max, frame);
    let here = bytes / frame;
    vstd::arithmetic::div_mod::lemma_fundamental_div_mod(bytes as int, frame as int);
    vstd::arithmetic::mul::lemma_mul_is_commutative(here as int, frame as int);
    assert(here * frame <= bytes);
    assert(here >= 1) by (nonlinear_arith)
        requires
            bytes == frame * here + bytes % frame,
            bytes % frame < frame,
            0 < frame <= bytes,
    ;
    assert(here <= bytes) by (nonlinear_arith)
        requires
            here * frame <= bytes,
            frame >= 1,
    ;
    assert(all[0] == here);
    if i > 0 {
        let rest = ladder(2 * bytes, max, frame);
        lemma_ladder_grows(2 * bytes, max, frame, i - 1);
        assert(all[i] == rest[i - 1]);
        if i == 1 {
            let next = (2 * bytes) / frame;
            assert(rest[0] == next) by {
                assert(next <= 2 * bytes) by (nonlinear_arith)
                    requires
                        next == (2 * bytes) / frame,
                        frame >= 1,
                ;
            }
            assert(next >= 2 * here) by (nonlinear_arith)
                requires
                    next == (2 * bytes) / frame,
                    here * frame <= bytes,
                    frame >= 1,
            ;
        } else {
            assert(all[i - 1] == rest[i - 2]);
        }
    }
}

/// The periods of a device grow from at least one frame, and a period fits
/// the device's buffer, the largest fragment or one smallest fragment.
pub proof fn law_oss_periods_grow(max_buffer_bytes: usize, channels: usize, bits: usize, i: int)
    requires
        oss_ladder(max_buffer_bytes, channels, bits) is Some,
        0 <= i < oss_ladder(max_buffer_bytes, channels, bits)->0.len(),
    ensures
        ({
            let options = oss_ladder(max_buffer_bytes, channels, bits)->0;
            let frame = channels as nat * sample_bytes(bits)->0;
            &&& 1 <= options[i]
            &&& options[i] * frame <= max_fragment(max_buffer_bytes, next_power(frame))
            &&& i > 0 ==> options[i - 1] < options[i]
        }),
{
    let sample = sample_bytes(bits)->0;
    let frame = channels as nat * sample;
    assert(frame >= 1) by (nonlinear_arith)
        requires
            frame == channels as nat * sample,
            channels >= 1,
            sample >= 1,
    ;
    lemma_doubled_to(1, frame);
    lemma_ladder_grows(
        next_power(frame),
        max_fragment(max_buffer_bytes, next_power(frame)),
        frame,
        i,
    );
}

proof fn lemma_last_within(options: Seq<usize>, limit: usize, i: int)
    requires
        0 <= i < options.len(),
        options[i] <= limit,
        forall|a: int, b: int| 0 <= a < b < options.len() ==> options[a] < options[b],
    ensures
        last_within(options, limit) matches Some(period) && options[i] <= period <= limit
            && options.contains(period),
    decreases options.len(),
{
    if options.last() > limit {
        let front = options.drop_last();
        assert(front[i] == options[i]);
        lemma_last_within(front, limit, i);
        let period = last_within(front, limit)->0;
        let k = choose|k: int| 0 <= k < front.len() && front[k] == period;
        assert(options[k] == period);
    } else {
        assert(options[options.len() - 1] == options.last());
    }
}

proof fn lemma_periods_apart(options: Seq<usize>, a: int, b: int)
    requires
        0 <= a < b < options.len(),
        forall|i: int| 0 < i < options.len() ==> options[i - 1] < #[trigger] options[i],
    ensures
        options[a] < options[b],
    decreases b - a,
{
    assert(options[b - 1] < options[b]);
    if a < b - 1 {
        lemma_periods_apart(options, a, b - 1);
    }
}

/// The period of an OSS device that none is chosen for is one of its
/// periods, is small, and is the largest of the small ones.
pub proof fn law_small_period_is_offered(max_buffer_bytes: usize, channels: usize, bits: usize)
    requires
        oss_ladder(max_buffer_bytes, channels, bits) is Some,
    ensures
        ({
            let options = oss_ladder(max_buffer_bytes, channels, bits)->0;
            &&& last_within(options, FALLBACK_PERIOD_FRAMES) matches Some(period)
            &&& 1 <= period <= FALLBACK_PERIOD_FRAMES
            &&& options.contains(period)
            &&& forall|i: int|
                0 <= i < options.len() && #[trigger] options[i] <= FALLBACK_PERIOD_FRAMES
                    ==> options[i] <= period
        }),
{
    let options = oss_ladder(max_buffer_bytes, channels, bits)->0;
    let frame = channels as nat * sample_bytes(bits)->0;
    assert(frame >= 1) by (nonlinear_arith)
        requires
            frame == channels as nat * sample_bytes(bits)->0,
            channels >= 1,
            sample_bytes(bits)->0 >= 1,
    ;
    let smallest = next_power(frame);
    lemma_doubled_to(1, frame);
    lemma_doubled_below(1, frame);
    assert(smallest / frame == 1) by (nonlinear_arith)
        requires
            1 <= frame <= smallest,
            smallest < 2 * frame,
    ;
    assert(options[0] == 1);
    assert forall|i: int| 0 <= i < options.len() implies 1 <= #[trigger] options[i] && (i > 0
        ==> options[i - 1] < options[i]) by {
        law_oss_periods_grow(max_buffer_bytes, channels, bits, i);
    }
    assert forall|a: int, b: int| 0 <= a < b < options.len() implies options[a] < options[b] by {
        lemma_periods_apart(options, a, b);
    }
    lemma_last_within(options, FALLBACK_PERIOD_FRAMES, 0);
    assert forall|i: int|
        0 <= i < options.len() && #[trigger] options[i] <= FALLBACK_PERIOD_FRAMES implies options[i]
        <= last_within(options, FALLBACK_PERIOD_FRAMES)->0 by {
        lemma_last_within(options, FALLBACK_PERIOD_FRAMES, i);
    }
}

} // verus!
