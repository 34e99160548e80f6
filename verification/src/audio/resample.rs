use dasp::interpolate::linear::Linear;
use dasp::Signal;
use vstd::prelude::*;

verus! {

/// What `dasp`'s rate converter, fed through its linear interpolator, yields
/// as the first `count` samples of one channel.
pub uninterp spec fn resampled(samples: Seq<i32>, source_hz: u32, target_hz: u32, count: nat) -> Seq<i32>;

/// Converts one channel from `source_hz` to `target_hz` with `dasp`:
/// `signal::from_iter` over the samples, `Linear::new` on the first two of
/// them, `Signal::from_hz_to_hz`, and `Signal::take` for the first `count`
/// frames of the result.
///
/// Trusted: that the result is a function of the four arguments, and that
/// `take(count)` on a signal, which never ends, yields exactly `count` frames.
/// The converter refuses a ratio that is not positive, hence the two rates
/// above zero.
#[verifier::external_body]
fn convert_channel(samples: &Vec<i32>, source_hz: u32, target_hz: u32, count: usize) -> (out: Vec<i32>)
    requires
        source_hz > 0,
        target_hz > 0,
    ensures
        out@ == resampled(samples@, source_hz, target_hz, count as nat),
        out@.len() == count,
{
    let mut source = dasp::signal::from_iter(samples.iter().map(|s| [*s]));
    let left = source.next();
    let right = source.next();
    let linear = Linear::new(left, right);
    source
        .from_hz_to_hz(linear, source_hz.into(), target_hz.into())
        .take(count)
        .map(|frame| frame[0])
        .collect()
}

/// The number of frames a clip of `len` frames has after conversion:
/// `len * target_hz / source_hz`, rounded up.
pub open spec fn resampled_len(len: nat, source_hz: u32, target_hz: u32) -> nat
    recommends
        source_hz > 0,
{
    ((len * target_hz + source_hz - 1) / (source_hz as int)) as nat
}

/// A channel followed by two more copies of its last sample, so that the
/// interpolator, which looks one sample ahead, finds the last sample again
/// where the channel has ended.
pub open spec fn held(samples: Seq<i32>) -> Seq<i32>
    recommends
        samples.len() > 0,
{
    samples.push(samples.last()).push(samples.last())
}

/// A channel after conversion from `source_hz` to `target_hz`.
pub open spec fn converted(samples: Seq<i32>, source_hz: u32, target_hz: u32) -> Seq<i32> {
    let count = resampled_len(samples.len(), source_hz, target_hz);
    if count == 0 {
        Seq::empty()
    } else {
        resampled(held(samples), source_hz, target_hz, count)
    }
}

/// Computes `resampled_len`.
fn converted_len(len: usize, source_hz: u32, target_hz: u32) -> (count: u128)
    requires
        source_hz > 0,
    ensures
        count == resampled_len(len as nat, source_hz, target_hz),
{
    assert((len as u128) * (target_hz as u128) <= 0xffff_ffff_ffff_ffff * 0xffff_ffff) by (nonlinear_arith)
        requires
            0 <= (len as u128) <= 0xffff_ffff_ffff_ffff,
            0 <= (target_hz as u128) <= 0xffff_ffff,
    ;
    let product: u128 = (len as u128) * (target_hz as u128);
    (product + (source_hz as u128 - 1)) / (source_hz as u128)
}

/// Converts one channel from `source_hz` to `target_hz` by linear
/// interpolation between consecutive samples, holding the last sample at the
/// end.
pub fn convert_samples(samples: &Vec<i32>, source_hz: u32, target_hz: u32) -> (out: Vec<i32>)
    requires
        source_hz > 0,
        resampled_len(samples@.len(), source_hz, target_hz) <= usize::MAX,
    ensures
        out@ == converted(samples@, source_hz, target_hz),
        out@.len() == resampled_len(samples@.len(), source_hz, target_hz),
{
    let count = converted_len(samples.len(), source_hz, target_hz);
    if count == 0 {
        return Vec::new();
    }
    assert(samples@.len() > 0 && target_hz > 0) by (nonlinear_arith)
        requires
            resampled_len(samples@.len(), source_hz, target_hz) > 0,
            source_hz > 0,
    ;
    let last = samples[samples.len() - 1];
    let mut extended: Vec<i32> = Vec::new();
    let mut i: usize = 0;
    while i < samples.len()
        invariant
            i <= samples@.len(),
            extended@ == samples@.take(i as int),
        decreases samples@.len() - i,
    {
        extended.push(samples[i]);
        assert(samples@.take(i as int).push(samples@[i as int]) =~= samples@.take(i + 1));
        i += 1;
    }
    assert(samples@.take(samples@.len() as int) =~= samples@);
    extended.push(last);
    extended.push(last);
    convert_channel(&extended, source_hz, target_hz, count as usize)
}

} // verus!
