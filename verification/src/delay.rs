//! A fixed-capacity delay line over sample words.

use vstd::arithmetic::power2::{lemma_pow2_strictly_increases, pow2};
use vstd::prelude::*;
use crate::sample::{
    binary_exponent_of, exponent_field, fraction_field, is_nan, is_negative, magnitude, nan_bits,
    power_of_two, significand_of, SIGN_BIT, SILENCE,
};

verus! {

/// What a delay line is, mathematically: a ring of stored samples, the place
/// of the next write, and the delay in samples.
pub struct DelayState {
    pub buffer: Seq<u32>,
    pub write_pos: int,
    pub delay: int,
}

impl DelayState {
    /// The delay never exceeds the capacity, and the write position is a
    /// place of the ring (0 where the ring has no place at all).
    pub open spec fn wf(self) -> bool {
        &&& 0 <= self.delay <= self.buffer.len()
        &&& 0 <= self.write_pos
        &&& self.buffer.len() == 0 ==> self.write_pos == 0
        &&& self.buffer.len() > 0 ==> self.write_pos < self.buffer.len()
    }

    /// A silent ring of the given capacity, with no delay set.
    pub open spec fn fresh(capacity: nat) -> DelayState {
        DelayState { buffer: Seq::new(capacity, |i: int| SILENCE), write_pos: 0, delay: 0 }
    }

    /// The same ring with the delay set to `samples`, or to the capacity
    /// where `samples` is larger.
    pub open spec fn with_delay(self, samples: int) -> DelayState {
        DelayState {
            delay: if samples <= self.buffer.len() {
                samples
            } else {
                self.buffer.len() as int
            },
            ..self
        }
    }

    /// The place that is read: `delay` places behind the write position.
    pub open spec fn read_pos(self) -> int {
        (self.write_pos + self.buffer.len() - self.delay) % (self.buffer.len() as int)
    }

    /// What comes out when `sample` goes in.
    pub open spec fn output(self, sample: u32) -> u32 {
        if self.delay == 0 {
            sample
        } else {
            self.buffer[self.read_pos()]
        }
    }

    /// The state after `sample` went in.  With no delay nothing is stored.
    pub open spec fn step(self, sample: u32) -> DelayState {
        if self.delay == 0 {
            self
        } else {
            DelayState {
                buffer: self.buffer.update(self.write_pos, sample),
                write_pos: (self.write_pos + 1) % (self.buffer.len() as int),
                delay: self.delay,
            }
        }
    }

    /// The state after a whole input went in, first sample first.
    pub open spec fn after(self, input: Seq<u32>) -> DelayState
        decreases input.len(),
    {
        if input.len() == 0 {
            self
        } else {
            self.after(input.drop_last()).step(input.last())
        }
    }

    /// What comes out at time `t` while `input` is fed in from this state.
    pub open spec fn output_at(self, input: Seq<u32>, t: int) -> u32
        recommends
            0 <= t < input.len(),
    {
        self.after(input.take(t)).output(input[t])
    }
}

/// Delay buffer for latency compensation.
pub struct DelayBuffer {
    buffer: Vec<u32>,
    write_pos: usize,
    delay_samples: usize,
}

impl View for DelayBuffer {
    type V = DelayState;

    closed spec fn view(&self) -> DelayState {
        DelayState {
            buffer: self.buffer@,
            write_pos: self.write_pos as int,
            delay: self.delay_samples as int,
        }
    }
}

impl DelayBuffer {
    /// A silent buffer that can delay by up to `max_delay_samples`; the delay
    /// starts at zero.
    pub fn new(max_delay_samples: usize) -> (r: Self)
        ensures
            r@ == DelayState::fresh(max_delay_samples as nat),
            r@.wf(),
    {
        let buffer: Vec<u32> = vec![SILENCE; max_delay_samples];
        assert(buffer@ =~= Seq::new(max_delay_samples as nat, |i: int| SILENCE));
        DelayBuffer { buffer, write_pos: 0, delay_samples: 0 }
    }

    /// Checks the invariant that every buffer made by `new` has and that
    /// every method keeps.
    pub fn is_well_formed(&self) -> (ok: bool)
        ensures
            ok == self@.wf(),
    {
        let len: usize = self.buffer.len();
        self.delay_samples <= len && (if len == 0 {
            self.write_pos == 0
        } else {
            self.write_pos < len
        })
    }

    /// The largest delay this buffer can hold.
    pub fn capacity(&self) -> (r: usize)
        ensures
            r == self@.buffer.len(),
    {
        self.buffer.len()
    }

    /// The delay in force.
    pub fn delay_samples(&self) -> (r: usize)
        ensures
            r == self@.delay,
    {
        self.delay_samples
    }

    /// Sets the delay, limited to the capacity.  What is stored stays.
    pub fn set_delay_samples(&mut self, samples: usize)
        requires
            old(self)@.wf(),
        ensures
            final(self)@ == old(self)@.with_delay(samples as int),
            final(self)@.wf(),
    {
        let len: usize = self.buffer.len();
        self.delay_samples = if samples <= len {
            samples
        } else {
            len
        };
    }

    /// Takes one sample in and hands out the one that went in `delay`
    /// samples before; with no delay the sample itself, at once.
    pub fn process(&mut self, sample: u32) -> (out: u32)
        requires
            old(self)@.wf(),
        ensures
            out == old(self)@.output(sample),
            final(self)@ == old(self)@.step(sample),
            final(self)@.wf(),
    {
        if self.delay_samples == 0 {
            return sample;
        }
        let len: usize = self.buffer.len();
        let read_pos: usize = if self.write_pos >= self.delay_samples {
            self.write_pos - self.delay_samples
        } else {
            self.write_pos + (len - self.delay_samples)
        };
        assert(read_pos as int == old(self)@.read_pos()) by {
            lemma_wrap_back(self.write_pos as int, self.delay_samples as int, len as int);
        }
        let output: u32 = self.buffer[read_pos];
        self.buffer.set(self.write_pos, sample);
        let next: usize = if self.write_pos + 1 == len {
            0
        } else {
            self.write_pos + 1
        };
        assert(next as int == (old(self).write_pos + 1) % (len as int)) by {
            lemma_wrap_next(old(self).write_pos as int, len as int);
        }
        self.write_pos = next;
        output
    }
}

/// Stepping `d` places back from `w` on a ring of `n` places.
proof fn lemma_wrap_back(w: int, d: int, n: int)
    requires
        0 <= w < n,
        0 < d <= n,
    ensures
        (w + n - d) % n == if w >= d {
            w - d
        } else {
            w + n - d
        },
{
    if w >= d {
        vstd::arithmetic::div_mod::lemma_mod_add_multiples_vanish(w - d, n);
        vstd::arithmetic::div_mod::lemma_small_mod((w - d) as nat, n as nat);
    } else {
        vstd::arithmetic::div_mod::lemma_small_mod((w + n - d) as nat, n as nat);
    }
}

/// Stepping one place on from `w` on a ring of `n` places.
proof fn lemma_wrap_next(w: int, n: int)
    requires
        0 <= w < n,
    ensures
        (w + 1) % n == if w + 1 == n {
            0
        } else {
            w + 1
        },
{
    if w + 1 == n {
        vstd::arithmetic::div_mod::lemma_mod_self_0(n);
    } else {
        vstd::arithmetic::div_mod::lemma_small_mod((w + 1) as nat, n as nat);
    }
}

/// Two times less than a ring's length apart fall on different places.
proof fn lemma_places_differ(i: int, k: int, n: int)
    requires
        0 <= i < k,
        k - i < n,
    ensures
        i % n != k % n,
{
    vstd::arithmetic::div_mod::lemma_fundamental_div_mod(i, n);
    vstd::arithmetic::div_mod::lemma_fundamental_div_mod(k, n);
    if i % n == k % n {
        let q = k / n - i / n;
        assert(k - i == n * q) by (nonlinear_arith)
            requires
                i == n * (i / n) + i % n,
                k == n * (k / n) + k % n,
                i % n == k % n,
                q == k / n - i / n,
        ;
        assert(false) by (nonlinear_arith)
            requires
                0 < k - i < n,
                k - i == n * q,
        ;
    }
}

/// What a ring that started silent holds after `input` went through it with
/// a fixed delay: the last `capacity` samples, each at its time modulo the
/// capacity, and silence where nothing was written yet.
proof fn lemma_history(capacity: nat, d: int, input: Seq<u32>)
    requires
        1 <= d <= capacity,
    ensures
        ({
            let s = DelayState::fresh(capacity).with_delay(d).after(input);
            let n = capacity as int;
            let k = input.len() as int;
            &&& s.wf()
            &&& s.delay == d
            &&& s.buffer.len() == capacity
            &&& s.write_pos == k % n
            &&& forall|i: int| 0 <= i < k && k - i <= n ==> s.buffer[i % n] == #[trigger] input[i]
            &&& forall|j: int| k <= j < n ==> #[trigger] s.buffer[j] == SILENCE
        }),
    decreases input.len(),
{
    let start = DelayState::fresh(capacity).with_delay(d);
    let n = capacity as int;
    let k = input.len() as int;
    if input.len() == 0 {
        vstd::arithmetic::div_mod::lemma_small_mod(0, capacity);
    } else {
        let before = input.drop_last();
        let p = start.after(before);
        let s = start.after(input);
        lemma_history(capacity, d, before);
        assert(s == p.step(input.last()));
        lemma_wrap_next(p.write_pos, n);
        vstd::arithmetic::div_mod::lemma_mod_bound(k - 1, n);
        vstd::arithmetic::div_mod::lemma_mod_bound(k, n);
        assert(s.write_pos == k % n) by {
            let w = (k - 1) % n;
            vstd::arithmetic::div_mod::lemma_fundamental_div_mod(k - 1, n);
            if w + 1 == n {
                assert(k == n * ((k - 1) / n + 1)) by (nonlinear_arith)
                    requires
                        k - 1 == n * ((k - 1) / n) + w,
                        w + 1 == n,
                ;
                vstd::arithmetic::div_mod::lemma_mod_multiples_basic((k - 1) / n + 1, n);
                assert((((k - 1) / n + 1) * n) == n * ((k - 1) / n + 1)) by (nonlinear_arith);
            } else {
                vstd::arithmetic::div_mod::lemma_fundamental_div_mod_converse(
                    k,
                    n,
                    (k - 1) / n,
                    w + 1,
                );
            }
        }
        assert forall|i: int| 0 <= i < k && k - i <= n implies s.buffer[i % n] == #[trigger] input[
            i
        ] by {
            vstd::arithmetic::div_mod::lemma_mod_bound(i, n);
            if i == k - 1 {
            } else {
                lemma_places_differ(i, k - 1, n);
                assert(before[i] == input[i]);
            }
        }
        assert forall|j: int| k <= j < n implies #[trigger] s.buffer[j] == SILENCE by {
            vstd::arithmetic::div_mod::lemma_small_mod((k - 1) as nat, capacity);
        }
    }
}

/// A delay line that starts silent hands out silence for the first `d`
/// samples and from then on each input sample `d` samples late, whatever
/// the input is.
pub proof fn delay_shifts_input(capacity: nat, d: int, input: Seq<u32>, t: int)
    requires
        1 <= d <= capacity,
        0 <= t < input.len(),
    ensures
        DelayState::fresh(capacity).with_delay(d).output_at(input, t) == if t < d {
            SILENCE
        } else {
            input[t - d]
        },
{
    let n = capacity as int;
    let seen = input.take(t);
    let s = DelayState::fresh(capacity).with_delay(d).after(seen);
    lemma_history(capacity, d, seen);
    vstd::arithmetic::div_mod::lemma_mod_bound(t, n);
    lemma_wrap_back(s.write_pos, d, n);
    if t >= d {
        let i = t - d;
        assert(seen[i] == input[i]);
        // the place read is the place of time t - d
        vstd::arithmetic::div_mod::lemma_fundamental_div_mod(t, n);
        vstd::arithmetic::div_mod::lemma_mod_bound(i, n);
        assert(s.read_pos() == i % n) by {
            let r = s.read_pos();
            let q = if t % n >= d {
                t / n
            } else {
                t / n - 1
            };
            assert(i == n * q + r) by (nonlinear_arith)
                requires
                    t == n * (t / n) + t % n,
                    i == t - d,
                    r == if t % n >= d {
                        t % n - d
                    } else {
                        t % n + n - d
                    },
                    q == if t % n >= d {
                        t / n
                    } else {
                        t / n - 1
                    },
            ;
            vstd::arithmetic::div_mod::lemma_fundamental_div_mod_converse(i, n, q, r);
        }
    } else {
        vstd::arithmetic::div_mod::lemma_small_mod(t as nat, capacity);
        assert(s.read_pos() == t + n - d);
    }
}

/// An impulse comes out exactly `d` samples after it went in: with an input
/// that is silent but for its first sample, the output at time `d` is that
/// sample and the output is silent at every earlier time.
pub proof fn impulse_arrives_after_delay(capacity: nat, d: int, input: Seq<u32>)
    requires
        1 <= d <= capacity,
        d < input.len(),
    ensures
        DelayState::fresh(capacity).with_delay(d).output_at(input, d) == input[0],
        forall|t: int|
            0 <= t < d ==> #[trigger] DelayState::fresh(capacity).with_delay(d).output_at(input, t)
                == SILENCE,
{
    delay_shifts_input(capacity, d, input, d);
    assert forall|t: int| 0 <= t < d implies #[trigger] DelayState::fresh(capacity).with_delay(
        d,
    ).output_at(input, t) == SILENCE by {
        delay_shifts_input(capacity, d, input, t);
    }
}

/// With a delay of zero every sample comes out as it went in, on every
/// call, and the line keeps its state.
pub proof fn zero_delay_passes_through(s: DelayState, input: Seq<u32>, t: int)
    requires
        s.delay == 0,
        0 <= t < input.len(),
    ensures
        s.after(input) == s,
        s.output_at(input, t) == input[t],
{
    lemma_zero_delay_keeps_state(s, input);
    lemma_zero_delay_keeps_state(s, input.take(t));
}

proof fn lemma_zero_delay_keeps_state(s: DelayState, input: Seq<u32>)
    requires
        s.delay == 0,
    ensures
        s.after(input) == s,
    decreases input.len(),
{
    if input.len() > 0 {
        lemma_zero_delay_keeps_state(s, input.drop_last());
    }
}

/// The quotient `n / d` rounded to the nearest integer, halves up.
pub open spec fn rounded_quotient(n: int, d: int) -> int {
    (2 * n + d) / (2 * d)
}

/// The number of samples that a delay of `ms` milliseconds takes at
/// `sample_rate`: `sample_rate * ms / 1000`, rounded to the nearest sample.
/// A negative delay and a NaN count as no delay; infinity is read like a
/// number beyond the largest, so that it exceeds every capacity.
pub open spec fn delay_samples_of(sample_rate: int, ms: u32) -> int {
    if is_nan(ms) || is_negative(ms) {
        0
    } else if binary_exponent_of(ms) >= 0 {
        rounded_quotient(
            sample_rate * significand_of(ms) * (pow2(binary_exponent_of(ms) as nat) as int),
            1000,
        )
    } else {
        rounded_quotient(
            sample_rate * significand_of(ms),
            1000 * (pow2((-binary_exponent_of(ms)) as nat) as int),
        )
    }
}

/// A count held to what a `usize` can hold.
pub open spec fn saturated(n: int) -> int {
    if n > usize::MAX {
        usize::MAX as int
    } else {
        n
    }
}

/// Converts a delay in milliseconds, given as a binary32 word, into
/// samples at `sample_rate`, rounded to the nearest sample and held to
/// what a `usize` can hold.
pub fn delay_samples_for(sample_rate: u32, ms: u32) -> (r: usize)
    ensures
        r == saturated(delay_samples_of(sample_rate as int, ms)),
{
    if nan_bits(ms) || ms >= SIGN_BIT {
        return 0;
    }
    let field: u32 = ms / 0x80_0000;
    let fraction: u32 = ms % 0x80_0000;
    let significand: u32 = if field == 0 {
        fraction
    } else {
        0x80_0000 + fraction
    };
    assert(magnitude(ms) == ms);
    assert(field == exponent_field(ms) && fraction == fraction_field(ms));
    assert(sample_rate * significand < 0x100_0000_0000_0000) by (nonlinear_arith)
        requires
            sample_rate < 0x1_0000_0000,
            significand < 0x100_0000,
    ;
    let product: u128 = (sample_rate as u128) * (significand as u128);
    assert(product == sample_rate * significand_of(ms));
    if field >= 150 {
        let k: u32 = field - 150;
        assert(binary_exponent_of(ms) == k);
        assert(delay_samples_of(sample_rate as int, ms) == rounded_quotient(
            product * (pow2(k as nat) as int),
            1000,
        ));
        if product == 0 {
            assert(product * (pow2(k as nat) as int) == 0) by (nonlinear_arith)
                requires
                    product == 0,
            ;
            assert((2 * 0 + 1000) / (2 * 1000) == 0int) by (nonlinear_arith);
            return 0;
        }
        if k > 64 {
            proof {
                lemma_pow2_strictly_increases(64, k as nat);
                vstd::arithmetic::power2::lemma2_to64();
                let p = pow2(k as nat) as int;
                let n = product * p;
                assert(product >= 0x80_0000) by (nonlinear_arith)
                    requires
                        product == sample_rate * significand,
                        product != 0,
                        significand >= 0x80_0000,
                        sample_rate >= 0,
                ;
                assert(n >= 0x80_0000 * 0x1_0000_0000_0000_0000) by (nonlinear_arith)
                    requires
                        n == product * p,
                        product >= 0x80_0000,
                        p >= 0x1_0000_0000_0000_0000,
                ;
                assert(rounded_quotient(n, 1000) > usize::MAX) by {
                    assert(2 * n + 1000 >= 2000 * 0x1_0000_0000_0000_0000);
                }
            }
            return usize::MAX;
        }
        let p: u128 = power_of_two(k);
        assert(product * p < 0x100_0000_0000_0000 * 0x1_0000_0000_0000_0001) by (nonlinear_arith)
            requires
                product < 0x100_0000_0000_0000,
                p <= 0x1_0000_0000_0000_0000,
        ;
        let n: u128 = product * p;
        let q: u128 = (2 * n + 1000) / 2000;
        saturate(q)
    } else {
        let k: u32 = if field == 0 {
            149
        } else {
            150 - field
        };
        if k >= 57 {
            proof {
                vstd::arithmetic::power2::lemma2_to64();
                vstd::arithmetic::power2::lemma2_to64_rest();
                if k > 57 {
                    lemma_pow2_strictly_increases(57, k as nat);
                }
                let d: int = 1000 * (pow2(k as nat) as int);
                assert(2 * product + d < 2 * d);
                assert((2 * product + d) / (2 * d) == 0) by (nonlinear_arith)
                    requires
                        0 <= 2 * product + d < 2 * d,
                ;
            }
            return 0;
        }
        let p: u128 = power_of_two(k);
        proof {
            vstd::arithmetic::power2::lemma2_to64();
            vstd::arithmetic::power2::lemma2_to64_rest();
            lemma_pow2_strictly_increases(k as nat, 57);
        }
        let d: u128 = 1000 * p;
        let q: u128 = (2 * product + d) / (2 * d);
        saturate(q)
    }
}

/// Holds a count to what a `usize` can hold.
fn saturate(q: u128) -> (r: usize)
    ensures
        r == saturated(q as int),
{
    if q > usize::MAX as u128 {
        usize::MAX
    } else {
        q as usize
    }
}

/// What a pair of delay lines is: the state of each side.
pub struct StereoDelayState {
    pub left: DelayState,
    pub right: DelayState,
}

impl StereoDelayState {
    /// Both lines are well formed.
    pub open spec fn wf(self) -> bool {
        self.left.wf() && self.right.wf()
    }

    /// Two silent lines of the given capacity, with no delay set.
    pub open spec fn fresh(capacity: nat) -> StereoDelayState {
        StereoDelayState { left: DelayState::fresh(capacity), right: DelayState::fresh(capacity) }
    }

    /// The same lines with the delay of both set to `samples`, or to
    /// their capacity where `samples` is larger.
    pub open spec fn with_delay(self, samples: int) -> StereoDelayState {
        StereoDelayState {
            left: self.left.with_delay(samples),
            right: self.right.with_delay(samples),
        }
    }

    /// What comes out when a frame goes in.
    pub open spec fn output(self, left: u32, right: u32) -> (u32, u32) {
        (self.left.output(left), self.right.output(right))
    }

    /// The state after a frame went in.
    pub open spec fn step(self, left: u32, right: u32) -> StereoDelayState {
        StereoDelayState { left: self.left.step(left), right: self.right.step(right) }
    }
}

/// A pair of delay lines that delay the two sides of a stereo stream by
/// the same number of samples.
pub struct StereoDelay {
    left: DelayBuffer,
    right: DelayBuffer,
}

impl View for StereoDelay {
    type V = StereoDelayState;

    closed spec fn view(&self) -> StereoDelayState {
        StereoDelayState { left: self.left@, right: self.right@ }
    }
}

impl StereoDelay {
    /// Two silent lines of the given capacity, with no delay set.
    pub fn new(capacity: usize) -> (r: Self)
        ensures
            r@ == StereoDelayState::fresh(capacity as nat),
            r@.wf(),
    {
        StereoDelay { left: DelayBuffer::new(capacity), right: DelayBuffer::new(capacity) }
    }

    /// Checks the invariant of both lines.
    pub fn is_well_formed(&self) -> (ok: bool)
        ensures
            ok == self@.wf(),
    {
        self.left.is_well_formed() && self.right.is_well_formed()
    }

    /// Sets the delay of both lines, limited to their capacity.
    pub fn set_delay_samples(&mut self, samples: usize)
        requires
            old(self)@.wf(),
        ensures
            final(self)@ == old(self)@.with_delay(samples as int),
            final(self)@.wf(),
    {
        self.left.set_delay_samples(samples);
        self.right.set_delay_samples(samples);
    }

    /// Delays one stereo frame.
    pub fn process(&mut self, left: u32, right: u32) -> (out: (u32, u32))
        requires
            old(self)@.wf(),
        ensures
            out == old(self)@.output(left, right),
            final(self)@ == old(self)@.step(left, right),
            final(self)@.wf(),
    {
        let l: u32 = self.left.process(left);
        let r: u32 = self.right.process(right);
        (l, r)
    }
}

} // verus!
