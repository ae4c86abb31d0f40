//! In-place pseudo-random reordering of a slice, driven by a xorshift
//! generator that is seeded from the system clock.

use std::time::SystemTime;
use vstd::prelude::*;
use vstd::seq_lib::to_multiset_update;

verus! {

/// `std::time::SystemTime`, a reading of the system clock. It is carried
/// from `SystemTime::now` to `SystemTime::duration_since`; nothing is known
/// of what it holds.
#[verifier::external_type_specification]
#[verifier::external_body]
pub struct ExSystemTime(SystemTime);

/// `SystemTime::now` reads the system clock. Nothing is claimed of the value.
pub assume_specification[ SystemTime::now ]() -> SystemTime;

/// `Duration::as_nanos` gives a span of time as a whole number of
/// nanoseconds. Nothing is claimed of the value.
pub assume_specification[ std::time::Duration::as_nanos ](d: &std::time::Duration) -> u128;

/// `SystemTime::duration_since`, measured from `UNIX_EPOCH`: the time that
/// has passed since the epoch, or `None` where the clock stands before it.
/// Nothing is claimed of the value.
#[verifier::external_body]
fn since_epoch(now: &SystemTime) -> Option<std::time::Duration> {
    now.duration_since(std::time::UNIX_EPOCH).ok()
}

/// `<[T]>::swap` exchanges the elements at two positions of a slice and
/// leaves the others as they are; it panics when a position is out of
/// bounds, which `requires` excludes.
pub assume_specification<T>[ <[T]>::swap ](s: &mut [T], a: usize, b: usize)
    requires
        a < old(s)@.len(),
        b < old(s)@.len(),
    ensures
        final(s)@ == old(s)@.update(a as int, old(s)@[b as int]).update(b as int, old(s)@[a as int]),
;

/// One step of the generator: the state that follows `s`, which is also the
/// number that the step hands out.
pub open spec fn xorshift_step(s: u32) -> u32 {
    let a = s ^ (s << 13);
    let b = a ^ (a >> 17);
    b ^ (b << 5)
}

/// `s` with the elements at `i` and `j` exchanged.
pub open spec fn swapped<E>(s: Seq<E>, i: int, j: int) -> Seq<E> {
    s.update(i, s[j]).update(j, s[i])
}

/// The position with which position `i` of a sequence of `len` elements is
/// exchanged when the generator hands out `draw`: the draw reduced modulo
/// `len`, but no further right than `i + 1`.
pub open spec fn partner(draw: u32, len: nat, i: nat) -> nat {
    if (draw as nat) % len < i + 1 {
        (draw as nat) % len
    } else {
        i + 1
    }
}

/// The result of the exchanges for positions `i`, `i + 1`, … of `s`, made
/// with a generator in state `state`.
pub open spec fn shuffled_from<E>(s: Seq<E>, state: u32, i: nat) -> Seq<E>
    decreases s.len() - i,
{
    if i >= s.len() {
        s
    } else {
        let draw = xorshift_step(state);
        shuffled_from(swapped(s, i as int, partner(draw, s.len(), i) as int), draw, i + 1)
    }
}

/// The order into which seed `seed` brings `s`: for each position from the
/// first to the last, one exchange with the generator's choice of partner.
pub open spec fn shuffled<E>(s: Seq<E>, seed: u32) -> Seq<E> {
    shuffled_from(s, seed, 0)
}

/// A xorshift pseudo-random number generator with 32 bits of state.
pub struct Xorshift {
    state: u32,
}

impl Xorshift {
    /// The generator's current state.
    pub closed spec fn state(&self) -> u32 {
        self.state
    }

    /// A generator that starts from `state`.
    pub fn new(state: u32) -> (r: Xorshift)
        ensures
            r.state() == state,
    {
        Xorshift { state }
    }

    /// Advances the generator by one step and hands out its new state.
    pub fn next(&mut self) -> (r: u32)
        ensures
            r == xorshift_step(old(self).state()),
            final(self).state() == r,
    {
        let mut s = self.state;
        s ^= s << 13;
        s ^= s >> 17;
        s ^= s << 5;
        self.state = s;
        self.state
    }
}

/// Shuffling only reorders: the result has the length of the input and holds
/// every element as often as the input does.
pub proof fn lemma_shuffled_from_permutes<E>(s: Seq<E>, state: u32, i: nat)
    ensures
        shuffled_from(s, state, i).len() == s.len(),
        shuffled_from(s, state, i).to_multiset() == s.to_multiset(),
    decreases s.len() - i,
{
    if i < s.len() {
        let draw = xorshift_step(state);
        let j = partner(draw, s.len(), i) as int;
        let t = swapped(s, i as int, j);
        assert(t.to_multiset() == s.to_multiset()) by {
            to_multiset_update(s, i as int, s[j]);
            to_multiset_update(s.update(i as int, s[j]), j, s[i as int]);
            s.to_multiset_ensures();
            assert(t.to_multiset() =~= s.to_multiset());
        }
        lemma_shuffled_from_permutes(t, draw, i + 1);
    }
}

/// Shuffling with any seed only reorders.
pub proof fn lemma_shuffled_permutes<E>(s: Seq<E>, seed: u32)
    ensures
        shuffled(s, seed).len() == s.len(),
        shuffled(s, seed).to_multiset() == s.to_multiset(),
{
    lemma_shuffled_from_permutes(s, seed, 0);
}

/// Reorders `data` in place as seed `seed` dictates.
pub fn shuffle_seeded<E>(data: &mut [E], seed: u32)
    ensures
        final(data)@ == shuffled(old(data)@, seed),
{
    let mut r = Xorshift::new(seed);
    let len = data.len();
    let mut i: usize = 0;
    while i < len
        invariant
            i <= len,
            data@.len() == len,
            shuffled_from(data@, r.state(), i as nat) == shuffled(old(data)@, seed),
        decreases len - i,
    {
        let draw = r.next() as usize % len;
        let idx = if draw < i + 1 {
            draw
        } else {
            i + 1
        };
        data.swap(i, idx);
        i += 1;
    }
}

/// A seed taken from the system clock: the seed of what the clock reads, in
/// nanoseconds since the epoch.
fn clock_seed() -> (seed: u32)
    ensures
        exists|reading: Option<u128>| seed == #[trigger] seed_of(reading),
{
    let now = SystemTime::now();
    let reading = match since_epoch(&now) {
        Some(elapsed) => Some(elapsed.as_nanos()),
        None => None,
    };
    let seed = seed_from(reading);
    assert(seed == seed_of(reading));
    seed
}

/// The seed that a reading of the clock gives: the nanoseconds since the
/// epoch, cut to their lowest 32 bits; zero where there is no reading,
/// because the clock stands before the epoch.
pub open spec fn seed_of(reading: Option<u128>) -> u32 {
    match reading {
        Some(nanos) => (nanos % 0x1_0000_0000) as u32,
        None => 0,
    }
}

/// Makes a seed of a reading of the clock.
pub fn seed_from(reading: Option<u128>) -> (seed: u32)
    ensures
        seed == seed_of(reading),
{
    match reading {
        Some(nanos) => {
            assert(nanos as u32 == nanos % 0x1_0000_0000) by (bit_vector);
            #[verifier::truncate]
            let seed: u32 = nanos as u32;
            seed
        },
        None => 0,
    }
}

/// Reorders `data` in place, with a seed taken from the system clock.
pub fn shuffle<E>(data: &mut [E])
    ensures
        exists|seed: u32| final(data)@ == #[trigger] shuffled(old(data)@, seed),
{
    let seed = clock_seed();
    shuffle_seeded(data, seed);
}

} // verus!
