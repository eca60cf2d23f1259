//! The bounded random walk over the buffer: how one random draw moves the
//! cursor, which byte is then read, and what a whole run of draws leaves
//! behind.

use vstd::arithmetic::div_mod::lemma_fundamental_div_mod_converse;
use vstd::prelude::*;

verus! {

/// The two random values that one iteration consumes: a full-width
/// unsigned value, from which the stride is taken, and a direction.
#[derive(Clone, Copy, Debug)]
pub struct Draw {
    pub raw: usize,
    pub forward: bool,
}

/// The number of values of a machine word: cursor arithmetic wraps at it.
pub open spec fn word_range() -> int {
    usize::MAX as int + 1
}

/// The stride taken from a full-width random value: its remainder by the
/// stride size.
pub open spec fn stride_of(raw: usize, step_size: usize) -> int {
    raw as int % step_size as int
}

/// The cursor after the wrapping move by one draw, before it is brought
/// back into the buffer.
pub open spec fn moved(position: usize, draw: Draw, step_size: usize) -> int {
    if draw.forward {
        (position as int + stride_of(draw.raw, step_size)) % word_range()
    } else {
        (position as int - stride_of(draw.raw, step_size)) % word_range()
    }
}

/// The cursor after one iteration: the wrapping move, reduced by the
/// length of the buffer.
pub open spec fn next_position(position: usize, draw: Draw, step_size: usize, total_size: nat) -> int {
    moved(position, draw, step_size) % total_size as int
}

/// The state that a trial carries from one iteration to the next.
#[derive(Clone, Copy, Debug)]
pub struct Walk {
    /// The cursor into the buffer.
    pub position: usize,
    /// The wrapping 8-bit sum of the bytes read so far.
    pub checksum: u8,
    /// The number of iterations done, each one cursor update and one read.
    pub steps: usize,
}

/// The walk after every draw of `draws` was applied in order, starting at
/// position 0 with an empty checksum.
pub open spec fn walk_after(buffer: Seq<u8>, step_size: usize, draws: Seq<Draw>) -> Walk
    decreases draws.len(),
{
    if draws.len() == 0 {
        Walk { position: 0, checksum: 0, steps: 0 }
    } else {
        walk_after(buffer, step_size, draws.drop_last()).step(buffer, step_size, draws.last())
    }
}

/// The sum, without wrapping, of the bytes that the walk over `draws` reads.
pub open spec fn bytes_read(buffer: Seq<u8>, step_size: usize, draws: Seq<Draw>) -> int
    decreases draws.len(),
{
    if draws.len() == 0 {
        0
    } else {
        bytes_read(buffer, step_size, draws.drop_last())
            + buffer[walk_after(buffer, step_size, draws).position as int]
    }
}

/// Reduces a full-width random value to a stride below `step_size`.
pub fn bound_stride(raw: usize, step_size: usize) -> (step: usize)
    requires
        step_size >= 1,
    ensures
        step as int == stride_of(raw, step_size),
        0 <= step < step_size,
{
    raw % step_size
}

impl Walk {
    /// The walk after one more iteration with `draw` over `buffer`.
    pub open spec fn step(self, buffer: Seq<u8>, step_size: usize, draw: Draw) -> Walk {
        let position = next_position(self.position, draw, step_size, buffer.len());
        Walk {
            position: position as usize,
            checksum: ((self.checksum as int + buffer[position] as int) % 256) as u8,
            steps: (self.steps + 1) as usize,
        }
    }

    /// A walk that has not moved yet: position 0, checksum 0, no step done.
    pub fn new() -> (walk: Walk)
        ensures
            walk == (Walk { position: 0, checksum: 0, steps: 0 }),
    {
        Walk { position: 0, checksum: 0, steps: 0 }
    }

    /// Does one iteration: moves the cursor by the stride of `draw` in its
    /// direction, wrapping at the word width, reduces it by the length of
    /// the buffer, reads the byte there and adds it to the checksum.
    pub fn advance(&mut self, buffer: &Vec<u8>, step_size: usize, draw: Draw)
        requires
            buffer@.len() >= 1,
            step_size >= 1,
            old(self).steps < usize::MAX,
        ensures
            *final(self) == old(self).step(buffer@, step_size, draw),
            final(self).position < buffer@.len(),
            final(self).steps == old(self).steps + 1,
    {
        let stride = bound_stride(draw.raw, step_size);
        let target = if draw.forward {
            self.position.wrapping_add(stride)
        } else {
            self.position.wrapping_sub(stride)
        };
        proof {
            let exact = if draw.forward {
                self.position as int + stride as int
            } else {
                self.position as int - stride as int
            };
            let turns: int = if exact < 0 {
                -1
            } else if exact > usize::MAX {
                1
            } else {
                0
            };
            assert(target as int == exact - turns * word_range());
            lemma_fundamental_div_mod_converse(exact, word_range(), turns, target as int);
        }
        let position = target % buffer.len();
        self.position = position;
        self.checksum = self.checksum.wrapping_add(buffer[position]);
        self.steps = self.steps + 1;
    }
}

/// Runs the walk over a given sequence of draws, from the start.
pub fn walk_through(buffer: &Vec<u8>, step_size: usize, draws: &Vec<Draw>) -> (walk: Walk)
    requires
        buffer@.len() >= 1,
        step_size >= 1,
    ensures
        walk == walk_after(buffer@, step_size, draws@),
        walk.position < buffer@.len(),
        walk.steps == draws@.len(),
{
    let mut walk = Walk::new();
    let mut done: usize = 0;
    while done < draws.len()
        invariant
            buffer@.len() >= 1,
            step_size >= 1,
            done <= draws@.len(),
            walk == walk_after(buffer@, step_size, draws@.take(done as int)),
            walk.position < buffer@.len(),
            walk.steps == done,
        decreases draws@.len() - done,
    {
        proof {
            let next = draws@.take(done as int + 1);
            assert(next.drop_last() =~= draws@.take(done as int));
            assert(next.last() == draws@[done as int]);
        }
        walk.advance(buffer, step_size, draws[done]);
        done = done + 1;
    }
    proof {
        assert(draws@.take(done as int) =~= draws@);
    }
    walk
}

/// Every position that a trial produces lies inside the buffer, whatever
/// the stride size and whatever was drawn, and the walk has done exactly
/// one step per draw.
pub proof fn lemma_walk_stays_in_buffer(buffer: Seq<u8>, step_size: usize, draws: Seq<Draw>)
    requires
        buffer.len() >= 1,
        buffer.len() <= usize::MAX,
        step_size >= 1,
        draws.len() <= usize::MAX,
    ensures
        0 <= walk_after(buffer, step_size, draws).position < buffer.len(),
        walk_after(buffer, step_size, draws).steps == draws.len(),
    decreases draws.len(),
{
    if draws.len() > 0 {
        lemma_walk_stays_in_buffer(buffer, step_size, draws.drop_last());
        let before = walk_after(buffer, step_size, draws.drop_last());
        let target = moved(before.position, draws.last(), step_size);
        let size = buffer.len() as int;
        assert(0 <= target % size && target % size < size) by (nonlinear_arith)
            requires
                size >= 1,
        ;
    }
}

/// The stride of every draw is below the stride size.
pub proof fn lemma_stride_below_step_size(raw: usize, step_size: usize)
    requires
        step_size >= 1,
    ensures
        0 <= stride_of(raw, step_size) < step_size,
{
    let (value, size) = (raw as int, step_size as int);
    assert(0 <= value % size && value % size < size) by (nonlinear_arith)
        requires
            size >= 1,
    ;
}

/// The checksum of a walk is the sum of the bytes it read, one per draw,
/// reduced to 8 bits.
pub proof fn lemma_checksum_sums_the_reads(buffer: Seq<u8>, step_size: usize, draws: Seq<Draw>)
    requires
        buffer.len() >= 1,
        buffer.len() <= usize::MAX,
        step_size >= 1,
        draws.len() <= usize::MAX,
    ensures
        walk_after(buffer, step_size, draws).checksum as int == bytes_read(buffer, step_size, draws) % 256,
    decreases draws.len(),
{
    if draws.len() > 0 {
        lemma_checksum_sums_the_reads(buffer, step_size, draws.drop_last());
        lemma_walk_stays_in_buffer(buffer, step_size, draws);
        let before = walk_after(buffer, step_size, draws.drop_last());
        let after = walk_after(buffer, step_size, draws);
        let total = bytes_read(buffer, step_size, draws.drop_last());
        let byte = buffer[after.position as int] as int;
        assert(after.position as int == next_position(before.position, draws.last(), step_size, buffer.len()));
        assert(after.checksum as int == (before.checksum as int + byte) % 256);
        assert((total % 256 + byte) % 256 == (total + byte) % 256) by (nonlinear_arith);
    }
}

} // verus!
