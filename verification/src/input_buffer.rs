use vstd::prelude::*;

verus! {

/// Error returned by `push` when no room is left in the buffer.
#[derive(Debug)]
pub enum AddError {
    Overflow,
}

/// `s` with the bytes of `vs` written in place starting at index `at`;
/// everything outside `[at, at + vs.len())` keeps its old value.
pub open spec fn overwritten(s: Seq<u8>, at: int, vs: Seq<u8>) -> Seq<u8>
    recommends
        0 <= at,
        at + vs.len() <= s.len(),
{
    s.take(at) + vs + s.skip(at + vs.len())
}

/// A byte buffer with a fixed capacity but dynamic length, backed by a
/// caller-supplied block of storage.
///
/// Appending data grows `len()` towards `capacity()`, while consuming data
/// takes bytes from the front and moves the remaining bytes down to the
/// start. For instance, if the buffer holds `[0, 1, 2, 3, 4]` and two bytes
/// are consumed, the caller receives `[0, 1]` and the buffer then holds
/// `[2, 3, 4]` starting at index 0.
pub struct InputBuffer<'a> {
    buffer: &'a mut [u8],
    next_input_pos: usize,
    overflow: bool,
}

impl<'a> InputBuffer<'a> {
    /// The whole backing block: valid bytes and stale bytes alike.
    pub closed spec fn storage(&self) -> Seq<u8> {
        self.buffer@
    }

    /// How many bytes from the start of the backing block are valid.
    pub closed spec fn filled(&self) -> nat {
        self.next_input_pos as nat
    }

    /// The sticky overflow flag.
    pub closed spec fn overflow_flag(&self) -> bool {
        self.overflow
    }

    pub open spec fn spec_capacity(&self) -> nat {
        self.storage().len()
    }

    /// The live bytes: the filled prefix of the backing block.
    pub open spec fn contents(&self) -> Seq<u8> {
        self.storage().take(self.filled() as int)
    }

    /// The filled region never exceeds the backing block.
    pub open spec fn wf(&self) -> bool {
        self.filled() <= self.spec_capacity()
    }

    /// Binds a new buffer to the given backing block. The buffer starts
    /// empty, with the overflow flag clear; the block's bytes are left as
    /// they are.
    pub fn new(buffer: &'a mut [u8]) -> (r: InputBuffer<'a>)
        ensures
            r.wf(),
            r.filled() == 0,
            !r.overflow_flag(),
            r.storage() == old(buffer)@,
    {
        InputBuffer { buffer, next_input_pos: 0, overflow: false }
    }

    /// The unfilled suffix of the backing block, for writing into the buffer
    /// out-of-band; follow such writes with `resize` to commit the new
    /// length.
    pub fn write_area(&mut self) -> (r: &mut [u8])
        requires
            old(self).wf(),
        ensures
            final(self).wf(),
            r@ == old(self).storage().skip(old(self).filled() as int),
            final(self).storage() == old(self).storage().take(old(self).filled() as int)
                + final(r)@,
            final(self).filled() == old(self).filled(),
            final(self).overflow_flag() == old(self).overflow_flag(),
    {
        self.buffer.split_at_mut(self.next_input_pos).1
    }

    /// Appends one byte at the end of the filled region. When the buffer is
    /// already full, fails with `Overflow`, sets the overflow flag, and
    /// leaves the length and the storage unchanged.
    pub fn push(&mut self, value: u8) -> (r: Result<(), AddError>)
        requires
            old(self).wf(),
        ensures
            final(self).wf(),
            final(self).spec_capacity() == old(self).spec_capacity(),
            r is Ok <==> old(self).filled() < old(self).spec_capacity(),
            old(self).filled() < old(self).spec_capacity() ==> {
                &&& final(self).storage() == old(self).storage().update(
                    old(self).filled() as int,
                    value,
                )
                &&& final(self).filled() == old(self).filled() + 1
                &&& final(self).contents() == old(self).contents().push(value)
                &&& final(self).overflow_flag() == old(self).overflow_flag()
            },
            old(self).filled() >= old(self).spec_capacity() ==> {
                &&& r == Err::<(), AddError>(AddError::Overflow)
                &&& final(self).storage() == old(self).storage()
                &&& final(self).filled() == old(self).filled()
                &&& final(self).overflow_flag()
            },
    {
        if self.next_input_pos < self.capacity() {
            self.buffer[self.next_input_pos] = value;
            self.next_input_pos += 1;
            proof {
                assert(self.contents() =~= old(self).contents().push(value));
            }
            Ok(())
        } else {
            self.overflow = true;
            Err(AddError::Overflow)
        }
    }

    /// Appends as many bytes of `values` as fit. Returns the count actually
    /// copied: all of `values` when there is room, else exactly the bytes
    /// that fill the buffer, with the overflow flag set and the remainder of
    /// `values` discarded.
    pub fn push_multiple(&mut self, values: &[u8]) -> (r: usize)
        requires
            old(self).wf(),
        ensures
            final(self).wf(),
            final(self).spec_capacity() == old(self).spec_capacity(),
            r == vstd::math::min(
                values@.len() as int,
                old(self).spec_capacity() - old(self).filled(),
            ),
            final(self).storage() == overwritten(
                old(self).storage(),
                old(self).filled() as int,
                values@.take(r as int),
            ),
            final(self).filled() == old(self).filled() + r,
            final(self).contents() == old(self).contents() + values@.take(r as int),
            values@.len() <= old(self).spec_capacity() - old(self).filled()
                ==> final(self).overflow_flag() == old(self).overflow_flag(),
            values@.len() > old(self).spec_capacity() - old(self).filled() ==> {
                &&& final(self).overflow_flag()
                &&& final(self).filled() == final(self).spec_capacity()
            },
    {
        let available_space = self.capacity() - self.len();
        let count = if values.len() <= available_space {
            values.len()
        } else {
            available_space
        };
        let mut j: usize = 0;
        while j < count
            invariant
                old(self).wf(),
                j <= count,
                count <= values@.len(),
                old(self).filled() + count <= old(self).spec_capacity(),
                old(self).spec_capacity() <= usize::MAX,
                self.next_input_pos == old(self).next_input_pos,
                self.overflow == old(self).overflow,
                self.buffer@.len() == old(self).storage().len(),
                forall|t: int|
                    0 <= t < self.buffer@.len() && !(old(self).filled() <= t < old(self).filled()
                        + j) ==> self.buffer@[t] == old(self).storage()[t],
                forall|t: int|
                    0 <= t < j ==> self.buffer@[old(self).filled() + t] == values@[t],
            decreases count - j,
        {
            self.buffer[self.next_input_pos + j] = values[j];
            j += 1;
        }
        self.next_input_pos += count;
        if values.len() > available_space {
            self.overflow = true;
        }
        proof {
            assert(self.storage() =~= overwritten(
                old(self).storage(),
                old(self).filled() as int,
                values@.take(count as int),
            ));
            assert(self.contents() =~= old(self).contents() + values@.take(count as int));
        }
        count
    }

    /// The length of the backing block; fixed at construction.
    pub fn capacity(&self) -> (r: usize)
        ensures
            r == self.spec_capacity(),
    {
        self.buffer.len()
    }

    /// How many bytes the buffer currently holds.
    pub fn len(&self) -> (r: usize)
        ensures
            r == self.filled(),
    {
        self.next_input_pos
    }

    pub fn is_empty(&self) -> (r: bool)
        ensures
            r == (self.filled() == 0),
    {
        self.next_input_pos == 0
    }

    /// Whether an overflow has been detected; use `clear` to reset it.
    pub fn overflown(&self) -> (r: bool)
        ensures
            r == self.overflow_flag(),
    {
        self.overflow
    }

    /// Sets the length to `new_size`, clamped to the capacity. Touches
    /// neither the overflow flag nor the storage; used to commit bytes
    /// written out-of-band through `write_area`.
    pub fn resize(&mut self, new_size: usize)
        ensures
            final(self).wf(),
            final(self).filled() == vstd::math::min(
                new_size as int,
                old(self).spec_capacity() as int,
            ),
            final(self).storage() == old(self).storage(),
            final(self).overflow_flag() == old(self).overflow_flag(),
    {
        let cap = self.capacity();
        self.next_input_pos = if new_size < cap {
            new_size
        } else {
            cap
        };
    }

    /// Empties the buffer and clears the overflow flag. The capacity and the
    /// bytes of the backing block are untouched; the old bytes merely become
    /// stale.
    pub fn clear(&mut self)
        ensures
            final(self).wf(),
            final(self).filled() == 0,
            !final(self).overflow_flag(),
            final(self).storage() == old(self).storage(),
    {
        self.next_input_pos = 0;
        self.overflow = false;
    }

    /// Takes up to `output.len()` bytes from the front of the buffer into
    /// `output`, then moves any remaining bytes down to start at index 0 and
    /// decreases the length accordingly. Returns the count taken. This is
    /// the only way to retrieve data from the buffer.
    pub fn consume(&mut self, output: &mut [u8]) -> (r: usize)
        requires
            old(self).wf(),
        ensures
            final(self).wf(),
            final(self).spec_capacity() == old(self).spec_capacity(),
            r == vstd::math::min(old(self).filled() as int, old(output)@.len() as int),
            final(output)@ == old(self).contents().take(r as int) + old(output)@.skip(r as int),
            final(self).filled() == old(self).filled() - r,
            final(self).contents() == old(self).contents().skip(r as int),
            final(self).storage() == old(self).storage().subrange(
                r as int,
                old(self).filled() as int,
            ) + old(self).storage().skip(old(self).filled() - r),
            final(self).overflow_flag() == old(self).overflow_flag(),
    {
        let bytes_to_consume = if self.len() <= output.len() {
            self.len()
        } else {
            output.len()
        };
        if bytes_to_consume == 0 {
            proof {
                assert(output@ =~= old(self).contents().take(0) + old(output)@.skip(0));
                assert(self.storage() =~= old(self).storage().subrange(
                    0,
                    old(self).filled() as int,
                ) + old(self).storage().skip(old(self).filled() as int));
                assert(self.contents() =~= old(self).contents().skip(0));
            }
            return 0;
        }
        let mut i: usize = 0;
        while i < bytes_to_consume
            invariant
                old(self).wf(),
                i <= bytes_to_consume,
                bytes_to_consume <= old(self).filled(),
                self.next_input_pos == old(self).next_input_pos,
                self.overflow == old(self).overflow,
                self.buffer@ == old(self).storage(),
                output@.len() == old(output)@.len(),
                bytes_to_consume <= output@.len(),
                forall|t: int| 0 <= t < i ==> output@[t] == old(self).storage()[t],
                forall|t: int| i <= t < output@.len() ==> output@[t] == old(output)@[t],
            decreases bytes_to_consume - i,
        {
            output[i] = self.buffer[i];
            i += 1;
        }
        let new_len = self.next_input_pos - bytes_to_consume;
        let mut k: usize = 0;
        while k < new_len
            invariant
                old(self).wf(),
                k <= new_len,
                0 < bytes_to_consume,
                new_len == old(self).filled() - bytes_to_consume,
                bytes_to_consume <= old(self).filled(),
                self.next_input_pos == old(self).next_input_pos,
                self.overflow == old(self).overflow,
                self.buffer@.len() == old(self).storage().len(),
                forall|t: int|
                    0 <= t < k ==> self.buffer@[t] == old(self).storage()[bytes_to_consume + t],
                forall|t: int|
                    k <= t < self.buffer@.len() ==> self.buffer@[t] == old(self).storage()[t],
            decreases new_len - k,
        {
            let moved = self.buffer[bytes_to_consume + k];
            self.buffer[k] = moved;
            k += 1;
        }
        self.next_input_pos = new_len;
        proof {
            assert(output@ =~= old(self).contents().take(bytes_to_consume as int)
                + old(output)@.skip(bytes_to_consume as int));
            assert(self.storage() =~= old(self).storage().subrange(
                bytes_to_consume as int,
                old(self).filled() as int,
            ) + old(self).storage().skip(old(self).filled() - bytes_to_consume));
            assert(self.contents() =~= old(self).contents().skip(bytes_to_consume as int));
        }
        bytes_to_consume
    }
}

} // verus!
