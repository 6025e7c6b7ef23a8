use crate::error::Error;
use vstd::prelude::*;

verus! {

/// How words are laid out in storage relative to the values callers see.
#[derive(Debug, Clone, Copy, PartialEq, Eq, Structural)]
pub enum Endianness {
    /// Storage holds every word byte-swapped; reads and writes convert.
    LittleEndian,
    /// Storage holds words exactly as callers see them.
    BigEndian,
}

/// A fixed-width machine word with a byte-order conversion.
pub trait Word: Copy + Sized {
    /// The word with its bytes in big-endian order.
    spec fn spec_to_be(self) -> Self;

    /// The word read back from big-endian order.
    spec fn spec_from_be(self) -> Self;

    /// The all-zero word.
    spec fn spec_zero() -> Self;

    fn zero() -> (r: Self)
        ensures
            r == Self::spec_zero(),
    ;

    fn to_bee(&self) -> (r: Self)
        ensures
            r == self.spec_to_be(),
    ;

    fn from_be(v: Self) -> (r: Self)
        ensures
            r == v.spec_from_be(),
    ;

    /// Converting into storage order and back gives the word unchanged.
    proof fn lemma_round_trip(v: Self)
        ensures
            v.spec_from_be().spec_to_be() == v,
    ;

    /// The zero word looks the same in either byte order.
    proof fn lemma_zero_fixed()
        ensures
            Self::spec_zero().spec_to_be() == Self::spec_zero(),
    ;
}

pub open spec fn swap16(v: u16) -> u16 {
    ((v & 0xff) << 8u16) | (v >> 8u16)
}

pub open spec fn swap32(v: u32) -> u32 {
    ((v & 0xff) << 24u32) | (((v >> 8u32) & 0xff) << 16u32) | (((v >> 16u32) & 0xff) << 8u32) | (v
        >> 24u32)
}

pub open spec fn swap64(v: u64) -> u64 {
    (swap32(v as u32) as u64) << 32u64 | (swap32((v >> 32u64) as u32) as u64)
}

fn swap_u32(v: u32) -> (r: u32)
    ensures
        r == swap32(v),
{
    ((v & 0xff) << 24u32) | (((v >> 8u32) & 0xff) << 16u32) | (((v >> 16u32) & 0xff) << 8u32) | (v
        >> 24u32)
}

fn swap_u64(v: u64) -> (r: u64)
    ensures
        r == swap64(v),
{
    ((swap_u32(v as u32) as u64) << 32u64) | (swap_u32((v >> 32u64) as u32) as u64)
}

impl Word for u8 {
    open spec fn spec_to_be(self) -> u8 {
        self
    }

    open spec fn spec_from_be(self) -> u8 {
        self
    }

    open spec fn spec_zero() -> u8 {
        0
    }

    fn zero() -> (r: u8) {
        0
    }

    fn to_bee(&self) -> (r: u8) {
        *self
    }

    fn from_be(v: u8) -> (r: u8) {
        v
    }

    proof fn lemma_round_trip(v: u8) {
    }

    proof fn lemma_zero_fixed() {
    }
}

impl Word for u16 {
    open spec fn spec_to_be(self) -> u16 {
        swap16(self)
    }

    open spec fn spec_from_be(self) -> u16 {
        swap16(self)
    }

    open spec fn spec_zero() -> u16 {
        0
    }

    fn zero() -> (r: u16) {
        0
    }

    fn to_bee(&self) -> (r: u16) {
        let v = *self;
        ((v & 0xff) << 8u16) | (v >> 8u16)
    }

    fn from_be(v: u16) -> (r: u16) {
        ((v & 0xff) << 8u16) | (v >> 8u16)
    }

    proof fn lemma_round_trip(v: u16) {
        assert(swap16(swap16(v)) == v) by (bit_vector);
    }

    proof fn lemma_zero_fixed() {
        assert(swap16(0) == 0) by (bit_vector);
    }
}

impl Word for u32 {
    open spec fn spec_to_be(self) -> u32 {
        swap32(self)
    }

    open spec fn spec_from_be(self) -> u32 {
        swap32(self)
    }

    open spec fn spec_zero() -> u32 {
        0
    }

    fn zero() -> (r: u32) {
        0
    }

    fn to_bee(&self) -> (r: u32) {
        swap_u32(*self)
    }

    fn from_be(v: u32) -> (r: u32) {
        swap_u32(v)
    }

    proof fn lemma_round_trip(v: u32) {
        assert(swap32(swap32(v)) == v) by (bit_vector);
    }

    proof fn lemma_zero_fixed() {
        assert(swap32(0) == 0) by (bit_vector);
    }
}

impl Word for u64 {
    open spec fn spec_to_be(self) -> u64 {
        swap64(self)
    }

    open spec fn spec_from_be(self) -> u64 {
        swap64(self)
    }

    open spec fn spec_zero() -> u64 {
        0
    }

    fn zero() -> (r: u64) {
        0
    }

    fn to_bee(&self) -> (r: u64) {
        swap_u64(*self)
    }

    fn from_be(v: u64) -> (r: u64) {
        swap_u64(v)
    }

    proof fn lemma_round_trip(v: u64) {
        assert(swap64(swap64(v)) == v) by (bit_vector);
    }

    proof fn lemma_zero_fixed() {
        assert(swap64(0) == 0) by (bit_vector);
    }
}

/// A bounded, word-addressed memory. Valid addresses are `1 .. capacity_limit`;
/// storage grows on demand and reads past it see the zero word.
pub struct Memory<T> {
    max_size: usize,
    mem: Vec<T>,
    endianness: Endianness,
}

impl<T: Word> View for Memory<T> {
    type V = Seq<T>;

    /// The word at every address below the capacity limit, as callers see it.
    closed spec fn view(&self) -> Seq<T> {
        Seq::new(self.max_size as nat, |i: int| self.word_at(i))
    }
}

impl<T: Word> Memory<T> {
    /// The value callers see for a stored word.
    pub closed spec fn decode(&self, stored: T) -> T {
        match self.endianness {
            Endianness::BigEndian => stored,
            Endianness::LittleEndian => stored.spec_to_be(),
        }
    }

    pub closed spec fn word_at(&self, i: int) -> T {
        if 0 <= i < self.mem@.len() {
            self.decode(self.mem@[i])
        } else {
            T::spec_zero()
        }
    }

    /// The number of addresses, address 0 included, that the memory spans.
    pub closed spec fn capacity_limit(&self) -> nat {
        self.max_size as nat
    }

    /// The byte order the memory was made with.
    pub closed spec fn byte_order(&self) -> Endianness {
        self.endianness
    }

    /// Whether `addr` names a usable cell: address 0 is reserved.
    pub open spec fn valid_addr(&self, addr: int) -> bool {
        0 < addr < self.capacity_limit()
    }

    /// A memory of `max_size` addresses, all holding the zero word, with
    /// `size` cells of storage made up front.
    pub fn new(size: usize, max_size: usize, endianness: Endianness) -> (r: Self)
        ensures
            r.capacity_limit() == max_size,
            r.byte_order() == endianness,
            r@.len() == max_size,
            forall|i: int| 0 <= i < max_size ==> #[trigger] r@[i] == T::spec_zero(),
    {
        let mut mem: Vec<T> = Vec::new();
        let z = T::zero();
        let mut k: usize = 0;
        while k < size
            invariant
                k <= size,
                mem@.len() == k,
                forall|i: int| 0 <= i < k ==> #[trigger] mem@[i] == z,
                z == T::spec_zero(),
            decreases size - k,
        {
            mem.push(z);
            k = k + 1;
        }
        let r = Memory { max_size, mem, endianness };
        proof {
            T::lemma_zero_fixed();
            assert forall|i: int| 0 <= i < max_size implies #[trigger] r@[i] == T::spec_zero() by {
                assert(r@[i] == r.word_at(i));
            }
        }
        r
    }

    fn check_bounds(&self, addr: usize) -> (r: bool)
        ensures
            r == self.valid_addr(addr as int),
    {
        addr > 0 && addr < self.max_size
    }

    /// The word at `addr`; `InvalidMemoryAddress` unless `0 < addr < capacity_limit`.
    pub fn read(&self, addr: usize) -> (r: Result<T, Error>)
        ensures
            r == (if self.valid_addr(addr as int) {
                Ok(self@[addr as int])
            } else {
                Err(Error::InvalidMemoryAddress)
            }),
    {
        if !self.check_bounds(addr) {
            return Err(Error::InvalidMemoryAddress);
        }
        if addr >= self.mem.len() {
            proof {
                T::lemma_zero_fixed();
            }
            return Ok(T::zero());
        }
        match self.endianness {
            Endianness::BigEndian => Ok(self.mem[addr]),
            Endianness::LittleEndian => {
                let a = self.mem[addr];
                Ok(a.to_bee())
            },
        }
    }

    /// Stores `val` at `addr`, growing storage with zero words as needed;
    /// `InvalidMemoryAddress` and no change unless `0 < addr < capacity_limit`.
    pub fn write(&mut self, addr: usize, val: T) -> (r: Result<(), Error>)
        ensures
            r == (if old(self).valid_addr(addr as int) {
                Ok(())
            } else {
                Err(Error::InvalidMemoryAddress)
            }),
            final(self).capacity_limit() == old(self).capacity_limit(),
            final(self).byte_order() == old(self).byte_order(),
            final(self)@ == (if old(self).valid_addr(addr as int) {
                old(self)@.update(addr as int, val)
            } else {
                old(self)@
            }),
    {
        if !self.check_bounds(addr) {
            return Err(Error::InvalidMemoryAddress);
        }
        let ghost before = self@;
        let z = T::zero();
        while self.mem.len() <= addr
            invariant
                self.max_size == old(self).max_size,
                self.endianness == old(self).endianness,
                addr < self.max_size,
                z == T::spec_zero(),
                before.len() == self.max_size,
                forall|i: int| 0 <= i < self.max_size ==> #[trigger] self.word_at(i) == before[i],
            decreases addr + 1 - self.mem.len(),
        {
            let ghost prev = *self;
            proof {
                T::lemma_zero_fixed();
            }
            self.mem.push(z);
            proof {
                assert forall|i: int| 0 <= i < self.max_size implies #[trigger] self.word_at(i)
                    == before[i] by {
                    assert(self.word_at(i) == prev.word_at(i));
                }
            }
        }
        let stored = match self.endianness {
            Endianness::BigEndian => val,
            Endianness::LittleEndian => T::from_be(val),
        };
        let ghost grown = *self;
        self.mem.set(addr, stored);
        proof {
            T::lemma_round_trip(val);
            assert(self.word_at(addr as int) == val);
            assert forall|i: int| 0 <= i < self.max_size && i != addr implies #[trigger] self.word_at(i)
                == before[i] by {
                assert(self.word_at(i) == grown.word_at(i));
            }
            assert(self@ =~= before.update(addr as int, val));
        }
        Ok(())
    }
}

/// Reading an address after writing `v` there gives `v` back, whatever the
/// byte order of the memory.
pub proof fn law_write_then_read<T: Word>(before: Memory<T>, after: Memory<T>, addr: usize, v: T)
    requires
        before.valid_addr(addr as int),
        after.capacity_limit() == before.capacity_limit(),
        after@ == before@.update(addr as int, v),
    ensures
        after.valid_addr(addr as int),
        after@[addr as int] == v,
{
    assert(before@.len() == before.capacity_limit());
}

/// Address 0 and the capacity limit itself are never valid; the address just
/// below the limit is, for any memory of more than one address.
pub proof fn law_address_bounds<T: Word>(m: Memory<T>)
    ensures
        !m.valid_addr(0),
        !m.valid_addr(m.capacity_limit() as int),
        m.capacity_limit() > 1 ==> m.valid_addr(m.capacity_limit() - 1),
        m@.len() == m.capacity_limit(),
{
}

} // verus!
