//! Linear memories.
use vstd::prelude::*;

verus! {

/// The bytes of one page.
pub const PAGE_SIZE: usize = 65536;

/// Why a memory refused an access.
#[derive(Clone, Copy, Debug, PartialEq, Eq, Structural)]
pub enum Error {
    /// The region does not lie inside the memory.
    OutOfBounds,
}

/// What a memory holds.
pub struct MemoryView {
    pub bytes: Seq<u8>,
    pub initial: usize,
    pub max: Option<usize>,
}

impl MemoryView {
    /// Whether `size` bytes from `offset` on lie inside the memory.
    pub open spec fn fits(self, offset: int, size: int) -> bool {
        offset + size <= self.bytes.len()
    }

    /// The bytes after `data` was written at `offset`.
    pub open spec fn written(self, offset: int, data: Seq<u8>) -> Seq<u8> {
        Seq::new(
            self.bytes.len(),
            |i: int|
                if offset <= i < offset + data.len() {
                    data[i - offset]
                } else {
                    self.bytes[i]
                },
        )
    }
}

/// A memory: its bytes, and the limits it was declared with, in pages.
pub struct MemoryInstance {
    data: Vec<u8>,
    pub initial: usize,
    pub max: Option<usize>,
}

impl View for MemoryInstance {
    type V = MemoryView;

    closed spec fn view(&self) -> MemoryView {
        MemoryView { bytes: self.data@, initial: self.initial, max: self.max }
    }
}

impl MemoryInstance {
    /// A memory of `initial` pages, all bytes zero.
    pub fn new(initial: usize, max: Option<usize>) -> (m: Self)
        requires
            initial * PAGE_SIZE <= usize::MAX,
        ensures
            m@.bytes == Seq::new((initial * PAGE_SIZE) as nat, |i: int| 0u8),
            m@.initial == initial,
            m@.max == max,
    {
        let data = vec![0u8; initial * PAGE_SIZE];
        let m = MemoryInstance { data, initial, max };
        assert(m@.bytes =~= Seq::new((initial * PAGE_SIZE) as nat, |i: int| 0u8));
        m
    }

    pub fn initial(&self) -> (n: usize)
        ensures
            n == self@.initial,
    {
        self.initial
    }

    pub fn max(&self) -> (n: Option<usize>)
        ensures
            n == self@.max,
    {
        self.max
    }

    /// The number of bytes the memory holds now.
    pub fn data_len(&self) -> (n: usize)
        ensures
            n == self@.bytes.len(),
    {
        self.data.len()
    }

    /// The bytes, for a reader such as a debugger.
    pub fn raw_data(&self) -> (bytes: &Vec<u8>)
        ensures
            bytes@ == self@.bytes,
    {
        &self.data
    }

    /// Accepts a region that lies inside the memory and refuses any other.
    pub fn validate_region(&self, offset: usize, size: usize) -> (r: Result<(), Error>)
        ensures
            r == if self@.fits(offset as int, size as int) {
                Ok::<(), Error>(())
            } else {
                Err::<(), Error>(Error::OutOfBounds)
            },
    {
        if size <= self.data.len() && offset <= self.data.len() - size {
            Ok(())
        } else {
            Err(Error::OutOfBounds)
        }
    }

    /// Writes `data` at `offset`, or refuses and leaves the memory as it was
    /// where the region does not fit.
    pub fn store(&mut self, offset: usize, data: &Vec<u8>) -> (r: Result<(), Error>)
        ensures
            final(self)@.initial == old(self)@.initial,
            final(self)@.max == old(self)@.max,
            old(self)@.fits(offset as int, data@.len() as int) ==> r is Ok && final(self)@.bytes
                == old(self)@.written(offset as int, data@),
            !old(self)@.fits(offset as int, data@.len() as int) ==> r == Err::<(), Error>(
                Error::OutOfBounds,
            ) && final(self)@ == old(self)@,
    {
        match self.validate_region(offset, data.len()) {
            Err(e) => {
                return Err(e);
            },
            Ok(()) => {},
        }
        let mut i: usize = 0;
        while i < data.len()
            invariant
                i <= data@.len(),
                offset + data@.len() <= self.data@.len(),
                self.data@.len() == old(self).data@.len(),
                self.initial == old(self).initial,
                self.max == old(self).max,
                forall|j: int|
                    0 <= j < self.data@.len() ==> self.data@[j] == if offset <= j < offset + i {
                        data@[j - offset]
                    } else {
                        old(self).data@[j]
                    },
            decreases data@.len() - i,
        {
            assert(offset + i < self.data.len());
            self.data[offset + i] = data[i];
            i += 1;
        }
        assert(self@.bytes =~= old(self)@.written(offset as int, data@));
        Ok(())
    }
}

} // verus!
