//! Tables of function references.
use crate::address::FuncAddr;
use vstd::prelude::*;

verus! {

/// Why a table refused an access.
#[derive(Clone, Copy, Debug, PartialEq, Eq, Structural)]
pub enum Error {
    /// The region does not lie inside the table.
    OutOfBounds,
}

/// What a table holds: one slot per element, empty until it is set.
pub struct TableView {
    pub elements: Seq<Option<FuncAddr>>,
    pub initial: usize,
    pub max: Option<usize>,
}

impl TableView {
    /// Whether `size` slots from `offset` on lie inside the table.
    pub open spec fn fits(self, offset: int, size: int) -> bool {
        offset + size <= self.elements.len()
    }

    /// The slots after `data` was written at `offset`.
    pub open spec fn initialized(self, offset: int, data: Seq<FuncAddr>) -> Seq<Option<FuncAddr>> {
        Seq::new(
            self.elements.len(),
            |i: int|
                if offset <= i < offset + data.len() {
                    Some(data[i - offset])
                } else {
                    self.elements[i]
                },
        )
    }
}

/// A table: its slots, and the limits it was declared with.
pub struct TableInstance {
    buffer: Vec<Option<FuncAddr>>,
    pub initial: usize,
    pub max: Option<usize>,
}

impl View for TableInstance {
    type V = TableView;

    closed spec fn view(&self) -> TableView {
        TableView { elements: self.buffer@, initial: self.initial, max: self.max }
    }
}

impl TableInstance {
    /// A table of `initial` empty slots.
    pub fn new(initial: usize, max: Option<usize>) -> (t: Self)
        ensures
            t@.elements == Seq::new(initial as nat, |i: int| None::<FuncAddr>),
            t@.initial == initial,
            t@.max == max,
    {
        let mut buffer: Vec<Option<FuncAddr>> = Vec::new();
        while buffer.len() < initial
            invariant
                buffer@.len() <= initial,
                forall|j: int| 0 <= j < buffer@.len() ==> buffer@[j] is None,
            decreases initial - buffer@.len(),
        {
            buffer.push(None);
        }
        let t = TableInstance { buffer, initial, max };
        assert(t@.elements =~= Seq::new(initial as nat, |i: int| None::<FuncAddr>));
        t
    }

    pub fn initial(&self) -> (n: usize)
        ensures
            n == self@.initial,
    {
        self.initial
    }

    pub fn max(&self) -> (n: Option<usize>)
        ensures
            n == self@.max,
    {
        self.max
    }

    /// The number of slots the table has now.
    pub fn buffer_len(&self) -> (n: usize)
        ensures
            n == self@.elements.len(),
    {
        self.buffer.len()
    }

    /// The function in a slot; `None` where the slot is empty or the index
    /// lies outside the table.
    pub fn get_at(&self, index: usize) -> (r: Option<FuncAddr>)
        ensures
            r == if index < self@.elements.len() {
                self@.elements[index as int]
            } else {
                None
            },
    {
        if index < self.buffer.len() {
            self.buffer[index]
        } else {
            None
        }
    }

    /// Accepts a region that lies inside the table and refuses any other.
    pub fn validate_region(&self, offset: usize, size: usize) -> (r: Result<(), Error>)
        ensures
            r == if self@.fits(offset as int, size as int) {
                Ok::<(), Error>(())
            } else {
                Err::<(), Error>(Error::OutOfBounds)
            },
    {
        if size <= self.buffer.len() && offset <= self.buffer.len() - size {
            Ok(())
        } else {
            Err(Error::OutOfBounds)
        }
    }

    /// Sets the slots from `offset` on to the functions of `data`, or
    /// refuses and leaves the table as it was where they overrun it.
    pub fn initialize(&mut self, offset: usize, data: &Vec<FuncAddr>) -> (r: Result<(), Error>)
        ensures
            final(self)@.initial == old(self)@.initial,
            final(self)@.max == old(self)@.max,
            old(self)@.fits(offset as int, data@.len() as int) ==> r is Ok
                && final(self)@.elements == old(self)@.initialized(offset as int, data@),
            !old(self)@.fits(offset as int, data@.len() as int) ==> r == Err::<(), Error>(
                Error::OutOfBounds,
            ) && final(self)@ == old(self)@,
    {
        match self.validate_region(offset, data.len()) {
            Err(e) => {
                return Err(e);
            },
            Ok(()) => {},
        }
        let mut i: usize = 0;
        while i < data.len()
            invariant
                i <= data@.len(),
                offset + data@.len() <= self.buffer@.len(),
                self.buffer@.len() == old(self).buffer@.len(),
                self.initial == old(self).initial,
                self.max == old(self).max,
                forall|j: int|
                    0 <= j < self.buffer@.len() ==> self.buffer@[j] == if offset <= j < offset
                        + i {
                        Some(data@[j - offset])
                    } else {
                        old(self).buffer@[j]
                    },
            decreases data@.len() - i,
        {
            assert(offset + i < self.buffer.len());
            self.buffer[offset + i] = Some(data[i]);
            i += 1;
        }
        assert(self@.elements =~= old(self)@.initialized(offset as int, data@));
        Ok(())
    }
}

} // verus!
