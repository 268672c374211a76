//! The integer that tracks the borrows of a value.
use vstd::prelude::*;

verus! {

/// Tracks the reads and writes of a value that is kept elsewhere.
///
/// The flag is 0 while nothing is borrowed, N > 0 while N shared borrows are
/// live, and -1 while one exclusive borrow is live. It only ever moves between
/// 0 and N, one step at a time, and between 0 and -1.
pub struct BorrowFlag {
    inner: isize,
}

impl View for BorrowFlag {
    type V = int;

    closed spec fn view(&self) -> int {
        self.inner as int
    }
}

impl BorrowFlag {
    /// The flag holds one of the values that stand for a borrow state.
    pub open spec fn wf(&self) -> bool {
        self@ >= -1
    }

    /// Initializes a new flag with no current reads and no current writer.
    pub fn new() -> (flag: Self)
        ensures
            flag@ == 0,
            flag.wf(),
    {
        BorrowFlag { inner: 0 }
    }

    /// Checks if the described value can be borrowed immutably, which it can
    /// unless it is borrowed mutably.
    pub fn can_borrow(&self) -> (yes: bool)
        ensures
            yes == (self@ >= 0),
    {
        self.inner >= 0
    }

    /// Checks if the described value can be borrowed mutably, which it can
    /// while it is not borrowed at all.
    pub fn can_borrow_mut(&self) -> (yes: bool)
        ensures
            yes == (self@ == 0),
    {
        self.inner == 0
    }

    /// Checks if the described value can be taken ownership of, which it can
    /// while it is not borrowed at all.
    pub fn can_own(&self) -> (yes: bool)
        ensures
            yes == (self@ == 0),
    {
        self.can_borrow_mut()
    }

    /// The number of live shared borrows, or -1 under an exclusive borrow.
    pub fn get(&self) -> (state: isize)
        ensures
            state == self@,
    {
        self.inner
    }

    /// Marks the start of a new read.
    pub fn borrow(&mut self)
        requires
            0 <= old(self)@ < isize::MAX,
        ensures
            final(self)@ == old(self)@ + 1,
    {
        self.inner = self.inner + 1;
    }

    /// Marks the end of an ongoing read.
    pub fn drop_borrow(&mut self)
        requires
            old(self)@ > 0,
        ensures
            final(self)@ == old(self)@ - 1,
    {
        self.inner = self.inner - 1;
    }

    /// Marks the start of a write.
    pub fn borrow_mut(&mut self)
        requires
            old(self)@ == 0,
        ensures
            final(self)@ == -1,
    {
        self.inner = -1;
    }

    /// Marks the end of a write.
    pub fn drop_borrow_mut(&mut self)
        requires
            old(self)@ == -1,
        ensures
            final(self)@ == 0,
    {
        self.inner = 0;
    }
}

} // verus!
