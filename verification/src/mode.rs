//! The modes in which an audio file can be opened.

use vstd::prelude::*;

verus! {

/// How a file is opened: for reading, for writing, or for both.
#[derive(Clone, Copy, Debug, PartialEq, Eq, Structural)]
pub enum SFM {
    READ,
    WRITE,
    RDWR,
}

impl SFM {
    /// The number the codec knows this mode by.
    pub open spec fn spec_code(self) -> int {
        match self {
            SFM::READ => 0x10,
            SFM::WRITE => 0x20,
            SFM::RDWR => 0x30,
        }
    }

    /// The number the codec knows this mode by.
    pub fn code(self) -> (c: i32)
        ensures
            c == self.spec_code(),
    {
        match self {
            SFM::READ => 0x10,
            SFM::WRITE => 0x20,
            SFM::RDWR => 0x30,
        }
    }
}

} // verus!
