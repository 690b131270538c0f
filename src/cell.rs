use vstd::prelude::*;

verus! {

/// One byte of data memory. Arithmetic on it wraps modulo 256.
#[derive(Default, Debug, Clone, Copy, PartialEq, Eq, Structural)]
pub struct ValueCell(pub u8);

/// The mutations a cell supports.
#[derive(Debug, Clone, Copy, PartialEq, Eq, Structural)]
pub enum ValueCellOperation {
    /// Logical shift right by one bit; the low bit is discarded.
    ShiftR,
    /// Logical shift left by one bit; the high bit is discarded.
    ShiftL,
    /// Add one, wrapping 255 to 0.
    Increment,
    /// Subtract one, wrapping 0 to 255.
    Decrement,
}

/// The value a cell holding `v` takes after `op`.
pub open spec fn changed_value(v: u8, op: ValueCellOperation) -> u8 {
    match op {
        ValueCellOperation::ShiftR => (v / 2) as u8,
        ValueCellOperation::ShiftL => ((v * 2) % 256) as u8,
        ValueCellOperation::Increment => ((v + 1) % 256) as u8,
        ValueCellOperation::Decrement => ((v + 255) % 256) as u8,
    }
}

impl ValueCell {
    /// Applies `instruction` to the cell, wrapping at the byte boundary.
    pub fn value_change(&mut self, instruction: ValueCellOperation)
        ensures
            final(self).0 == changed_value(old(self).0, instruction),
    {
        match instruction {
            ValueCellOperation::ShiftR => {
                self.0 = self.0 / 2;
            },
            ValueCellOperation::ShiftL => {
                self.0 = if self.0 < 128 {
                    self.0 * 2
                } else {
                    (self.0 - 128) * 2
                };
            },
            ValueCellOperation::Increment => {
                self.0 = if self.0 == 255 {
                    0
                } else {
                    self.0 + 1
                };
            },
            ValueCellOperation::Decrement => {
                self.0 = if self.0 == 0 {
                    255
                } else {
                    self.0 - 1
                };
            },
        }
    }

    /// Whether the cell holds zero.
    pub fn is_zero(&self) -> (r: bool)
        ensures
            r == (self.0 == 0),
    {
        self.0 == 0
    }
}

} // verus!
