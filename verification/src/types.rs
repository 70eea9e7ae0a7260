//! Core data types.

use vstd::prelude::*;

verus! {

/// Represents pixel data types
#[derive(Debug, Clone, Copy, PartialEq, Eq, Structural)]
pub enum DataType {
    /// Unsigned 8-bit integer
    U8,
    /// Unsigned 16-bit integer
    U16,
    /// Unsigned 32-bit integer
    U32,
    /// Signed 8-bit integer
    I8,
    /// Signed 16-bit integer
    I16,
    /// Signed 32-bit integer
    I32,
    /// 32-bit floating point
    F32,
    /// 64-bit floating point
    F64,
}

impl DataType {
    /// Bytes that one sample of this type takes.
    pub open spec fn spec_size(self) -> nat {
        match self {
            DataType::U8 | DataType::I8 => 1,
            DataType::U16 | DataType::I16 => 2,
            DataType::U32 | DataType::I32 | DataType::F32 => 4,
            DataType::F64 => 8,
        }
    }

    /// The name of this type as text.
    pub open spec fn spec_name(self) -> Seq<char> {
        match self {
            DataType::U8 => "U8"@,
            DataType::U16 => "U16"@,
            DataType::U32 => "U32"@,
            DataType::I8 => "I8"@,
            DataType::I16 => "I16"@,
            DataType::I32 => "I32"@,
            DataType::F32 => "F32"@,
            DataType::F64 => "F64"@,
        }
    }

    /// Returns the size in bytes for this data type
    pub fn size(&self) -> (n: usize)
        ensures
            n == self.spec_size(),
    {
        match self {
            DataType::U8 | DataType::I8 => 1,
            DataType::U16 | DataType::I16 => 2,
            DataType::U32 | DataType::I32 | DataType::F32 => 4,
            DataType::F64 => 8,
        }
    }

    /// Returns the name of this data type
    pub fn name(&self) -> (s: &'static str)
        ensures
            s@ == self.spec_name(),
    {
        match self {
            DataType::U8 => "U8",
            DataType::U16 => "U16",
            DataType::U32 => "U32",
            DataType::I8 => "I8",
            DataType::I16 => "I16",
            DataType::I32 => "I32",
            DataType::F32 => "F32",
            DataType::F64 => "F64",
        }
    }
}

/// Represents image dimensions
#[derive(Debug, Clone, Copy, PartialEq, Eq, Structural)]
pub struct Dimensions {
    /// Width in pixels
    pub width: u64,
    /// Height in pixels
    pub height: u64,
}

impl Dimensions {
    /// Creates new dimensions
    pub fn new(width: u64, height: u64) -> (d: Self)
        ensures
            d.width == width,
            d.height == height,
    {
        Self { width, height }
    }

    /// Returns the total number of pixels
    pub fn pixel_count(&self) -> (n: u64)
        requires
            self.width * self.height <= u64::MAX,
        ensures
            n == self.width * self.height,
    {
        self.width * self.height
    }
}

} // verus!
