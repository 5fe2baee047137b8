use vstd::prelude::*;

verus! {

/// The two encodings of a program or a result: structured text, or a compact
/// binary form with the same schema.
#[derive(Debug, Clone, Copy, PartialEq, Eq, Structural)]
pub enum DataType {
    JSON,
    BIN,
}

impl DataType {
    /// The code of the encoding at a foreign-function boundary.
    pub open spec fn spec_code(self) -> u32 {
        match self {
            DataType::JSON => 0,
            DataType::BIN => 1,
        }
    }

    /// The encoding of a code from a foreign-function boundary.
    pub fn from_code(code: u32) -> (r: Option<DataType>)
        ensures
            code < 2 <==> r is Some,
            r matches Some(t) ==> t.spec_code() == code,
    {
        match code {
            0 => Some(DataType::JSON),
            1 => Some(DataType::BIN),
            _ => None,
        }
    }
}

/// A program or a result in one of the two encodings.
#[derive(Debug, Clone, PartialEq)]
pub enum SerializedData {
    JSON(String),
    BIN(Vec<u8>),
}

impl SerializedData {
    /// The encoding of the data.
    pub fn data_type(&self) -> (r: DataType)
        ensures
            r == (if self is JSON {
                DataType::JSON
            } else {
                DataType::BIN
            }),
    {
        match self {
            SerializedData::JSON(_) => DataType::JSON,
            SerializedData::BIN(_) => DataType::BIN,
        }
    }
}

} // verus!
