//! Errors of the pool builder.

use vstd::prelude::*;
use vstd::string::StringExecFns;

verus! {

/// Error of a pool build.
#[derive(Debug, Clone, PartialEq, Eq)]
pub enum BuildError {
    /// No candidate card is left after filtering.
    EmptyPool,
    /// More candidates than the pool's card bitmaps can hold.
    TooManyCards(usize),
    /// A value or an interned table does not fit the compact pool.
    CapacityExceeded {
        /// Compact field or side table which cannot represent the input.
        field: &'static str,
        /// Required value or number of distinct entries.
        value: u64,
        /// Largest exactly representable value or entry count.
        max: u64,
    },
    /// Invalid parameters, with the reason.
    InvalidConfig(String),
}

impl BuildError {
    /// Human-readable description of the error.
    pub fn message(&self) -> (r: String)
        ensures
            self matches BuildError::InvalidConfig(reason) ==> r@ == "构建参数非法: "@ + reason@,
            self is EmptyPool ==> r@ == "候选卡池为空"@,
    {
        match self {
            BuildError::EmptyPool => "候选卡池为空".to_owned(),
            BuildError::TooManyCards(count) => {
                let digits = count.to_string();
                "候选卡数量超过 mask 容量: ".to_owned().concat(digits.as_str())
            },
            BuildError::CapacityExceeded { field, .. } => (*field).to_owned(),
            BuildError::InvalidConfig(reason) => "构建参数非法: ".to_owned().concat(reason.as_str()),
        }
    }
}

} // verus!
