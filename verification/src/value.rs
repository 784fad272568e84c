//! A type for stacks of primitive values and strings.
use crate::stack::Holds;
use vstd::pervasive::unreached;
use vstd::prelude::*;

verus! {

/// A primitive value or a string.
pub enum Value {
    Unit,
    Bool(bool),
    Char(char),
    U8(u8),
    U16(u16),
    U32(u32),
    U64(u64),
    Usize(usize),
    I8(i8),
    I16(i16),
    I32(i32),
    I64(i64),
    Isize(isize),
    Text(String),
}

impl Holds<()> for Value {
    open spec fn held(self) -> Option<()> {
        match self {
            Value::Unit => Some(()),
            _ => None,
        }
    }

    fn erase(value: ()) -> (erased: Value) {
        Value::Unit
    }

    fn recover(self) -> (value: ()) {
    }
}

impl Holds<bool> for Value {
    open spec fn held(self) -> Option<bool> {
        match self {
            Value::Bool(value) => Some(value),
            _ => None,
        }
    }

    fn erase(value: bool) -> (erased: Value) {
        Value::Bool(value)
    }

    fn recover(self) -> (value: bool) {
        match self {
            Value::Bool(value) => value,
            _ => unreached(),
        }
    }
}

impl Holds<char> for Value {
    open spec fn held(self) -> Option<char> {
        match self {
            Value::Char(value) => Some(value),
            _ => None,
        }
    }

    fn erase(value: char) -> (erased: Value) {
        Value::Char(value)
    }

    fn recover(self) -> (value: char) {
        match self {
            Value::Char(value) => value,
            _ => unreached(),
        }
    }
}

impl Holds<u8> for Value {
    open spec fn held(self) -> Option<u8> {
        match self {
            Value::U8(value) => Some(value),
            _ => None,
        }
    }

    fn erase(value: u8) -> (erased: Value) {
        Value::U8(value)
    }

    fn recover(self) -> (value: u8) {
        match self {
            Value::U8(value) => value,
            _ => unreached(),
        }
    }
}

impl Holds<u16> for Value {
    open spec fn held(self) -> Option<u16> {
        match self {
            Value::U16(value) => Some(value),
            _ => None,
        }
    }

    fn erase(value: u16) -> (erased: Value) {
        Value::U16(value)
    }

    fn recover(self) -> (value: u16) {
        match self {
            Value::U16(value) => value,
            _ => unreached(),
        }
    }
}

impl Holds<u32> for Value {
    open spec fn held(self) -> Option<u32> {
        match self {
            Value::U32(value) => Some(value),
            _ => None,
        }
    }

    fn erase(value: u32) -> (erased: Value) {
        Value::U32(value)
    }

    fn recover(self) -> (value: u32) {
        match self {
            Value::U32(value) => value,
            _ => unreached(),
        }
    }
}

impl Holds<u64> for Value {
    open spec fn held(self) -> Option<u64> {
        match self {
            Value::U64(value) => Some(value),
            _ => None,
        }
    }

    fn erase(value: u64) -> (erased: Value) {
        Value::U64(value)
    }

    fn recover(self) -> (value: u64) {
        match self {
            Value::U64(value) => value,
            _ => unreached(),
        }
    }
}

impl Holds<usize> for Value {
    open spec fn held(self) -> Option<usize> {
        match self {
            Value::Usize(value) => Some(value),
            _ => None,
        }
    }

    fn erase(value: usize) -> (erased: Value) {
        Value::Usize(value)
    }

    fn recover(self) -> (value: usize) {
        match self {
            Value::Usize(value) => value,
            _ => unreached(),
        }
    }
}

impl Holds<i8> for Value {
    open spec fn held(self) -> Option<i8> {
        match self {
            Value::I8(value) => Some(value),
            _ => None,
        }
    }

    fn erase(value: i8) -> (erased: Value) {
        Value::I8(value)
    }

    fn recover(self) -> (value: i8) {
        match self {
            Value::I8(value) => value,
            _ => unreached(),
        }
    }
}

impl Holds<i16> for Value {
    open spec fn held(self) -> Option<i16> {
        match self {
            Value::I16(value) => Some(value),
            _ => None,
        }
    }

    fn erase(value: i16) -> (erased: Value) {
        Value::I16(value)
    }

    fn recover(self) -> (value: i16) {
        match self {
            Value::I16(value) => value,
            _ => unreached(),
        }
    }
}

impl Holds<i32> for Value {
    open spec fn held(self) -> Option<i32> {
        match self {
            Value::I32(value) => Some(value),
            _ => None,
        }
    }

    fn erase(value: i32) -> (erased: Value) {
        Value::I32(value)
    }

    fn recover(self) -> (value: i32) {
        match self {
            Value::I32(value) => value,
            _ => unreached(),
        }
    }
}

impl Holds<i64> for Value {
    open spec fn held(self) -> Option<i64> {
        match self {
            Value::I64(value) => Some(value),
            _ => None,
        }
    }

    fn erase(value: i64) -> (erased: Value) {
        Value::I64(value)
    }

    fn recover(self) -> (value: i64) {
        match self {
            Value::I64(value) => value,
            _ => unreached(),
        }
    }
}

impl Holds<isize> for Value {
    open spec fn held(self) -> Option<isize> {
        match self {
            Value::Isize(value) => Some(value),
            _ => None,
        }
    }

    fn erase(value: isize) -> (erased: Value) {
        Value::Isize(value)
    }

    fn recover(self) -> (value: isize) {
        match self {
            Value::Isize(value) => value,
            _ => unreached(),
        }
    }
}

impl Holds<String> for Value {
    open spec fn held(self) -> Option<String> {
        match self {
            Value::Text(value) => Some(value),
            _ => None,
        }
    }

    fn erase(value: String) -> (erased: Value) {
        Value::Text(value)
    }

    fn recover(self) -> (value: String) {
        match self {
            Value::Text(value) => value,
            _ => unreached(),
        }
    }
}

} // verus!
