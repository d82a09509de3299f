//! Keys on the terminal.
use vstd::prelude::*;

verus! {

/// A key, as far as the driver tells keys apart.
#[derive(Debug, PartialEq, Eq, Clone, Copy)]
pub enum KeyName {
    Char(char),
    Enter,
    Backspace,
    Other,
}

/// A key event.
#[derive(Debug, PartialEq, Eq, Clone, Copy)]
pub struct Key {
    /// The key went down; it was not released or repeated.
    pub press: bool,
    pub control: bool,
    pub alt: bool,
    pub name: KeyName,
}

} // verus!
