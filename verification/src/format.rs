//! How sizes are written out. The notation is supplied from outside.

use vstd::prelude::*;
use vstd::string::*;
use crate::text::{decimal, push_decimal};

verus! {

/// A way of writing a number of bytes, such as raw or in binary units. It
/// gives one text for one number, whenever it is asked.
///
/// What the panels show is stated over `shown`. [`RawBytes`] is proved to
/// write what it names; a notation that is implemented outside verified code
/// is taken at its word.
pub trait ByteFormat {
    /// The text that stands for the given number of bytes.
    spec fn shown(&self, bytes: u64) -> Seq<char>;

    /// Writes out the given number of bytes.
    fn display(&self, bytes: u64) -> (text: String)
        ensures
            text@ == self.shown(bytes),
    ;
}

/// The plainest notation: the number of bytes in decimal, followed by ` b`.
#[derive(Debug, Clone, Copy, PartialEq, Eq, Structural)]
pub struct RawBytes;

impl ByteFormat for RawBytes {
    open spec fn shown(&self, bytes: u64) -> Seq<char> {
        decimal(bytes as nat) + " b"@
    }

    fn display(&self, bytes: u64) -> (text: String) {
        let mut text = String::new();
        push_decimal(&mut text, bytes as u128);
        text.append(" b");
        text
    }
}

/// What stays the same for the duration of a frame.
#[derive(Clone, Copy)]
pub struct DisplayOptions<F: ByteFormat> {
    /// The notation for sizes.
    pub byte_format: F,
}

} // verus!
