//! The console capability: one blocking byte read and two byte-oriented
//! writes.  These are the only points where the machine touches the host,
//! and nothing is assumed of them: every caller states what holds whatever
//! the console does.

use vstd::prelude::*;
use std::io::Read;
use std::io::Write;

verus! {

/// Relies on `std::io::Stdin::read_exact`: blocks until one byte is read
/// from standard input.  Returns `None` at end of input or on failure.
#[verifier::external_body]
pub(crate) fn read_console_byte() -> (r: Option<u8>) {
    let mut buffer: [u8; 1] = [0];
    match std::io::stdin().read_exact(&mut buffer) {
        Ok(()) => Some(buffer[0]),
        Err(_) => None,
    }
}

/// Relies on the `write!` macro over `std::io::Stdout`: prints the byte as
/// one character (its Latin-1 reading).  Returns whether the write
/// succeeded.
#[verifier::external_body]
pub(crate) fn write_console_byte(b: u8) -> (r: bool) {
    write!(std::io::stdout(), "{}", b as char).is_ok()
}

/// Relies on the `write!` macro over `std::io::Stdout`: prints the text as
/// it stands.  Returns whether the write succeeded.
#[verifier::external_body]
pub(crate) fn write_console_text(s: &str) -> (r: bool) {
    write!(std::io::stdout(), "{}", s).is_ok()
}

/// Writes every byte of `bytes` to the console as a character, in order.
/// Returns false as soon as one write fails.
pub(crate) fn write_console_chars(bytes: &Vec<u8>) -> (r: bool) {
    let mut i: usize = 0;
    while i < bytes.len()
        invariant
            i <= bytes@.len(),
        decreases bytes@.len() - i,
    {
        if !write_console_byte(bytes[i]) {
            return false;
        }
        i = i + 1;
    }
    true
}

} // verus!
