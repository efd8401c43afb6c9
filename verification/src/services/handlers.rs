//! The value types of the protocol handlers: the error body every handler
//! answers with, and the color types of map rendering.

use vstd::prelude::*;

verus! {

/// The error body of a failed request: a machine-readable error name and a
/// human-readable message.
#[derive(Clone, Debug)]
pub struct ErrorResponse {
    pub error: String,
    pub message: String,
}

impl ErrorResponse {
    /// Builds an error body.
    pub fn new(error: String, message: String) -> (r: ErrorResponse)
        ensures
            r.error@ == error@,
            r.message@ == message@,
    {
        ErrorResponse { error, message }
    }

    /// Whether this body carries the given error name and message.
    pub fn matches_error(&self, error: &String, message: &String) -> (r: bool)
        ensures
            r == (self.error@ == error@ && self.message@ == message@),
    {
        self.error.eq(error) && self.message.eq(message)
    }
}

/// A 32-bit color with an alpha value, as red, green, blue, alpha.
#[derive(Clone, Copy, Debug, PartialEq, Eq, Structural, Hash)]
pub struct RgbaColor {
    pub red: u8,
    pub green: u8,
    pub blue: u8,
    pub alpha: u8,
}

impl RgbaColor {
    /// Builds a color from its four channels.
    pub fn new(red: u8, green: u8, blue: u8, alpha: u8) -> (r: RgbaColor)
        ensures
            r.red == red && r.green == green && r.blue == blue && r.alpha == alpha,
    {
        RgbaColor { red, green, blue, alpha }
    }
}

/// A palette in wire form: color per class value, keyed by the value's
/// decimal string.
#[derive(Clone, Debug)]
pub struct SerializablePalette {
    pub colors: Vec<(String, RgbaColor)>,
}

} // verus!
