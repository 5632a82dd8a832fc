//! The ASCII characters that the canonical form is written with.
use vstd::prelude::*;

verus! {

/// `"`
pub const QUOTE: u8 = 0x22;

/// `,`
pub const COMMA: u8 = 0x2c;

/// `0`
pub const DIGIT_0: u8 = 0x30;

/// `9`
pub const DIGIT_9: u8 = 0x39;

/// `[`
pub const OPEN: u8 = 0x5b;

/// `\`
pub const BACKSLASH: u8 = 0x5c;

/// `]`
pub const CLOSE: u8 = 0x5d;

/// `a`
pub const LOWER_A: u8 = 0x61;

/// `b`
pub const LOWER_B: u8 = 0x62;

/// `f`
pub const LOWER_F: u8 = 0x66;

/// `n`
pub const LOWER_N: u8 = 0x6e;

/// `r`
pub const LOWER_R: u8 = 0x72;

/// `t`
pub const LOWER_T: u8 = 0x74;

/// `u`
pub const LOWER_U: u8 = 0x75;

} // verus!
