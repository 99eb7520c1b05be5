//! Method codes carried by an `HttpEvent`.

use vstd::prelude::*;

verus! {

pub const GET: u8 = 0;

pub const POST: u8 = 1;

pub const PUT: u8 = 2;

pub const DELETE: u8 = 3;

pub const PATCH: u8 = 4;

pub const HEAD: u8 = 5;

pub const OPTIONS: u8 = 6;

pub const UNKNOWN: u8 = 255;

} // verus!
