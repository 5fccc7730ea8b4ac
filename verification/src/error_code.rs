//! HTTP/2 error codes (RFC 7540 section 7).

use vstd::prelude::*;

verus! {

pub const NO_ERROR: u32 = 0x0;

pub const PROTOCOL_ERROR: u32 = 0x1;

pub const INTERNAL_ERROR: u32 = 0x2;

pub const FLOW_CONTROL_ERROR: u32 = 0x3;

pub const SETTINGS_TIMEOUT: u32 = 0x4;

pub const STREAM_CLOSED: u32 = 0x5;

pub const FRAME_SIZE_ERROR: u32 = 0x6;

pub const REFUSED_STREAM: u32 = 0x7;

pub const CANCEL: u32 = 0x8;

pub const COMPRESSION_ERROR: u32 = 0x9;

pub const CONNECT_ERROR: u32 = 0xa;

pub const ENHANCE_YOUR_CALM: u32 = 0xb;

pub const INADEQUATE_SECURITY: u32 = 0xc;

pub const HTTP_1_1_REQUIRED: u32 = 0xd;

} // verus!
