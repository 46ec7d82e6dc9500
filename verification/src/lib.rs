//! A small conversion service with a verified core: decimal/hexadecimal
//! conversion of 64-bit signed integers, route dispatch for the HTTP
//! surface, HTML escaping for the greeting page, and error mapping.

pub mod convert;
pub mod response;
pub mod router;
