//! Line-extraction primitive for RESP-style (REdis Serialization Protocol)
//! wire decoding: scan a byte buffer from a caller-owned cursor for the next
//! CRLF-terminated line, hand the payload back, and advance the cursor past
//! the terminator.

pub mod resp;
pub mod resp_result;
