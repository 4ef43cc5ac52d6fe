//! The contract of a request or response stream: cancellation, the head of a
//! request, and bodies that are held in memory.
pub mod body;
pub mod cancel;
pub mod head;
