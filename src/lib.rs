// Finds lines that look like regulated personal or health data, or that carry
// review markers, in a tree of text files, and drives the dialogue that opens
// a chosen finding in an editor.
pub mod classify;
pub mod dispatch;
pub mod scan;
pub mod select;
pub mod text;
