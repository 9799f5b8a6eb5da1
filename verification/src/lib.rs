//! A parser for OpenSSH-style client configuration text.
//!
//! The input is a single in-memory document; the output is the ordered list
//! of host blocks it declares, each block holding the key/value directives
//! that follow its `Host` line, in source order.  The grammar, including the
//! rule that a line readable as a host declaration is never swallowed as a
//! directive, is stated as spec functions over `Seq<char>`, and every parsing
//! function is verified against that statement.

pub mod chars;
pub mod laws;
pub mod model;
pub mod parser;

pub use parser::{
    comment, host_block, host_line, hosts, not_comment, parse, properties, property_line,
    space_or_comment, space_or_equals, spaces_or_comments, string, Host, Property,
};
