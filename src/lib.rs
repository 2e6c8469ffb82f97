//! Package search across the system repositories, the community repository
//! and a sandboxed-application store: reading each tool's output into
//! records, assembling the three lists, and rendering the report for a pager.

pub mod text;
pub mod record;
pub mod parse;
pub mod source;
pub mod render;
pub mod aggregate;
