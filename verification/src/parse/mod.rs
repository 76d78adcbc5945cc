//! The `Parse` trait, offset tracking and complete-input entry points.
pub mod traits;
pub mod offset;
pub mod complete;

pub use traits::{Nested, Parse};
pub use complete::{
    parse_complete, parse_complete_input, parse_complete_input_spanned, parse_complete_spanned,
};

pub use offset::{
    current_parse_offset, with_parse_offset_scope, with_parse_offset_scope_if_missing,
    with_parse_recursion_guard, ContextModel, ParseOffsetAnchor, ParseOffsetContext,
    ParseOffsetInput,
};
