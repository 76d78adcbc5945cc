//! Parser combinators.
pub mod alt;
pub mod and;
pub mod and_is;
pub mod cut;
pub mod delim_nested;
pub mod delimited;
pub mod ignore;
pub mod iter;
pub mod peek;
pub mod separated;
pub mod keyword;
pub mod left_assoc;
pub mod map;
pub mod not;
pub mod or;
pub mod span;
pub mod ws;

pub use alt::Alt;
pub use and::And;
pub use and_is::AndIs;
pub use cut::{Commit, Cut};
pub use delim_nested::{Braced, Bracketed, DelimNested, Parenthesized};
pub use delimited::{Delimited, DelimitedExact, Padded, PaddedExact};
pub use iter::{iter, PIter};
pub use ignore::{Between, Count, Forget, Ignore, IgnoreMany, IgnoreMany1, Preceded, Terminated, Trim};
pub use peek::Peek;
pub use separated::{
    CommaSeparated, CommaSeparated0, Separated, Separated0, SeparatedIter, SeparatedIterState,
};
pub use or::{Either, Or};
pub use left_assoc::LeftAssoc;
pub use map::{IntoMap, MapFunction, Mapped};
pub use not::Not;
pub use keyword::{IdentBoundary, Keyword, KeywordBoundary, Kw};
pub use span::{Span, SpanExt};
pub use ws::{Ws, WsExt};
