//! An incremental JSON recognizer: one state machine per grammar production,
//! each fed one character at a time, with the transitions of every machine
//! stated as specification functions and proved of the executable code.

pub mod array;
pub mod decode;
pub mod error;
pub mod extent;
pub mod feed;
pub mod lexis;
pub mod literal;
pub mod machine;
pub mod number;
pub mod object;
pub mod parse;
pub mod render;
pub mod round_trip;
pub mod sound;
pub mod string;
pub mod text;
pub mod value;
pub mod whitespace;

pub use crate::array::{ArrayContext, ArrayMode};
pub use crate::error::{ErrorKind, Expected, NumberFault, ParseError};
pub use crate::literal::{FalseMode, NullMode, TrueMode};
pub use crate::number::NumberContext;
pub use crate::object::{ObjectContext, ObjectMode};
pub use crate::string::{StringContext, StringMode};
pub use crate::value::Json;
