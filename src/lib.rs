//! Runtime core of an embeddable Starlark interpreter: the value model and
//! the calling convention that binds call-site arguments to a native
//! function's declared parameters.
use vstd::prelude::*;

pub mod capability;
pub mod convert;
pub mod freeze;
pub mod function;
pub mod named_map;
pub mod parser;
pub mod render;
pub mod text;
pub mod value;

pub use convert::FromValue;
pub use function::{
    FunctionArg, FunctionError, FunctionId, FunctionParameter, FunctionType, NativeFunction,
    RuntimeError, WrappedMethod,
};
pub use parser::ParameterParser;
pub use render::{repr, to_str};
pub use value::{Value, ValueError};

verus! {

} // verus!
