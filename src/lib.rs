//! Build-time constant generation: a declaration `VIS? const NAME: TYPE = "SPEC";`
//! is parsed from tokens, its source specifier resolved (as a literal or as the
//! name of an environment variable), the value checked against the declared
//! primitive numeric type, and a fixed constant declaration emitted.

pub mod outside;

pub mod token;
pub mod diagnostic;
pub mod declaration;
pub mod numeric;
pub mod generate;
pub mod laws;
