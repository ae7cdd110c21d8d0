//! Context-sensitive re-lexing of angle-bracket operators.
//!
//! A greedy scanner reads `<<` where a type argument list needs two `<`
//! tokens. The lexer here can narrow the token it just produced back to a
//! single `<` or `>`, rewinding its cursor so that ordinary scanning picks up
//! the characters it gave back.
pub mod kind;
pub mod token;
pub mod scan;
pub mod source;
pub mod lexer;
pub mod module_record;
pub mod require_public_doc;
