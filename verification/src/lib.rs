//! Assembler for a small 16-bit instruction set: source text is parsed into a
//! symbolic program, laid out, resolved, evaluated and packed into machine words.

pub mod assembler;
pub mod condition;
pub mod definition;
pub mod encode;
pub mod eval;
pub mod immediate;
pub mod instruction;
pub mod keywords;
pub mod label;
pub mod layout;
pub mod lexical;
pub mod opcode;
pub mod operand;
pub mod output;
pub mod parser;
pub mod port;
pub mod print;
pub mod register;
pub mod resolve;
pub mod syntax;
pub mod tokens;
