//! A register machine with eight 8-bit registers and a zero flag, the
//! assembler that reads its programs from text, and the laws that its
//! instructions obey.

pub mod lemmas;
pub mod machine;
pub mod parser;
pub mod round_trip;
pub mod text;
