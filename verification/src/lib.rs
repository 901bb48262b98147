//! Logic of a small robot-battle game and of the web services around it:
//! the assembler's text scanner and source parser, the assembler with its
//! labels and compile-time expressions, the instruction language,
//! the virtual machine and an early emulator, entity storage, geometry, and
//! the data the web services exchange.

pub mod assembler;
pub mod chars;
pub mod compile_time_expression;
pub mod component_system;
pub mod conversion;
pub mod ecs;
pub mod emulator;
pub mod geom;
pub mod language;
pub mod math;
pub mod parser;
pub mod strings;
pub mod text;
pub mod user_data_map;
pub mod vm;
pub mod web;
