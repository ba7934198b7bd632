//! Grease: a scripting language with a lexer, parser, linter and bytecode tools,
//! and the module, package and platform bookkeeping around them.

pub mod text;
pub mod version_compat;
pub mod module_errors;
pub mod leb128;
pub mod bytecode;
pub mod webassembly;
pub mod performance;
pub mod module_loader;
pub mod token;
pub mod lexer;
pub mod ast;
pub mod linter;
pub mod parser;
pub mod compiler;
pub mod grease;
pub mod jit;
pub mod lsp_workspace;
pub mod package;
pub mod package_manager;
pub mod native_system;
pub mod vm;
pub mod module_communication;
pub mod ui;
