//! A minimal interactive command interpreter: tokenizing, the builtin
//! commands, the executable index built from the search path, and the
//! decision of what each input line does.
pub mod tokenize;
pub mod text;
pub mod path_index;
pub mod builtins;
pub mod shell;
