pub mod token;
pub mod lexer_spec;
pub mod lexer;
pub mod token_boundaries;
pub mod boundary;
pub mod line_index;
pub mod text;
pub mod identifier;
pub mod linter;
pub mod version;
pub mod syntax;
pub mod lint;
pub mod rules;
pub mod ignore;
pub mod ignore_index;
pub mod ide;
