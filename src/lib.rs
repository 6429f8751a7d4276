pub mod actions;
pub mod completion;
pub mod document;
pub mod documentation;
pub mod extract;
pub mod grammar;
pub mod pattern;
pub mod php;
pub mod store;
pub mod syntax;
pub mod text;
pub mod tokens;
pub mod yaml;
