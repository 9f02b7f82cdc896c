//! An interpreter for line-oriented interactive stories.
//!
//! A script is a list of lines, and each line is a command that its first
//! character names: a label, a jump, a conditional, an assignment, a menu,
//! a typed input, a pause, or text to put out. `renderer::Renderer` is the
//! machine that runs a script. It does no input or output and no floating
//! point of its own. A host drives it: it hands an `Event` to
//! `Renderer::step`, performs the `Action`s that come back, and looks at
//! `Renderer::waiting` to see what the story needs next: nothing, a line
//! from the reader, or the arithmetic on the texts of a condition or of an
//! assignment.
//!
//! `semantics` says what a step does, as a function on mathematical states,
//! and `laws` proves what holds of every story. The other modules hold the
//! parts: `text` and `numeral` for texts and numerals, `tokens` for the
//! tokenizers, `store` for variables and labels, `interpolate` and
//! `substitution` for the references to variables, `expr` for relational
//! expressions, `script` for what a script declares, `fault` for the errors
//! that end a story, and `machine` for the kinds of lines, events and
//! actions.

pub mod expr;
pub mod fault;
pub mod interpolate;
pub mod laws;
pub mod machine;
pub mod numeral;
pub mod renderer;
pub mod script;
pub mod semantics;
pub mod store;
pub mod substitution;
pub mod text;
pub mod tokens;
