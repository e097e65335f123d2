//! Code generation for scene notation.
//!
//! [`types`] is what is given, and [`codegen`], [`patch`], [`values`] and [`closure`] write the code.
//! What the code has to be is stated apart from them: [`shapes`] and [`expressions`] say what each
//! piece looks like, [`sequences`] how lists are written out, [`statements`] what patches do,
//! [`rewriting`] what becomes of closures and [`scenes`] of whole scenes; [`laws`] and [`mentions`]
//! state what holds of all of it.
pub mod closure;
pub mod codegen;
pub mod context;
pub mod expressions;
pub mod laws;
pub mod mentions;
pub mod patch;
pub mod printable;
pub mod rewriting;
pub mod scenes;
pub mod sequences;
pub mod shapes;
pub mod statements;
pub mod types;
pub mod valid;
pub mod values;
