use vstd::prelude::*;

/// Identities of definitions and generic parameters.
pub mod ids;
/// Types, their mathematical values, and copies that keep them.
pub mod types;
/// Substitutions of generic parameters.
pub mod subst;
/// Inference variables inside types: where they occur, and their replacement.
pub mod type_vars;
/// Application of type lambdas and constructor patterns.
pub mod normalize;
/// Impls, trait bounds and method call targets as selection sees them.
pub mod hir;
/// Typed expressions that callable lowering reads and builds.
pub mod hir_expr;
/// Matching receiver and type patterns against types.
pub mod matching;
/// Laws of inference and matching.
pub mod matching_laws;
/// Splitting source text into tokens.
pub mod lexer;
/// Syntax trees and their mathematical values.
pub mod ast;
/// Parsing expressions, blocks, declarations and modules.
pub mod parser;
/// `do` blocks: control-flow checks and expansion into `bind` calls.
pub mod do_expr;
/// Printing syntax trees.
pub mod fmt;
/// New projects and command outcomes.
pub mod project;
/// Calls of function values through the callable protocols.
pub mod callable;
/// Inference of the type arguments of generalized method calls.
pub mod bindings;
/// Generic arguments a monomorphized function learns from its callable bounds.
pub mod mono_bounds;
/// Fresh instances of the inference variables of a selected callable member.
pub mod callable_instance;
/// Finding the callable member of a receiver, and lowering calls through it.
pub mod callable_lowering;
/// Checking calls of values: direct calls of function values, and calls
/// through the callable protocols.
pub mod value_call;

verus! {

} // verus!
