//! Finite state machine toolkit.
//!
//! A machine is described in a compact, diagram-like text. `parse_fsm`
//! turns such a text into models, `FsmDefinition::validate` checks a
//! model, and `generate_rust_code_with_target` emits the source text of
//! the machine for one of three architectures.
//!
//! - `fsm`: the model, its validation and its events.
//! - `parser`: the description language.
//! - `table`: the transition table of a model.
//! - `machine`: what a model means at run time, event by event.
//! - `codegen`: the code generator.
//! - `simulator`, `diagram`, `levels`, `editor`: helpers for tools that
//!   show, step through and edit machines.
//! - `text`, `lists`: strings as sequences of characters, and lists seen
//!   through the views of their elements.

pub mod text;
pub mod lists;
pub mod fsm;
pub mod parser;
pub mod table;
pub mod machine;
pub mod codegen;
pub mod simulator;
pub mod diagram;
pub mod levels;
pub mod editor;
pub mod export;

pub use crate::codegen::{
    generate, generate_rust_code, generate_rust_code_with_target, CodegenTarget,
};
pub use crate::fsm::{
    Action, ChoiceBranch, ChoicePoint, Event, FsmContext, FsmDefinition, Guard, State, StateType,
    Timer, TimerMode, Transition, TransitionKind,
};
pub use crate::parser::{parse_fsm, FsmParser, ParseError};
