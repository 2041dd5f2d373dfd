//! An append-only SSA intermediate representation: identifiers, operations,
//! terminators, a cursor-driven module builder, and a textual printer.
pub mod ir;
pub mod text;

pub use ir::{
    BasicBlock, BasicBlockId, BlockView, BuilderView, Function, FunctionId, FunctionView,
    InstructionView, Module, ModuleBuilder, ModuleView, Operation, Terminator, ToIntegerOperation,
    Type, Value, VariableId, VariableView,
};
