pub mod body;
pub mod cfg;
pub mod classfile;
pub mod descriptor;
pub mod error;
pub mod expr;
pub mod instructions;
pub mod names;
pub mod stack_to_var;
pub mod transform;
pub mod types;
pub mod unit;
