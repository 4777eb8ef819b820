pub mod instr_call;
pub mod instr_for;
pub mod instr_load;
pub mod instr_misc;
pub mod instr_ops;
pub mod instr_table;
pub mod instr_upval;
pub mod instruction;
pub mod opcodes;
