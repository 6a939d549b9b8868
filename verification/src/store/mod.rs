//! The recipe book held in memory: shared reference data, the recipes with
//! their children, the rules by which an update is reconciled with what is
//! stored, and the statements by which a store elsewhere is written.

pub mod assemble;
pub mod book;
pub mod changes;
pub mod children;
pub mod laws;
pub mod outcome;
pub mod planner;
pub mod reference;
pub mod resolver;
pub mod soundness;
pub mod state;
pub mod statements;
pub mod writing;
