pub mod binding;
pub mod change;
pub mod contract;
pub mod filter;
pub mod history;
pub mod history_laws;
pub mod issue;
pub mod operation;
pub mod ops;
pub mod opset;
pub mod rgb20;
pub mod specs;
pub mod state;
pub mod stream;
