//! Token budgets for agents that grow cheaper with experience: a hard budget
//! with reservations, a ledger of every spend, abstraction discounts tied to
//! the agent's level, and routines whose cost decays with use.

pub mod budget;
pub mod category;
pub mod economy;
pub mod ledger;
pub mod muscle;
pub mod savings;
pub mod text;
pub mod transaction;

pub use budget::TokenBudget;
pub use category::TokenCategory;
pub use economy::{TaskTokenResult, TokenEconomy};
pub use ledger::{TokenEfficiencyReport, TokenLedger, TrendPoint};
pub use muscle::{MuscleMemory, Routine};
pub use savings::AbstractionSavings;
pub use transaction::{uuid_from_nanos, uuid_v4, TokenTransaction};
