//! The statement builders: declaration lists and `for` statements.

pub mod declaration_exp;
pub mod for_exp;
