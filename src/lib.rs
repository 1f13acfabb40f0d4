pub mod ast;
pub mod free_variables;
pub mod lambda_lift;
pub mod lift;

pub use ast::{
    Alt, Binding, Constraint, Expr, Id, Literal, LiteralData, Module, Name, Pattern, Type,
    function_type_,
};
pub use free_variables::{abstract_module, NameSupply, SUPERCOMBINATOR_SYMBOL};
pub use lambda_lift::do_lambda_lift;
pub use lift::lift_lambdas;
