//! The calculator tool's description. Its arithmetic is on `f64`.

use vstd::prelude::*;

verus! {

/// Basic arithmetic on two numbers.
pub struct CalculatorTool;

impl CalculatorTool {
    /// The tool's name.
    pub fn name(&self) -> (r: &'static str)
        ensures
            r@ == "calculator"@,
    {
        "calculator"
    }

    /// The tool's description for the model.
    pub fn description(&self) -> (r: &'static str)
        ensures
            r@ == "Perform basic arithmetic operations: add, subtract, multiply, divide."@,
    {
        "Perform basic arithmetic operations: add, subtract, multiply, divide."
    }
}

} // verus!
