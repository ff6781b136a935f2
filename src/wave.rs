use vstd::prelude::*;

verus! {

/// The elementary periodic function that a wave component evaluates.
#[derive(Clone, Copy, Debug, PartialEq, Eq, Structural)]
pub enum PeriodicFunction {
    Sin,
    Cos,
}

impl PeriodicFunction {
    /// The label shown for this kind of wave.
    pub open spec fn label_spec(self) -> Seq<char> {
        match self {
            PeriodicFunction::Sin => "Sin"@,
            PeriodicFunction::Cos => "Cos"@,
        }
    }

    /// Returns the display label of the wave kind: `"Sin"` or `"Cos"`.
    pub fn label(&self) -> (r: &'static str)
        ensures
            r@ == self.label_spec(),
    {
        match self {
            PeriodicFunction::Sin => "Sin",
            PeriodicFunction::Cos => "Cos",
        }
    }
}

impl Default for PeriodicFunction {
    /// A freshly added component is a sine wave.
    fn default() -> (r: Self)
        ensures
            r == PeriodicFunction::Sin,
    {
        PeriodicFunction::Sin
    }
}

} // verus!
