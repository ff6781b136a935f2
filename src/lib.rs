//! Building blocks of a signal synthesizer and its spectrum: the closed set
//! of wave kinds, the sampling of a sum of wave components, and a radix-2
//! Cooley–Tukey transform. The sampling order, the summation and the
//! transform's recursion and data movement are verified independently of the
//! scalar arithmetic, which the caller supplies as closures.

mod sampling;
mod spectrum;
mod transform;
mod wave;

pub use sampling::{sample_len, synthesize_with};
pub use spectrum::spectrum_with;
pub use transform::{
    cooley_tukey, is_power_of_two, split_even_odd, transform_with, TransformError,
};
pub use wave::PeriodicFunction;
