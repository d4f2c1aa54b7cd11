use vstd::prelude::*;

use super::coder_progress::CoderProgress;

verus! {

/// Converts one sequence of code units into another sequence of code units.
///
/// Implementors use `input_index` and `output_index` as absolute positions in the
/// supplied slices. Returned progress counters are relative counts from those positions.
pub trait Coder<Input, Output> {
    /// Error reported for semantic conversion failures.
    type Error;

    /// Returns an upper bound for output units produced from `input_len` units, or
    /// `None` when no finite bound is known.
    fn max_output_len(&self, input_len: usize) -> Option<usize>;

    /// Resets state retained between conversion calls. Stateless coders keep this no-op.
    fn reset(&mut self) {
    }

    /// Converts input units into output units and reports how many units were consumed
    /// and produced and why conversion stopped.
    fn convert(
        &mut self,
        input: &[Input],
        input_index: usize,
        output: &mut [Output],
        output_index: usize,
    ) -> Result<CoderProgress, Self::Error>;

    /// Flushes any buffered output after input conversion is complete. Stateless coders
    /// keep this default, which writes nothing and reports completion.
    fn finish(&mut self, output: &mut [Output], output_index: usize) -> (r: Result<
        CoderProgress,
        Self::Error,
    >)
        default_ensures
            r == Ok::<CoderProgress, Self::Error>(CoderProgress::spec_complete(0, 0)),
            final(output)@ == old(output)@,
    {
        Ok(CoderProgress::complete(0, 0))
    }
}

} // verus!
