use vstd::prelude::*;

use super::coder_status::CoderStatus;

verus! {

/// Counts how much work a [`crate::Coder`] completed before returning.
#[derive(Clone, Copy, Debug, Eq, PartialEq, Structural)]
pub struct CoderProgress {
    /// Stop reason reported by the coder.
    status: CoderStatus,
    /// Number of input units consumed from the requested input index.
    read: usize,
    /// Number of output units written from the requested output index.
    written: usize,
}

impl CoderProgress {
    /// The stop reason.
    pub closed spec fn spec_status(self) -> CoderStatus {
        self.status
    }

    /// The number of input units consumed.
    pub closed spec fn spec_read(self) -> usize {
        self.read
    }

    /// The number of output units written.
    pub closed spec fn spec_written(self) -> usize {
        self.written
    }

    /// The progress value with the given status and counters.
    pub closed spec fn spec_new(status: CoderStatus, read: usize, written: usize) -> Self {
        CoderProgress { status, read, written }
    }

    /// A completed progress value.
    pub open spec fn spec_complete(read: usize, written: usize) -> Self {
        Self::spec_new(CoderStatus::Complete, read, written)
    }

    /// A need-input progress value.
    pub open spec fn spec_need_input(
        read: usize,
        written: usize,
        index: usize,
        required: usize,
        available: usize,
    ) -> Self {
        Self::spec_new(
            CoderStatus::NeedInput { input_index: index, required, available },
            read,
            written,
        )
    }

    /// A need-output progress value.
    pub open spec fn spec_need_output(
        read: usize,
        written: usize,
        index: usize,
        required: usize,
        available: usize,
    ) -> Self {
        Self::spec_new(
            CoderStatus::NeedOutput { output_index: index, required, available },
            read,
            written,
        )
    }

    /// The additional unit count required by the status (`0` when complete).
    pub open spec fn spec_required(self) -> usize {
        match self.spec_status() {
            CoderStatus::Complete => 0,
            CoderStatus::NeedInput { required, .. } => required,
            CoderStatus::NeedOutput { required, .. } => required,
        }
    }

    /// The boundary index of the status, if any.
    pub open spec fn spec_index(self) -> Option<usize> {
        match self.spec_status() {
            CoderStatus::Complete => None,
            CoderStatus::NeedInput { input_index, .. } => Some(input_index),
            CoderStatus::NeedOutput { output_index, .. } => Some(output_index),
        }
    }

    /// The units available at the status boundary (`0` when complete).
    pub open spec fn spec_available(self) -> usize {
        match self.spec_status() {
            CoderStatus::Complete => 0,
            CoderStatus::NeedInput { available, .. } => available,
            CoderStatus::NeedOutput { available, .. } => available,
        }
    }

    /// Creates a progress value carrying the supplied status and counters.
    #[verifier::when_used_as_spec(spec_new)]
    pub fn new(status: CoderStatus, read: usize, written: usize) -> (r: Self)
        ensures
            r == Self::spec_new(status, read, written),
    {
        Self { status, read, written }
    }

    /// Creates a progress value whose status is [`CoderStatus::Complete`].
    #[verifier::when_used_as_spec(spec_complete)]
    pub fn complete(read: usize, written: usize) -> (r: Self)
        ensures
            r == Self::spec_complete(read, written),
    {
        Self::new(CoderStatus::Complete, read, written)
    }

    /// Creates a progress value whose status is [`CoderStatus::NeedInput`] at input index
    /// `index`.
    #[verifier::when_used_as_spec(spec_need_input)]
    pub fn need_input(
        read: usize,
        written: usize,
        index: usize,
        required: usize,
        available: usize,
    ) -> (r: Self)
        ensures
            r == Self::spec_need_input(read, written, index, required, available),
    {
        Self::new(CoderStatus::NeedInput { input_index: index, required, available }, read, written)
    }

    /// Creates a progress value whose status is [`CoderStatus::NeedOutput`] at output
    /// index `index`.
    #[verifier::when_used_as_spec(spec_need_output)]
    pub fn need_output(
        read: usize,
        written: usize,
        index: usize,
        required: usize,
        available: usize,
    ) -> (r: Self)
        ensures
            r == Self::spec_need_output(read, written, index, required, available),
    {
        Self::new(
            CoderStatus::NeedOutput { output_index: index, required, available },
            read,
            written,
        )
    }

    /// Returns the status that stopped conversion.
    pub fn status(self) -> (r: CoderStatus)
        ensures
            r == self.spec_status(),
    {
        self.status
    }

    /// Returns the number of input units consumed, relative to the call's input index.
    pub fn read(self) -> (r: usize)
        ensures
            r == self.spec_read(),
    {
        self.read
    }

    /// Returns the number of output units written, relative to the call's output index.
    pub fn written(self) -> (r: usize)
        ensures
            r == self.spec_written(),
    {
        self.written
    }

    /// Returns the additional unit count required by the status; `0` when complete.
    pub fn required(self) -> (r: usize)
        ensures
            r == self.spec_required(),
    {
        match self.status {
            CoderStatus::Complete => 0,
            CoderStatus::NeedInput { required, .. } => required,
            CoderStatus::NeedOutput { required, .. } => required,
        }
    }

    /// Returns the input index of a need-input status, the output index of a need-output
    /// status, and `None` when complete.
    pub fn index(self) -> (r: Option<usize>)
        ensures
            r == self.spec_index(),
    {
        match self.status {
            CoderStatus::Complete => None,
            CoderStatus::NeedInput { input_index, .. } => Some(input_index),
            CoderStatus::NeedOutput { output_index, .. } => Some(output_index),
        }
    }

    /// Returns the number of units available at the status boundary; `0` when complete.
    pub fn available(self) -> (r: usize)
        ensures
            r == self.spec_available(),
    {
        match self.status {
            CoderStatus::Complete => 0,
            CoderStatus::NeedInput { available, .. } => available,
            CoderStatus::NeedOutput { available, .. } => available,
        }
    }
}

/// A progress value built from a status and two counters reports exactly those parts.
pub broadcast proof fn lemma_progress_parts(status: CoderStatus, read: usize, written: usize)
    ensures
        (#[trigger] CoderProgress::spec_new(status, read, written)).spec_status() == status,
        CoderProgress::spec_new(status, read, written).spec_read() == read,
        CoderProgress::spec_new(status, read, written).spec_written() == written,
{
}

/// A progress value is determined by its status and counts.
pub proof fn lemma_progress_from_parts(progress: CoderProgress)
    ensures
        CoderProgress::spec_new(progress.spec_status(), progress.spec_read(), progress.spec_written())
            == progress,
{
}

} // verus!
