//! The validated command selection and the dispatch protocol.
//!
//! A `Command` carries exactly the parameters of the transformation it
//! selects. Dispatch is flat: an invocation goes `Idle` to `Dispatched` to
//! `Completed`, exactly one pipeline runs, and `Completed` is terminal — no
//! retries, no resumption.

use vstd::prelude::*;

verus! {

/// Encoding applied to each chunk of columnar output, chosen once per
/// invocation and passed through to the columnar writer.
#[derive(Clone, Copy, Debug, PartialEq, Eq, Structural)]
pub enum CompressionScheme {
    Uncompressed,
    Lz4,
    Snappy,
    Zstd,
}

/// The user's requested transformation, with only the fields relevant to it.
pub enum Command {
    /// Stream every event as decoded text, or as raw bytes when `raw` is set.
    HumanReadable { raw: bool },
    /// Export events as a chunked columnar archive: an optional allow-list of
    /// event names (absent means all events), an optional uniqueness
    /// transform on timestamps, a compression scheme, and the row count that
    /// closes a chunk.
    Parquet {
        events: Option<Vec<String>>,
        unique_timestamps: bool,
        compression: CompressionScheme,
        chunk_size: usize,
    },
    /// Run the header-consistency checker and write its findings.
    CheckHeader,
    /// Write the parsed header's metadata fields verbatim.
    Metadata,
}

/// Which of the four transformation pipelines a command selects.
#[derive(Clone, Copy, Debug, PartialEq, Eq, Structural)]
pub enum PipelineKind {
    HumanReadable,
    Parquet,
    CheckHeader,
    Metadata,
}

impl Command {
    pub open spec fn spec_kind(&self) -> PipelineKind {
        match self {
            Command::HumanReadable { .. } => PipelineKind::HumanReadable,
            Command::Parquet { .. } => PipelineKind::Parquet,
            Command::CheckHeader => PipelineKind::CheckHeader,
            Command::Metadata => PipelineKind::Metadata,
        }
    }

    /// The pipeline this command selects.
    pub fn kind(&self) -> (k: PipelineKind)
        ensures
            k == self.spec_kind(),
    {
        match self {
            Command::HumanReadable { .. } => PipelineKind::HumanReadable,
            Command::Parquet { .. } => PipelineKind::Parquet,
            Command::CheckHeader => PipelineKind::CheckHeader,
            Command::Metadata => PipelineKind::Metadata,
        }
    }

    /// Whether the selected pipeline walks the event stream. The header
    /// check and the metadata dump read only the parsed header.
    pub fn traverses_events(&self) -> (b: bool)
        ensures
            b == (self.spec_kind() == PipelineKind::HumanReadable || self.spec_kind()
                == PipelineKind::Parquet),
    {
        match self {
            Command::HumanReadable { .. } => true,
            Command::Parquet { .. } => true,
            Command::CheckHeader => false,
            Command::Metadata => false,
        }
    }
}

/// The row count that closes a chunk when the caller does not choose one.
/// Chunk boundaries are governed by row count, not byte size; 64 Ki rows sits
/// at the knee of the write and read throughput curves, and erring towards
/// larger chunks is cheaper than towards smaller ones.
pub fn default_chunk_size() -> (n: usize)
    ensures
        n == 65536,
{
    65536
}

/// Progress of one invocation through the dispatcher.
#[derive(Clone, Copy, Debug, PartialEq, Eq, Structural)]
pub enum DispatchState {
    Idle,
    Dispatched(PipelineKind),
    Completed,
}

impl DispatchState {
    pub fn new() -> (r: Self)
        ensures
            r is Idle,
    {
        DispatchState::Idle
    }

    /// Select the one pipeline this invocation will run. Only an idle
    /// dispatcher may start a pipeline, so no second pipeline can ever be
    /// dispatched within one invocation.
    pub fn start(&mut self, cmd: &Command)
        requires
            *old(self) is Idle,
        ensures
            *final(self) == DispatchState::Dispatched(cmd.spec_kind()),
    {
        *self = DispatchState::Dispatched(cmd.kind());
    }

    /// Mark the running pipeline finished. `Completed` is terminal: no
    /// transition leads out of it.
    pub fn complete(&mut self)
        requires
            *old(self) is Dispatched,
        ensures
            *final(self) is Completed,
    {
        *self = DispatchState::Completed;
    }
}

} // verus!
