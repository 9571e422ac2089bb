//! Verified core of a dora-rs node that executes timestamped action chunks
//! for OpenArm: arm selection, chunk validation, crossfade structure,
//! argument scanning, step scheduling and output planning.

pub mod arms;
pub mod blend;
pub mod chunk;
pub mod callbacks;
pub mod cli;
pub mod environment;
pub mod executor;
pub mod metadata;
pub mod output;
pub mod text;
pub mod upsample;

pub use arms::{Arms, ELEMENTS_PER_ARM};
pub use blend::{blend, BlendError};
pub use chunk::{parse_positions, ChunkError};
pub use cli::{finish_args, scan_args, ArgScan, CliError, CliOptions, MissingFlagValue};
pub use environment::{EnvCall, Environment, PendingSignal, Recorded};
pub use executor::{
    ChunkOutcome, ExecutorState, RunChunkError, StepDecision, StepSchedule, StepsEnd, StepsRun, StepTrace, run_steps,
};
pub use metadata::{
    resolve_metadata, CutoffSource, MetadataError, MetadataKey, MetadataValue,
};
pub use output::{
    plan_outputs, ArmCommand, OutputId, OUTPUT_MOVE_POSITION_LEFT, OUTPUT_MOVE_POSITION_RIGHT,
};
pub use upsample::UpsampleError;
