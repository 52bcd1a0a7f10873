//! Handles, providers and logical paths.

pub mod features;
pub mod input;
pub mod output;
pub mod path;
pub mod provider;
pub mod sources;
pub mod stack;

pub use self::features::{InputFeatures, InputOrigin, OutputFeatures, SeekFrom};
pub use self::input::{byte_read, effective_offset, InputHandle, InputState};
pub use self::output::{OutputHandle, OutputState};
pub use self::path::{normalize_tex_path, try_normalize_tex_path};
pub use self::provider::{
    digest_from_answer, parse_manifest, Bundle, InputRequest, IoProvider, OpenResult,
    OutputRequest,
};
pub use self::stack::IoStack;
