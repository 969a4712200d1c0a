//! Decoding of station observation messages, publication permits, timeseries
//! labelling decisions and the fixed-interval windows handed to quality control.
//!
//! Text is modelled as `Seq<char>`, instants as whole seconds since the Unix
//! epoch, and every table as the sequence or map it stands for.

pub mod connector;
pub mod error;
pub mod header_line;
pub mod kldata;
pub mod kvkafka;
pub mod labels;
pub mod permissions;
pub mod qc;
pub mod reference;
pub mod text;
pub mod time;

pub use error::{Error, KldataResp};
pub use kldata::ObsType;
pub use labels::{DataChunk, Datum};
pub use qc::QcResult;
pub use reference::{ParamConversions, ReferenceParam};
