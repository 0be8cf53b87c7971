use vstd::prelude::*;

pub mod allow_list;
pub mod certs;
pub mod config;
pub mod event;
pub mod filter_stage;
pub mod host;
pub mod intercepted;
pub mod js_ast;
pub mod js_extract;
pub mod js_usage;
pub mod js_vars;
pub mod map_stage;
pub mod router;
pub mod rx;
pub mod save_file_stage;
pub mod scan_js_stage;
pub mod scan_stage;
pub mod setup;
pub mod stage;
pub mod text;
pub mod weburl;

pub use allow_list::AllowList;
pub use certs::{CertificateManager, LeafConfig, create_ca_certificate};
pub use config::Config;
pub use event::Dispatcher;
pub use filter_stage::FilterStage;
pub use intercepted::InterceptedResponse;
pub use map_stage::MapStage;
pub use router::{FetchRequest, JsScanRequest, PipelineOutput, StageRegistry};
pub use save_file_stage::{FileWrite, SaveFileStage};
pub use scan_js_stage::ScanJsStage;
pub use scan_stage::ScanStage;
pub use setup::initialize_stages;
pub use stage::{Event, StageId};

verus! {

} // verus!
