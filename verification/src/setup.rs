use vstd::prelude::*;

use crate::allow_list::AllowList;
use crate::event::Dispatcher;
use crate::filter_stage::FilterStage;
use crate::map_stage::MapStage;
use crate::router::StageRegistry;
use crate::save_file_stage::SaveFileStage;
use crate::scan_js_stage::ScanJsStage;
use crate::scan_stage::ScanStage;

verus! {

/// Registers the five stages and hands back the registry together with a
/// fresh dispatcher whose queue is empty and whose counters are zero.
pub fn initialize_stages(allow_list: AllowList, output: String) -> (r: (StageRegistry, Dispatcher))
    ensures
        r.0.filter.allow_list@ == allow_list@,
        r.0.save_file.output_dir@ == output@,
        r.1.wf(),
        r.1.spec_queue().len() == 0,
        r.1.spec_inflight() == 0,
        r.1.spec_emitted() == 0,
        r.1.spec_completed() == 0,
        !r.1.spec_closed(),
{
    let registry = StageRegistry {
        filter: FilterStage::new(allow_list),
        map: MapStage::new(),
        save_file: SaveFileStage::new(output),
        scan: ScanStage::new(),
        js_scan: ScanJsStage::new(),
    };
    (registry, Dispatcher::new())
}

} // verus!
