use vstd::prelude::*;

use crate::intercepted::{InterceptedResponse, RespView};

verus! {

/// The closed set of pipeline stages.
#[derive(Clone, Copy, Debug, PartialEq, Eq, Structural)]
pub enum StageId {
    Filter,
    SourceMap,
    SaveFile,
    Scan,
    JsScan,
}

/// How far a stage is from the sink: a stage only ever emits to stages of
/// strictly smaller rank, which is why the event graph is acyclic and a
/// queue drain terminates.
pub open spec fn stage_rank(s: StageId) -> int {
    match s {
        StageId::Filter => 3,
        StageId::SourceMap => 2,
        StageId::Scan => 1,
        StageId::JsScan => 1,
        StageId::SaveFile => 0,
    }
}

/// The mathematical content of an event.
pub ghost struct EventView {
    pub stage: StageId,
    pub resp: RespView,
}

/// One unit on the router queue: a captured response addressed to a stage.
pub struct Event {
    pub stage: StageId,
    pub resp: InterceptedResponse,
}

impl View for Event {
    type V = EventView;

    open spec fn view(&self) -> EventView {
        EventView { stage: self.stage, resp: self.resp@ }
    }
}

impl DeepView for Event {
    type V = EventView;

    open spec fn deep_view(&self) -> EventView {
        self@
    }
}

} // verus!
