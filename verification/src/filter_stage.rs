use vstd::prelude::*;

use crate::allow_list::AllowList;
use crate::intercepted::{InterceptedResponse, RespView};
use crate::stage::{Event, EventView, StageId};
use crate::text::{contains_seq, contains_str, ends_with_seq, ends_with_str, starts_with_seq,
    starts_with_str};

verus! {

/// Scope and content-type gating: the entry of the pipeline.
pub struct FilterStage {
    pub allow_list: AllowList,
}

/// What the filter does with one response: drop it when its host is out of
/// scope or it is an image or a stylesheet; send JavaScript to the
/// source-map stage; send everything else to the secret scan.
pub open spec fn spec_filter(allow: Seq<Seq<char>>, v: RespView) -> Option<EventView> {
    if !AllowList::spec_in_scope(allow, v.host) {
        None
    } else if starts_with_seq(v.content_type, "image/"@) || ends_with_seq(v.path, "css"@) {
        None
    } else if contains_seq(v.content_type, "javascript"@) {
        Some(EventView { stage: StageId::SourceMap, resp: v })
    } else {
        Some(EventView { stage: StageId::Scan, resp: v })
    }
}

impl FilterStage {
    pub fn new(allow_list: AllowList) -> (r: Self)
        ensures
            r.allow_list@ == allow_list@,
    {
        Self { allow_list }
    }

    /// Decides where one response goes, as `spec_filter` says.
    pub fn process(&self, resp: InterceptedResponse) -> (r: Option<Event>)
        ensures
            match r {
                Some(e) => spec_filter(self.allow_list@, resp@) == Some(e@),
                None => spec_filter(self.allow_list@, resp@) is None,
            },
    {
        if !self.allow_list.in_scope(resp.host.as_str()) {
            return None;
        }
        if starts_with_str(resp.content_type.as_str(), "image/") || ends_with_str(
            resp.path.as_str(),
            "css",
        ) {
            return None;
        }
        if contains_str(resp.content_type.as_str(), "javascript") {
            return Some(Event { stage: StageId::SourceMap, resp });
        }
        Some(Event { stage: StageId::Scan, resp })
    }
}

} // verus!
