use vstd::prelude::*;

use crate::event::Dispatcher;
use crate::filter_stage::{spec_filter, FilterStage};
use crate::intercepted::{spec_get_body, InterceptedResponse, RespView};
use crate::map_stage::{spec_map_candidates, spec_map_reemit, MapStage};
use crate::save_file_stage::{spec_save_action, FileWrite, SaveFileStage};
use crate::scan_js_stage::ScanJsStage;
use crate::scan_stage::{spec_scan_events, ScanStage};
use crate::stage::{stage_rank, Event, EventView, StageId};
use crate::text::{split_seq, starts_with_seq};

verus! {

/// A source map the program around the library is to fetch, for `parent`.
pub struct FetchRequest {
    pub parent: InterceptedResponse,
    pub url: String,
}

impl View for FetchRequest {
    type V = (RespView, Seq<char>);

    open spec fn view(&self) -> (RespView, Seq<char>) {
        (self.parent@, self.url@)
    }
}

impl DeepView for FetchRequest {
    type V = (RespView, Seq<char>);

    open spec fn deep_view(&self) -> (RespView, Seq<char>) {
        self@
    }
}

/// A body the program around the library is to parse as JavaScript and
/// hand back to the JS stage.
pub struct JsScanRequest {
    pub resp: InterceptedResponse,
    pub text: String,
}

impl View for JsScanRequest {
    type V = (RespView, Seq<char>);

    open spec fn view(&self) -> (RespView, Seq<char>) {
        (self.resp@, self.text@)
    }
}

impl DeepView for JsScanRequest {
    type V = (RespView, Seq<char>);

    open spec fn deep_view(&self) -> (RespView, Seq<char>) {
        self@
    }
}

/// What one drain of the queue produced: files to write, source maps to
/// fetch, bodies to parse.
pub struct PipelineOutput {
    pub writes: Vec<FileWrite>,
    pub fetches: Vec<FetchRequest>,
    pub js: Vec<JsScanRequest>,
}

impl PipelineOutput {
    pub fn new() -> (r: Self)
        ensures
            r.writes@.len() == 0,
            r.fetches@.len() == 0,
            r.js@.len() == 0,
    {
        PipelineOutput { writes: Vec::new(), fetches: Vec::new(), js: Vec::new() }
    }
}

/// The rank of a stage, as an executable value.
pub fn rank_of(s: StageId) -> (r: u8)
    ensures
        r as int == stage_rank(s),
{
    match s {
        StageId::Filter => 3,
        StageId::SourceMap => 2,
        StageId::Scan => 1,
        StageId::JsScan => 1,
        StageId::SaveFile => 0,
    }
}

/// How many queued events address a stage of the given rank.
pub open spec fn count_rank(q: Seq<EventView>, r: int) -> nat
    decreases q.len(),
{
    if q.len() == 0 {
        0
    } else {
        count_rank(q.drop_last(), r) + (if stage_rank(q.last().stage) == r {
            1nat
        } else {
            0nat
        })
    }
}

/// Dropping the front event lowers exactly its rank's count by one.
pub proof fn lemma_count_skip_front(q: Seq<EventView>, r: int)
    requires
        q.len() > 0,
    ensures
        count_rank(q, r) == count_rank(q.skip(1), r) + (if stage_rank(q[0].stage) == r {
            1nat
        } else {
            0nat
        }),
    decreases q.len(),
{
    reveal_with_fuel(count_rank, 3);
    if q.len() == 1 {
        assert(q.skip(1) =~= Seq::<EventView>::empty());
        assert(q.last() == q[0]);
    } else {
        lemma_count_skip_front(q.drop_last(), r);
        assert(q.drop_last()[0] == q[0]);
        assert(q.skip(1).drop_last() =~= q.drop_last().skip(1));
        assert(q.skip(1).last() == q.last());
        assert(count_rank(q.skip(1), r) == count_rank(q.skip(1).drop_last(), r) + (
        if stage_rank(q.skip(1).last().stage) == r {
            1nat
        } else {
            0nat
        }));
        assert(count_rank(q, r) == count_rank(q.drop_last(), r) + (
        if stage_rank(q.last().stage) == r {
            1nat
        } else {
            0nat
        }));
    }
}

/// The events one processed event hands back to the router, before the
/// rank gate: the filter's verdict, the source-map stage's re-emissions
/// (for a decodable body), the secret scan's findings; the JS stage and
/// the sink emit nothing from inside a drain.
pub open spec fn spec_event_children(allow: Seq<Seq<char>>, e: EventView) -> Seq<EventView> {
    match e.stage {
        StageId::Filter => match spec_filter(allow, e.resp) {
            Some(ev) => seq![ev],
            None => Seq::empty(),
        },
        StageId::SourceMap => match spec_get_body(e.resp) {
            Some(b) => spec_map_reemit(e.resp),
            None => Seq::empty(),
        },
        StageId::Scan => spec_scan_events(e.resp),
        StageId::JsScan => Seq::empty(),
        StageId::SaveFile => Seq::empty(),
    }
}

/// The write one processed event produces: the sink's save action.
pub open spec fn spec_event_writes(outdir: Seq<char>, e: EventView) -> Seq<
    (Seq<char>, Seq<char>),
> {
    match e.stage {
        StageId::SaveFile => match spec_save_action(outdir, e.resp) {
            Some(w) => seq![w],
            None => Seq::empty(),
        },
        _ => Seq::empty(),
    }
}

/// Each candidate URL paired with the parent response it was found in.
pub open spec fn spec_pair_fetches(v: RespView, urls: Seq<Seq<char>>) -> Seq<
    (RespView, Seq<char>),
>
    decreases urls.len(),
{
    if urls.len() == 0 {
        Seq::empty()
    } else {
        spec_pair_fetches(v, urls.drop_last()).push((v, urls.last()))
    }
}

/// The fetch requests one processed event produces: the source-map
/// candidates of a decodable body.
pub open spec fn spec_event_fetches(e: EventView) -> Seq<(RespView, Seq<char>)> {
    match e.stage {
        StageId::SourceMap => match spec_get_body(e.resp) {
            Some(b) => spec_pair_fetches(e.resp, spec_map_candidates(e.resp, b)),
            None => Seq::empty(),
        },
        _ => Seq::empty(),
    }
}

/// The parse requests one processed event produces: the decoded body of a
/// response addressed to the JS stage.
pub open spec fn spec_event_js(e: EventView) -> Seq<(RespView, Seq<char>)> {
    match e.stage {
        StageId::JsScan => match spec_get_body(e.resp) {
            Some(t) => seq![(e.resp, t)],
            None => Seq::empty(),
        },
        _ => Seq::empty(),
    }
}

/// Appends emissions to the queue in order: each event of rank strictly
/// below the emitting stage's is queued while the dispatcher's counter
/// has room (one unit per queued event), anything else is dropped as a
/// failed send would be.
pub open spec fn spec_append_below(
    q: Seq<EventView>,
    es: Seq<EventView>,
    parent: StageId,
    budget: int,
) -> (Seq<EventView>, int)
    decreases es.len(),
{
    if es.len() == 0 {
        (q, budget)
    } else {
        let stepped = if stage_rank(es[0].stage) < stage_rank(parent) && budget > 0 {
            (q.push(es[0]), budget - 1)
        } else {
            (q, budget)
        };
        spec_append_below(stepped.0, es.skip(1), parent, stepped.1)
    }
}

/// Appending below a rank leaves the counts at that rank and above alone.
pub proof fn lemma_append_below_counts(
    q: Seq<EventView>,
    es: Seq<EventView>,
    parent: StageId,
    budget: int,
    r: int,
)
    requires
        stage_rank(parent) <= r,
    ensures
        count_rank(spec_append_below(q, es, parent, budget).0, r) == count_rank(q, r),
    decreases es.len(),
{
    if es.len() > 0 {
        if stage_rank(es[0].stage) < stage_rank(parent) && budget > 0 {
            assert(q.push(es[0]).drop_last() =~= q);
            assert(q.push(es[0]).last() == es[0]);
            lemma_append_below_counts(q.push(es[0]), es.skip(1), parent, budget - 1, r);
        } else {
            lemma_append_below_counts(q, es.skip(1), parent, budget, r);
        }
    }
}

/// What a whole drain of the queue produces, folded over the events in
/// FIFO order: each popped event contributes its write, fetch and parse
/// effects, and its gated emissions are appended to the queue's end
/// before the rest is drained.
pub ghost struct DrainEffect {
    pub writes: Seq<(Seq<char>, Seq<char>)>,
    pub fetches: Seq<(RespView, Seq<char>)>,
    pub js: Seq<(RespView, Seq<char>)>,
}

pub open spec fn spec_drain_q(
    allow: Seq<Seq<char>>,
    outdir: Seq<char>,
    q: Seq<EventView>,
    budget: int,
) -> DrainEffect
    decreases count_rank(q, 3), count_rank(q, 2), count_rank(q, 1), count_rank(q, 0),
    via spec_drain_q_dec
{
    if q.len() == 0 {
        DrainEffect { writes: Seq::empty(), fetches: Seq::empty(), js: Seq::empty() }
    } else {
        let e = q[0];
        let stepped = spec_append_below(q.skip(1), spec_event_children(allow, e), e.stage, budget);
        let rest = spec_drain_q(allow, outdir, stepped.0, stepped.1);
        DrainEffect {
            writes: spec_event_writes(outdir, e) + rest.writes,
            fetches: spec_event_fetches(e) + rest.fetches,
            js: spec_event_js(e) + rest.js,
        }
    }
}

#[via_fn]
proof fn spec_drain_q_dec(allow: Seq<Seq<char>>, outdir: Seq<char>, q: Seq<EventView>, budget: int) {
    if q.len() > 0 {
        let e = q[0];
        let children = spec_event_children(allow, e);
        let stepped = spec_append_below(q.skip(1), children, e.stage, budget);
        lemma_count_skip_front(q, 3);
        lemma_count_skip_front(q, 2);
        lemma_count_skip_front(q, 1);
        lemma_count_skip_front(q, 0);
        let rank = stage_rank(e.stage);
        if rank <= 3 {
            lemma_append_below_counts(q.skip(1), children, e.stage, budget, 3);
        }
        if rank <= 2 {
            lemma_append_below_counts(q.skip(1), children, e.stage, budget, 2);
        }
        if rank <= 1 {
            lemma_append_below_counts(q.skip(1), children, e.stage, budget, 1);
        }
        if rank <= 0 {
            lemma_append_below_counts(q.skip(1), children, e.stage, budget, 0);
        }
    }
}

/// The stages, registered once; the registry is read-only afterwards.
pub struct StageRegistry {
    pub filter: FilterStage,
    pub map: MapStage,
    pub save_file: SaveFileStage,
    pub scan: ScanStage,
    pub js_scan: ScanJsStage,
}

impl StageRegistry {
    /// Queues one emission, realizing one step of `spec_append_below`.
    /// Every stage only emits to stages of strictly smaller rank — the
    /// event graph is acyclic — and this is also checked here, which is
    /// what makes the queue drain terminate; an emission is dropped when
    /// the dispatcher's counter is exhausted, as a failed send would be.
    fn emit_below(&self, d: &mut Dispatcher, child: Event, parent: StageId)
        requires
            old(d).wf(),
            !old(d).spec_closed(),
            old(d).spec_inflight() > old(d).spec_queue().len(),
        ensures
            final(d).wf(),
            !final(d).spec_closed(),
            final(d).spec_inflight() - final(d).spec_queue().len() == old(d).spec_inflight()
                - old(d).spec_queue().len(),
            final(d).spec_completed() == old(d).spec_completed(),
            ({
                let stepped = spec_append_below(
                    old(d).spec_queue(),
                    seq![child@],
                    parent,
                    u64::MAX as int - old(d).spec_emitted() as int,
                );
                &&& final(d).spec_queue() == stepped.0
                &&& u64::MAX as int - final(d).spec_emitted() as int == stepped.1
            }),
            forall|r: int|
                stage_rank(parent) <= r ==> count_rank(#[trigger] final(d).spec_queue(), r)
                    == count_rank(old(d).spec_queue(), r),
    {
        proof {
            reveal_with_fuel(spec_append_below, 3);
            assert(seq![child@].skip(1) =~= Seq::<EventView>::empty());
        }
        if rank_of(child.stage) < rank_of(parent) && d.can_emit() {
            let ghost q = d.spec_queue();
            let ghost cv = child@;
            d.emit(child.stage, child.resp);
            proof {
                assert(d.spec_queue() == q.push(cv));
                assert forall|r: int| stage_rank(parent) <= r implies count_rank(
                    #[trigger] d.spec_queue(),
                    r,
                ) == count_rank(q, r) by {
                    assert(q.push(cv).drop_last() =~= q);
                    assert(q.push(cv).last() == cv);
                    assert(stage_rank(cv.stage) < stage_rank(parent));
                }
            }
        }
    }

    /// Queues a list of emissions in order, realizing `spec_append_below`.
    fn emit_all_below(&self, d: &mut Dispatcher, events: Vec<Event>, parent: StageId)
        requires
            old(d).wf(),
            !old(d).spec_closed(),
            old(d).spec_inflight() > old(d).spec_queue().len(),
        ensures
            final(d).wf(),
            !final(d).spec_closed(),
            final(d).spec_inflight() - final(d).spec_queue().len() == old(d).spec_inflight()
                - old(d).spec_queue().len(),
            final(d).spec_completed() == old(d).spec_completed(),
            ({
                let stepped = spec_append_below(
                    old(d).spec_queue(),
                    events.deep_view(),
                    parent,
                    u64::MAX as int - old(d).spec_emitted() as int,
                );
                &&& final(d).spec_queue() == stepped.0
                &&& u64::MAX as int - final(d).spec_emitted() as int == stepped.1
            }),
            forall|r: int|
                stage_rank(parent) <= r ==> count_rank(#[trigger] final(d).spec_queue(), r)
                    == count_rank(old(d).spec_queue(), r),
    {
        let ghost q0 = d.spec_queue();
        let ghost es0 = events.deep_view();
        let ghost b0 = u64::MAX as int - old(d).spec_emitted() as int;
        let ghost gap = old(d).spec_inflight() - old(d).spec_queue().len();
        let mut events = events;
        while events.len() > 0
            invariant
                d.wf(),
                !d.spec_closed(),
                d.spec_inflight() > d.spec_queue().len(),
                d.spec_inflight() - d.spec_queue().len() == gap,
                d.spec_completed() == old(d).spec_completed(),
                spec_append_below(q0, es0, parent, b0) == spec_append_below(
                    d.spec_queue(),
                    events.deep_view(),
                    parent,
                    u64::MAX as int - d.spec_emitted() as int,
                ),
                forall|r: int|
                    stage_rank(parent) <= r ==> count_rank(#[trigger] d.spec_queue(), r)
                        == count_rank(q0, r),
            decreases events.len(),
        {
            let ghost pre_q = d.spec_queue();
            let ghost pre_es = events.deep_view();
            let ghost pre_b = u64::MAX as int - d.spec_emitted() as int;
            let ev = events.remove(0);
            proof {
                assert(events.deep_view() =~= pre_es.skip(1));
                assert(ev@ == pre_es[0]);
            }
            self.emit_below(d, ev, parent);
            proof {
                reveal_with_fuel(spec_append_below, 3);
                assert(seq![pre_es[0]].skip(1) =~= Seq::<EventView>::empty());
                let head_step = if stage_rank(pre_es[0].stage) < stage_rank(parent) && pre_b > 0 {
                    (pre_q.push(pre_es[0]), pre_b - 1)
                } else {
                    (pre_q, pre_b)
                };
                assert(spec_append_below(pre_q, seq![pre_es[0]], parent, pre_b) == head_step);
                assert(d.spec_queue() == head_step.0);
                assert(u64::MAX as int - d.spec_emitted() as int == head_step.1);
                assert(spec_append_below(pre_q, pre_es, parent, pre_b) == spec_append_below(
                    head_step.0,
                    pre_es.skip(1),
                    parent,
                    head_step.1,
                ));
            }
        }
        proof {
            assert(events.deep_view().len() == 0);
            assert(events.deep_view() =~= Seq::<EventView>::empty());
        }
    }

    /// Drains the queue: pops events in FIFO order, runs the addressed
    /// stage, queues its emissions and completes the event, until the
    /// queue is empty. On return no event is queued or in flight, every
    /// dequeued event has been completed, the writes, fetches and parse
    /// requests appended to `out` are exactly `spec_drain_q` of the
    /// starting queue, and every write sits under the sink's output root
    /// with no `..` component after it.
    pub fn drain(&self, d: &mut Dispatcher, out: &mut PipelineOutput)
        requires
            old(d).wf(),
            !old(d).spec_closed(),
            old(d).spec_inflight() == old(d).spec_queue().len(),
        ensures
            final(d).wf(),
            !final(d).spec_closed(),
            final(d).spec_queue().len() == 0,
            final(d).spec_inflight() == 0,
            final(d).spec_completed() - old(d).spec_completed() == final(d).spec_emitted() - old(
                d,
            ).spec_emitted() + old(d).spec_queue().len(),
            ({
                let eff = spec_drain_q(
                    self.filter.allow_list@,
                    self.save_file.output_dir@,
                    old(d).spec_queue(),
                    u64::MAX as int - old(d).spec_emitted() as int,
                );
                &&& final(out).writes.deep_view() == old(out).writes.deep_view() + eff.writes
                &&& final(out).fetches.deep_view() == old(out).fetches.deep_view() + eff.fetches
                &&& final(out).js.deep_view() == old(out).js.deep_view() + eff.js
            }),
            final(out).writes@.len() >= old(out).writes@.len(),
            forall|k: int|
                old(out).writes@.len() <= k < final(out).writes@.len() ==> {
                    &&& starts_with_seq(
                        (#[trigger] final(out).writes@[k]).path@,
                        self.save_file.output_dir@,
                    )
                    &&& !split_seq(
                        final(out).writes@[k].path@.skip(
                            self.save_file.output_dir@.len() as int + 1,
                        ),
                        '/',
                    ).contains(seq!['.', '.'])
                },
            forall|k: int|
                0 <= k < old(out).writes@.len() ==> final(out).writes@[k] == old(out).writes@[k],
        decreases
                count_rank(d.spec_queue(), 3),
                count_rank(d.spec_queue(), 2),
                count_rank(d.spec_queue(), 1),
                count_rank(d.spec_queue(), 0),
    {
        let ghost allow = self.filter.allow_list@;
        let ghost outdir = self.save_file.output_dir@;
        let ghost q0 = d.spec_queue();
        let ghost b0 = u64::MAX as int - d.spec_emitted() as int;
        let e = match d.take_next() {
            Some(e) => e,
            None => {
                proof {
                    crate::event::lemma_wf_counters(*old(d));
                    crate::event::lemma_wf_counters(*d);
                    let eff = spec_drain_q(allow, outdir, q0, b0);
                    assert(out.writes.deep_view() =~= out.writes.deep_view() + eff.writes);
                    assert(out.fetches.deep_view() =~= out.fetches.deep_view() + eff.fetches);
                    assert(out.js.deep_view() =~= out.js.deep_view() + eff.js);
                }
                return;
            },
        };
        let st = e.stage;
        let ghost ev = e@;
        let ghost rank = stage_rank(st);
        let ghost q1 = d.spec_queue();
        let ghost children = spec_event_children(allow, ev);
        let ghost w0 = out.writes.deep_view();
        let ghost f0 = out.fetches.deep_view();
        let ghost j0 = out.js.deep_view();
        proof {
            lemma_count_skip_front(q0, 3);
            lemma_count_skip_front(q0, 2);
            lemma_count_skip_front(q0, 1);
            lemma_count_skip_front(q0, 0);
        }
        match st {
            StageId::Filter => {
                match self.filter.process(e.resp) {
                    Some(child) => {
                        proof {
                            assert(children =~= seq![child@]);
                        }
                        self.emit_below(d, child, st);
                    },
                    None => {
                        proof {
                            assert(children =~= Seq::<EventView>::empty());
                            assert(spec_append_below(q1, children, st, b0) == (q1, b0));
                        }
                    },
                }
            },
            StageId::SourceMap => {
                match e.resp.get_body() {
                    Some(body) => {
                        let candidates = self.map.candidates(&e.resp, body.as_str());
                        let ghost wsnap = out.writes@;
                        let ghost jsnap = out.js@;
                        let ghost cdv = candidates.deep_view();
                        let mut ci: usize = 0;
                        proof {
                            assert(cdv.take(0) =~= Seq::<Seq<char>>::empty());
                            assert(out.fetches.deep_view() =~= f0 + spec_pair_fetches(
                                ev.resp,
                                cdv.take(0),
                            ));
                        }
                        while ci < candidates.len()
                            invariant
                                0 <= ci <= candidates.len(),
                                cdv == candidates.deep_view(),
                                cdv.len() == candidates.len(),
                                out.writes@ == wsnap,
                                out.js@ == jsnap,
                                out.fetches.deep_view() == f0 + spec_pair_fetches(
                                    ev.resp,
                                    cdv.take(ci as int),
                                ),
                                ev.resp == e.resp@,
                            decreases candidates.len() - ci,
                        {
                            let ghost fpre = out.fetches.deep_view();
                            let fr = FetchRequest {
                                parent: e.resp.duplicate(),
                                url: crate::text::clone_string(&candidates[ci]),
                            };
                            proof {
                                assert(fr@ == (ev.resp, cdv[ci as int]));
                            }
                            out.fetches.push(fr);
                            proof {
                                assert(out.fetches.deep_view() =~= fpre.push(
                                    (ev.resp, cdv[ci as int]),
                                ));
                                assert(cdv.take(ci + 1).drop_last() =~= cdv.take(ci as int));
                                assert(cdv.take(ci + 1).last() == cdv[ci as int]);
                                assert(out.fetches.deep_view() =~= f0 + spec_pair_fetches(
                                    ev.resp,
                                    cdv.take(ci + 1),
                                ));
                            }
                            ci = ci + 1;
                        }
                        proof {
                            assert(cdv.take(cdv.len() as int) =~= cdv);
                            assert(cdv == spec_map_candidates(ev.resp, body@));
                            assert(out.fetches.deep_view() == f0 + spec_event_fetches(ev));
                        }
                        let reemits = self.map.reemit(&e.resp);
                        proof {
                            assert(reemits.deep_view() == spec_map_reemit(ev.resp));
                            assert(children == spec_map_reemit(ev.resp));
                        }
                        self.emit_all_below(d, reemits, st);
                    },
                    None => {
                        proof {
                            assert(children =~= Seq::<EventView>::empty());
                            assert(spec_append_below(q1, children, st, b0) == (q1, b0));
                            assert(spec_event_fetches(ev) =~= Seq::<(RespView, Seq<char>)>::empty());
                        }
                    },
                }
            },
            StageId::Scan => {
                let events = self.scan.process(&e.resp);
                proof {
                    assert(events.deep_view() == children);
                }
                self.emit_all_below(d, events, st);
            },
            StageId::JsScan => {
                match e.resp.get_body() {
                    Some(text) => {
                        let ghost tv = text@;
                        let jr = JsScanRequest { resp: e.resp, text };
                        proof {
                            assert(jr@ == (ev.resp, tv));
                        }
                        out.js.push(jr);
                        proof {
                            assert(out.js.deep_view() =~= j0.push((ev.resp, tv)));
                            assert(spec_event_js(ev) =~= seq![(ev.resp, tv)]);
                            assert(out.js.deep_view() =~= j0 + spec_event_js(ev));
                            assert(spec_append_below(q1, children, st, b0) == (q1, b0));
                        }
                    },
                    None => {
                        proof {
                            assert(spec_event_js(ev) =~= Seq::<(RespView, Seq<char>)>::empty());
                            assert(spec_append_below(q1, children, st, b0) == (q1, b0));
                        }
                    },
                }
            },
            StageId::SaveFile => {
                match self.save_file.process(&e.resp) {
                    Some(w) => {
                        let ghost wv = (w.path@, w.text@);
                        out.writes.push(w);
                        proof {
                            assert(out.writes.deep_view() =~= w0.push(wv));
                            assert(spec_event_writes(outdir, ev) =~= seq![wv]);
                            assert(out.writes.deep_view() =~= w0 + spec_event_writes(outdir, ev));
                            assert(spec_append_below(q1, children, st, b0) == (q1, b0));
                        }
                    },
                    None => {
                        proof {
                            assert(spec_event_writes(outdir, ev) =~= Seq::<
                                (Seq<char>, Seq<char>),
                            >::empty());
                            assert(spec_append_below(q1, children, st, b0) == (q1, b0));
                        }
                    },
                }
            },
        }
        d.complete();
        let ghost q2 = d.spec_queue();
        let ghost b2 = u64::MAX as int - d.spec_emitted() as int;
        proof {
            assert(d.spec_inflight() == d.spec_queue().len());
            assert((q2, b2) == spec_append_below(q1, children, st, b0));
            assert forall|r: int| rank < r <= 3 implies count_rank(q2, r) == count_rank(q0, r) by {
                assert(count_rank(q2, r) == count_rank(q1, r));
                assert(stage_rank(q0[0].stage) != r);
            }
            assert(count_rank(q2, rank) < count_rank(q0, rank)) by {
                assert(count_rank(q2, rank) == count_rank(q1, rank));
                assert(stage_rank(q0[0].stage) == rank);
            }
            // this frame's effect so far
            assert(out.writes.deep_view() =~= w0 + spec_event_writes(outdir, ev));
            assert(out.fetches.deep_view() =~= f0 + spec_event_fetches(ev));
            assert(out.js.deep_view() =~= j0 + spec_event_js(ev));
        }
        let ghost w1 = out.writes.deep_view();
        self.drain(d, out);
        proof {
            crate::event::lemma_wf_counters(*old(d));
            crate::event::lemma_wf_counters(*d);
            let eff0 = spec_drain_q(allow, outdir, q0, b0);
            let eff2 = spec_drain_q(allow, outdir, q2, b2);
            assert(eff0.writes == spec_event_writes(outdir, ev) + eff2.writes);
            assert(eff0.fetches == spec_event_fetches(ev) + eff2.fetches);
            assert(eff0.js == spec_event_js(ev) + eff2.js);
            assert(out.writes.deep_view() =~= w0 + eff0.writes);
            assert(out.fetches.deep_view() =~= f0 + eff0.fetches);
            assert(out.js.deep_view() =~= j0 + eff0.js);
        }
    }
}

} // verus!
