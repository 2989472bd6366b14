//! Remote image resolution: classification of fetch outcomes, and the
//! resolution state machine.
//!
//! The machine never performs a fetch itself. It hands out the next
//! reference to fetch, and is fed the outcome; the caller performs the
//! transfer however it likes. A failed fetch, a missing or unknown
//! content type, or an unparsable nested scene all degrade to "no
//! payload" for that reference — they are recorded, never raised.
//! References found inside a resolved nested scene are queued in turn,
//! each distinct reference once.

use vstd::prelude::*;
use crate::bytes::{bytes_eq, views_of};
use crate::payload::{
    mime_gif, mime_gif_bytes, mime_jpg, mime_jpg_bytes, mime_png, mime_png_bytes, mime_svg,
    mime_svg_bytes, opt_payload_model, ImagePayload, PayloadModel,
};
use crate::scan::{resolved_map, scan_from, scan_references};
use crate::scene::{svg_accepted, usvg_parses};

verus! {

/// What a fetch of one reference came to.
pub enum FetchOutcome {
    /// The transfer itself failed: connection error, non-success
    /// status, or timeout.
    Failed,
    /// A successful response: its declared content type, if it carried
    /// a readable one, and its body bytes.
    Response { content_type: Option<Vec<u8>>, body: Vec<u8> },
}

/// The mathematical model of a fetch outcome.
pub enum OutcomeModel {
    Failed,
    Response { content_type: Option<Seq<u8>>, body: Seq<u8> },
}

/// The model of one executable outcome.
pub open spec fn outcome_model(o: FetchOutcome) -> OutcomeModel {
    match o {
        FetchOutcome::Failed => OutcomeModel::Failed,
        FetchOutcome::Response { content_type, body } => OutcomeModel::Response {
            content_type: match content_type {
                None => None,
                Some(c) => Some(c@),
            },
            body: body@,
        },
    }
}

/// The payload an outcome classifies to, by declared content type
/// alone. A failed transfer, a missing content type, an unknown content
/// type, and a nested scene the parser rejects all yield no payload.
pub open spec fn classify_spec(o: OutcomeModel) -> Option<PayloadModel> {
    match o {
        OutcomeModel::Failed => None,
        OutcomeModel::Response { content_type, body } => match content_type {
            None => None,
            Some(ct) => {
                if ct == mime_png() {
                    Some(PayloadModel::Png(body))
                } else if ct == mime_jpg() {
                    Some(PayloadModel::Jpeg(body))
                } else if ct == mime_gif() {
                    Some(PayloadModel::Gif(body))
                } else if ct == mime_svg() {
                    if usvg_parses(body, Seq::<Seq<u8>>::empty()) {
                        Some(PayloadModel::Svg(body))
                    } else {
                        None
                    }
                } else {
                    None
                }
            },
        },
    }
}

/// Classifies one fetch outcome. No byte sniffing: the declared content
/// type alone picks the tag, and the body is kept verbatim.
pub fn classify_response(outcome: FetchOutcome) -> (r: Option<ImagePayload>)
    ensures
        opt_payload_model(r) == classify_spec(outcome_model(outcome)),
{
    match outcome {
        FetchOutcome::Failed => None,
        FetchOutcome::Response { content_type, body } => match content_type {
            None => None,
            Some(ct) => {
                if bytes_eq(ct.as_slice(), mime_png_bytes().as_slice()) {
                    Some(ImagePayload::Png(body))
                } else if bytes_eq(ct.as_slice(), mime_jpg_bytes().as_slice()) {
                    Some(ImagePayload::Jpeg(body))
                } else if bytes_eq(ct.as_slice(), mime_gif_bytes().as_slice()) {
                    Some(ImagePayload::Gif(body))
                } else if bytes_eq(ct.as_slice(), mime_svg_bytes().as_slice()) {
                    if svg_accepted(body.as_slice()) {
                        Some(ImagePayload::Svg(body))
                    } else {
                        None
                    }
                } else {
                    None
                }
            },
        },
    }
}

/// The queue after appending, in order, each reference of `refs` from
/// position `k` on that is neither queued already nor recorded in `m`.
pub open spec fn enqueue_new(
    pending: Seq<Seq<u8>>,
    m: Map<Seq<u8>, Option<PayloadModel>>,
    refs: Seq<Seq<u8>>,
    k: int,
) -> Seq<Seq<u8>>
    decreases refs.len() - k,
{
    if k < 0 || k >= refs.len() {
        pending
    } else if pending.contains(refs[k]) || m.dom().contains(refs[k]) {
        enqueue_new(pending, m, refs, k + 1)
    } else {
        enqueue_new(pending.push(refs[k]), m, refs, k + 1)
    }
}

/// A resolution state is well formed when no reference is queued twice
/// and no queued reference has been fetched already. Every reference
/// is therefore fetched at most once, and resolving a document with
/// finitely many distinct references takes finitely many fetches.
pub open spec fn resolution_wf(pending: Seq<Seq<u8>>, m: Map<Seq<u8>, Option<PayloadModel>>) -> bool {
    &&& (forall|i: int, j: int| 0 <= i < j < pending.len() ==> pending[i] != pending[j])
    &&& (forall|i: int| 0 <= i < pending.len() ==> !m.dom().contains(#[trigger] pending[i]))
}

/// Queueing only unseen references keeps the state well formed.
proof fn lemma_enqueue_preserves_wf(
    pending: Seq<Seq<u8>>,
    m: Map<Seq<u8>, Option<PayloadModel>>,
    refs: Seq<Seq<u8>>,
    k: int,
)
    requires
        resolution_wf(pending, m),
    ensures
        resolution_wf(enqueue_new(pending, m, refs, k), m),
    decreases refs.len() - k,
{
    if 0 <= k < refs.len() {
        if pending.contains(refs[k]) || m.dom().contains(refs[k]) {
            lemma_enqueue_preserves_wf(pending, m, refs, k + 1);
        } else {
            let stepped = pending.push(refs[k]);
            assert forall|i: int, j: int| 0 <= i < j < stepped.len() implies stepped[i]
                != stepped[j] by {
                if j == stepped.len() - 1 {
                    assert(stepped[i] == pending[i]);
                    if pending[i] == refs[k] {
                        assert(pending.contains(refs[k]));
                    }
                }
            }
            lemma_enqueue_preserves_wf(stepped, m, refs, k + 1);
        }
    }
}

/// A fresh resolution state is well formed.
pub proof fn lemma_begin_wf(doc: Seq<u8>)
    ensures
        resolution_wf(
            enqueue_new(
                Seq::<Seq<u8>>::empty(),
                Map::<Seq<u8>, Option<PayloadModel>>::empty(),
                scan_from(doc, 0, false),
                0,
            ),
            Map::<Seq<u8>, Option<PayloadModel>>::empty(),
        ),
{
    lemma_enqueue_preserves_wf(
        Seq::<Seq<u8>>::empty(),
        Map::<Seq<u8>, Option<PayloadModel>>::empty(),
        scan_from(doc, 0, false),
        0,
    );
}

/// Feeding one outcome back keeps the state well formed: the fetched
/// reference moves from the queue to the record, and only references
/// never seen before join the queue.
pub proof fn lemma_supply_preserves_wf(
    pending: Seq<Seq<u8>>,
    m: Map<Seq<u8>, Option<PayloadModel>>,
    cls: Option<PayloadModel>,
    body_refs: Seq<Seq<u8>>,
)
    requires
        resolution_wf(pending, m),
        pending.len() > 0,
    ensures
        ({
            let recorded = m.insert(pending[0], cls);
            &&& resolution_wf(pending.drop_first(), recorded)
            &&& resolution_wf(enqueue_new(pending.drop_first(), recorded, body_refs, 0), recorded)
        }),
{
    let recorded = m.insert(pending[0], cls);
    let rest = pending.drop_first();
    assert forall|i: int| 0 <= i < rest.len() implies !recorded.dom().contains(
        #[trigger] rest[i],
    ) by {
        assert(rest[i] == pending[i + 1]);
        assert(pending[i + 1] != pending[0]);
    }
    lemma_enqueue_preserves_wf(rest, recorded, body_refs, 0);
}

fn contains_ref(v: &Vec<Vec<u8>>, r: &[u8]) -> (b: bool)
    ensures
        b == views_of(v@).contains(r@),
{
    let mut i: usize = 0;
    while i < v.len()
        invariant
            0 <= i <= v.len(),
            forall|j: int| 0 <= j < i ==> views_of(v@)[j] != r@,
        decreases v.len() - i,
    {
        if bytes_eq(v[i].as_slice(), r) {
            proof {
                assert(views_of(v@)[i as int] == r@);
            }
            return true;
        }
        i += 1;
    }
    proof {
        assert(!views_of(v@).contains(r@));
    }
    false
}

/// The record and work queue of remote image resolution.
pub struct Resolution {
    /// References found but not yet fetched, in discovery order.
    pub pending: Vec<Vec<u8>>,
    /// The outcome recorded for each fetched reference.
    pub resolved: Vec<(Vec<u8>, Option<ImagePayload>)>,
}

impl Resolution {
    /// The model of the work queue.
    pub open spec fn pending_model(&self) -> Seq<Seq<u8>> {
        views_of(self.pending@)
    }

    /// The model of the recorded outcomes.
    pub open spec fn outcomes(&self) -> Map<Seq<u8>, Option<PayloadModel>> {
        resolved_map(self.resolved@)
    }

    /// Starts resolution for a document: every distinct external image
    /// reference of the document is queued, none is recorded yet.
    pub fn begin(doc: &[u8]) -> (res: Resolution)
        ensures
            res.outcomes() == Map::<Seq<u8>, Option<PayloadModel>>::empty(),
            res.pending_model() == enqueue_new(
                Seq::<Seq<u8>>::empty(),
                Map::<Seq<u8>, Option<PayloadModel>>::empty(),
                scan_from(doc@, 0, false),
                0,
            ),
            resolution_wf(res.pending_model(), res.outcomes()),
    {
        proof {
            lemma_begin_wf(doc@);
        }
        let refs = scan_references(doc);
        let mut res = Resolution { pending: Vec::new(), resolved: Vec::new() };
        proof {
            assert(res.pending_model() =~= Seq::<Seq<u8>>::empty());
        }
        enqueue_refs(&mut res.pending, &res.resolved, &refs);
        res
    }

    /// Whether every discovered reference has been fetched.
    pub fn done(&self) -> (r: bool)
        ensures
            r == (self.pending_model().len() == 0),
    {
        self.pending.len() == 0
    }

    /// The reference to fetch next, if any is outstanding.
    pub fn next_request(&self) -> (r: Option<Vec<u8>>)
        ensures
            match r {
                None => self.pending_model().len() == 0,
                Some(v) => self.pending_model().len() > 0 && v@ == self.pending_model()[0],
            },
    {
        if self.pending.len() == 0 {
            None
        } else {
            Some(vstd::slice::slice_to_vec(self.pending[0].as_slice()))
        }
    }

    /// Feeds back the fetch outcome for the reference last handed out.
    ///
    /// The outcome is classified and recorded — a failure is recorded
    /// as "no payload", never raised — and, when it is a nested scene,
    /// the scene's own references are queued, each distinct new one
    /// once.
    pub fn supply(&mut self, outcome: FetchOutcome)
        requires
            old(self).pending_model().len() > 0,
        ensures
            ({
                let r0 = old(self).pending_model()[0];
                let cls = classify_spec(outcome_model(outcome));
                &&& final(self).outcomes() == old(self).outcomes().insert(r0, cls)
                &&& final(self).pending_model() == (match cls {
                    Some(PayloadModel::Svg(b)) => enqueue_new(
                        old(self).pending_model().drop_first(),
                        final(self).outcomes(),
                        scan_from(b, 0, false),
                        0,
                    ),
                    _ => old(self).pending_model().drop_first(),
                })
            }),
            resolution_wf(old(self).pending_model(), old(self).outcomes()) ==> resolution_wf(
                final(self).pending_model(),
                final(self).outcomes(),
            ),
    {
        proof {
            if resolution_wf(self.pending_model(), self.outcomes()) {
                let cls = classify_spec(outcome_model(outcome));
                let body_refs = match cls {
                    Some(PayloadModel::Svg(b)) => scan_from(b, 0, false),
                    _ => Seq::<Seq<u8>>::empty(),
                };
                lemma_supply_preserves_wf(
                    self.pending_model(),
                    self.outcomes(),
                    cls,
                    body_refs,
                );
            }
        }
        let reference = self.pending.remove(0);
        proof {
            assert(self.pending_model() =~= old(self).pending_model().drop_first());
        }
        let payload = classify_response(outcome);
        let refs: Option<Vec<Vec<u8>>> = match &payload {
            Some(ImagePayload::Svg(b)) => Some(scan_references(b.as_slice())),
            _ => None,
        };
        let ghost resolved_before = self.resolved@;
        self.resolved.push((reference, payload));
        proof {
            assert(self.resolved@.drop_last() =~= resolved_before);
        }
        match refs {
            None => (),
            Some(new_refs) => {
                enqueue_refs(&mut self.pending, &self.resolved, &new_refs);
            },
        }
    }
}

/// Appends each reference of `refs` that is neither queued nor recorded.
fn enqueue_refs(
    pending: &mut Vec<Vec<u8>>,
    resolved: &Vec<(Vec<u8>, Option<ImagePayload>)>,
    refs: &Vec<Vec<u8>>,
)
    ensures
        views_of(final(pending)@) == enqueue_new(
            views_of(old(pending)@),
            resolved_map(resolved@),
            views_of(refs@),
            0,
        ),
{
    let ghost m = resolved_map(resolved@);
    let ghost goal = enqueue_new(views_of(old(pending)@), m, views_of(refs@), 0);
    let mut k: usize = 0;
    while k < refs.len()
        invariant
            0 <= k <= refs.len(),
            goal == enqueue_new(views_of(pending@), m, views_of(refs@), k as int),
            m == resolved_map(resolved@),
        decreases refs.len() - k,
    {
        let is_known = if contains_ref(pending, refs[k].as_slice()) {
            true
        } else {
            match crate::scan::lookup_outcome(resolved, refs[k].as_slice()) {
                Some(_) => true,
                None => false,
            }
        };
        if !is_known {
            let ghost before = pending@;
            pending.push(vstd::slice::slice_to_vec(refs[k].as_slice()));
            proof {
                assert(views_of(pending@) =~= views_of(before).push(refs@[k as int]@));
            }
        }
        k += 1;
    }
}

} // verus!
