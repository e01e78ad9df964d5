use vstd::prelude::*;

use crate::error::Error;
use crate::io_util::Event;

verus! {

/// Holds when a fail-fast loop over `entities` produced the events `evs`
/// with every segment succeeding: one trace segment per entity, each
/// matching `seg` with an `Ok` result, concatenated in order.
pub open spec fn steps_ok<A>(
    entities: Seq<A>,
    seg: spec_fn(A, Seq<Event>, Result<(), Error>) -> bool,
    evs: Seq<Event>,
) -> bool
    decreases entities.len(),
{
    if entities.len() == 0 {
        evs.len() == 0
    } else {
        exists|k: int, u: Result<(), Error>|
            {
                &&& 0 <= k <= evs.len()
                &&& u is Ok
                &&& #[trigger] seg(entities[0], evs.take(k), u)
                &&& steps_ok(entities.skip(1), seg, evs.skip(k))
            }
    }
}

/// Holds when a fail-fast loop over `entities` produced the events `evs`
/// and the result `r`: a prefix of successful segments, then either every
/// entity is done and `r` is `Ok`, or one failing segment whose error is `r`
/// ends the trace; later entities are not attempted.
pub open spec fn steps_trace<A>(
    entities: Seq<A>,
    seg: spec_fn(A, Seq<Event>, Result<(), Error>) -> bool,
    evs: Seq<Event>,
    r: Result<(), Error>,
) -> bool
    decreases entities.len(),
{
    if entities.len() == 0 {
        evs.len() == 0 && r is Ok
    } else {
        ||| (r is Err && seg(entities[0], evs, r))
        ||| exists|k: int, u: Result<(), Error>|
            {
                &&& 0 <= k <= evs.len()
                &&& u is Ok
                &&& #[trigger] seg(entities[0], evs.take(k), u)
                &&& steps_trace(entities.skip(1), seg, evs.skip(k), r)
            }
    }
}

/// Appending one successful segment extends a successful loop trace.
pub proof fn lemma_steps_ok_snoc<A>(
    entities: Seq<A>,
    seg: spec_fn(A, Seq<Event>, Result<(), Error>) -> bool,
    evs: Seq<Event>,
    g: A,
    seg_evs: Seq<Event>,
    u: Result<(), Error>,
)
    requires
        steps_ok(entities, seg, evs),
        seg(g, seg_evs, u),
        u is Ok,
    ensures
        steps_ok(entities.push(g), seg, evs + seg_evs),
    decreases entities.len(),
{
    if entities.len() == 0 {
        let all = evs + seg_evs;
        let k = seg_evs.len() as int;
        assert(all.take(k) =~= seg_evs);
        assert(all.skip(k) =~= Seq::<Event>::empty());
        assert(entities.push(g)[0] == g);
        assert(entities.push(g).skip(1) =~= Seq::<A>::empty());
        assert(seg(entities.push(g)[0], all.take(k), u));
        assert(steps_ok(entities.push(g).skip(1), seg, all.skip(k)));
    } else {
        let (k0, u0) = choose|k: int, u0: Result<(), Error>|
            {
                &&& 0 <= k <= evs.len()
                &&& u0 is Ok
                &&& #[trigger] seg(entities[0], evs.take(k), u0)
                &&& steps_ok(entities.skip(1), seg, evs.skip(k))
            };
        lemma_steps_ok_snoc(entities.skip(1), seg, evs.skip(k0), g, seg_evs, u);
        let all = evs + seg_evs;
        assert(entities.push(g).skip(1) =~= entities.skip(1).push(g));
        assert(all.take(k0) =~= evs.take(k0));
        assert(all.skip(k0) =~= evs.skip(k0) + seg_evs);
        assert(entities.push(g)[0] == entities[0]);
        assert(seg(entities.push(g)[0], all.take(k0), u0));
        assert(steps_ok(entities.push(g).skip(1), seg, all.skip(k0)));
    }
}

/// A fully successful loop is a complete loop trace with result `Ok`.
pub proof fn lemma_steps_ok_to_trace<A>(
    entities: Seq<A>,
    seg: spec_fn(A, Seq<Event>, Result<(), Error>) -> bool,
    evs: Seq<Event>,
)
    requires
        steps_ok(entities, seg, evs),
    ensures
        steps_trace(entities, seg, evs, Ok(())),
    decreases entities.len(),
{
    if entities.len() > 0 {
        let (k0, u0) = choose|k: int, u0: Result<(), Error>|
            {
                &&& 0 <= k <= evs.len()
                &&& u0 is Ok
                &&& #[trigger] seg(entities[0], evs.take(k), u0)
                &&& steps_ok(entities.skip(1), seg, evs.skip(k))
            };
        lemma_steps_ok_to_trace(entities.skip(1), seg, evs.skip(k0));
    }
}

/// A prefix of successful segments followed by one failing segment is a
/// complete loop trace carrying that failure.
pub proof fn lemma_steps_fail<A>(
    entities: Seq<A>,
    seg: spec_fn(A, Seq<Event>, Result<(), Error>) -> bool,
    evs: Seq<Event>,
    i: int,
    seg_evs: Seq<Event>,
    r: Result<(), Error>,
)
    requires
        0 <= i < entities.len(),
        steps_ok(entities.take(i), seg, evs),
        seg(entities[i], seg_evs, r),
        r is Err,
    ensures
        steps_trace(entities, seg, evs + seg_evs, r),
    decreases i,
{
    if i == 0 {
        assert(entities.take(0).len() == 0);
        assert(evs.len() == 0);
        assert(evs + seg_evs =~= seg_evs);
        assert(seg(entities[0], evs + seg_evs, r));
    } else {
        let pre = entities.take(i);
        let (k0, u0) = choose|k: int, u0: Result<(), Error>|
            {
                &&& 0 <= k <= evs.len()
                &&& u0 is Ok
                &&& #[trigger] seg(pre[0], evs.take(k), u0)
                &&& steps_ok(pre.skip(1), seg, evs.skip(k))
            };
        assert(pre[0] == entities[0]);
        assert(pre.skip(1) =~= entities.skip(1).take(i - 1));
        assert(entities.skip(1)[i - 1] == entities[i]);
        lemma_steps_fail(entities.skip(1), seg, evs.skip(k0), i - 1, seg_evs, r);
        let all = evs + seg_evs;
        assert(all.take(k0) =~= evs.take(k0));
        assert(all.skip(k0) =~= evs.skip(k0) + seg_evs);
        assert(seg(entities[0], all.take(k0), u0));
        assert(steps_trace(entities.skip(1), seg, all.skip(k0), r));
    }
}

/// A log extended twice splits into the two extensions.
pub proof fn lemma_prefix_skip_concat(base: Seq<Event>, mid: Seq<Event>, end: Seq<Event>)
    requires
        base.is_prefix_of(mid),
        mid.is_prefix_of(end),
    ensures
        end.skip(base.len() as int) =~= mid.skip(base.len() as int) + end.skip(mid.len() as int),
        base.is_prefix_of(end),
{
    assert(base =~= mid.subrange(0, base.len() as int));
    assert(mid =~= end.subrange(0, mid.len() as int));
    assert(base =~= end.subrange(0, base.len() as int));
}

} // verus!
