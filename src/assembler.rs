//! Accumulation of returns into revolution-bounded frames.
use vstd::prelude::*;
use crate::decode::{decode_with_rule, decode_error, returns_of, AzimuthRule, DecodeError, Return};

verus! {

/// A finalized revolution: the kept returns, in arrival order.
pub struct Frame {
    pub points: Vec<Return>,
}

impl Frame {
    pub fn point_count(&self) -> (n: usize)
        ensures
            n == self.points@.len(),
    {
        self.points.len()
    }
}

/// Whether a return yields a point: it has a distance, at least `min_range_mm`.
pub open spec fn keeps(r: Return, min_range_mm: u32) -> bool {
    r.distance_mm != 0 && r.distance_mm >= min_range_mm
}

/// A revolution closes when the azimuth falls below the last one seen.
pub open spec fn is_wrap(last: Option<u16>, azimuth: u16) -> bool {
    match last {
        Some(a) => azimuth < a,
        None => false,
    }
}

pub open spec fn kept(r: Return, min_range_mm: u32) -> Seq<Return> {
    if keeps(r, min_range_mm) { seq![r] } else { seq![] }
}

/// One return folded into the pending points: the new pending points, and
/// the frame closed by it, if any.
pub open spec fn step(pending: Seq<Return>, last: Option<u16>, min_range_mm: u32, r: Return) -> (
    Seq<Return>,
    Option<Seq<Return>>,
) {
    if is_wrap(last, r.azimuth) {
        (kept(r, min_range_mm), Some(pending))
    } else {
        (pending + kept(r, min_range_mm), None)
    }
}

/// A sequence of returns folded in order: pending points, last azimuth and
/// the frames closed on the way.
pub open spec fn fold(pending: Seq<Return>, last: Option<u16>, min_range_mm: u32, rs: Seq<Return>) -> (
    Seq<Return>,
    Option<u16>,
    Seq<Seq<Return>>,
)
    decreases rs.len(),
{
    if rs.len() == 0 {
        (pending, last, seq![])
    } else {
        let (p, l, fs) = fold(pending, last, min_range_mm, rs.drop_last());
        let (p2, e) = step(p, l, min_range_mm, rs.last());
        (
            p2,
            Some(rs.last().azimuth),
            match e {
                Some(f) => fs.push(f),
                None => fs,
            },
        )
    }
}

pub open spec fn frames_view(fs: Seq<Frame>) -> Seq<Seq<Return>> {
    fs.map_values(|f: Frame| f.points@)
}

/// Collects returns and cuts them into frames at each azimuth wrap.
pub struct FrameAssembler {
    current: Vec<Return>,
    last_azimuth: Option<u16>,
    min_range_mm: u32,
    rule: AzimuthRule,
}

impl FrameAssembler {
    pub closed spec fn pending(&self) -> Seq<Return> {
        self.current@
    }

    pub closed spec fn last(&self) -> Option<u16> {
        self.last_azimuth
    }

    pub closed spec fn min_range(&self) -> u32 {
        self.min_range_mm
    }

    pub closed spec fn azimuth_rule(&self) -> AzimuthRule {
        self.rule
    }

    /// An empty assembler that drops returns closer than `min_range_mm`;
    /// both blocks of a pair share the pair's azimuth.
    pub fn new(min_range_mm: u32) -> (a: FrameAssembler)
        ensures
            a.pending() == Seq::<Return>::empty(),
            a.last() == None::<u16>,
            a.min_range() == min_range_mm,
            a.azimuth_rule() == AzimuthRule::SharedPerPair,
    {
        Self::with_rule(min_range_mm, AzimuthRule::SharedPerPair)
    }

    /// An empty assembler that decodes payloads with `rule`.
    pub fn with_rule(min_range_mm: u32, rule: AzimuthRule) -> (a: FrameAssembler)
        ensures
            a.pending() == Seq::<Return>::empty(),
            a.last() == None::<u16>,
            a.min_range() == min_range_mm,
            a.azimuth_rule() == rule,
    {
        FrameAssembler { current: Vec::new(), last_azimuth: None, min_range_mm, rule }
    }

    pub fn pending_count(&self) -> (n: usize)
        ensures
            n == self.pending().len(),
    {
        self.current.len()
    }

    pub fn last_azimuth(&self) -> (a: Option<u16>)
        ensures
            a == self.last(),
    {
        self.last_azimuth
    }

    /// Hands the pending points out as a frame and starts an empty one.
    fn finalize(&mut self) -> (f: Frame)
        ensures
            f.points@ == old(self).pending(),
            final(self).pending() == Seq::<Return>::empty(),
            final(self).last() == old(self).last(),
            final(self).min_range() == old(self).min_range(),
            final(self).azimuth_rule() == old(self).azimuth_rule(),
    {
        let mut points: Vec<Return> = Vec::new();
        std::mem::swap(&mut points, &mut self.current);
        Frame { points }
    }

    /// Folds one return in; returns the frame that its azimuth wrap closed.
    pub fn push(&mut self, r: Return) -> (emitted: Option<Frame>)
        ensures
            final(self).pending() == step(old(self).pending(), old(self).last(), old(self).min_range(), r).0,
            final(self).last() == Some(r.azimuth),
            final(self).min_range() == old(self).min_range(),
            final(self).azimuth_rule() == old(self).azimuth_rule(),
            match emitted {
                Some(f) => step(old(self).pending(), old(self).last(), old(self).min_range(), r).1
                    == Some(f.points@),
                None => step(old(self).pending(), old(self).last(), old(self).min_range(), r).1
                    is None,
            },
    {
        let wrap = match self.last_azimuth {
            Some(a) => r.azimuth < a,
            None => false,
        };
        let emitted = if wrap {
            Some(self.finalize())
        } else {
            None
        };
        if r.distance_mm != 0 && r.distance_mm >= self.min_range_mm {
            self.current.push(r);
        }
        self.last_azimuth = Some(r.azimuth);
        proof {
            let ghost pre = old(self).pending();
            if wrap {
                assert(self.current@ =~= kept(r, self.min_range_mm));
            } else {
                assert(self.current@ =~= pre + kept(r, self.min_range_mm));
            }
        }
        emitted
    }

    /// Decodes one payload and folds its returns in, appending each closed
    /// frame to `out`. A payload that does not decode changes nothing.
    pub fn feed_payload(&mut self, payload: &[u8], out: &mut Vec<Frame>) -> (r: Result<usize, DecodeError>)
        ensures
            match r {
                Err(e) => decode_error(payload@) == Some(e) && *final(self) == *old(self)
                    && final(out)@ == old(out)@,
                Ok(n) => decode_error(payload@).is_none() && n == returns_of(payload@, old(self).azimuth_rule()).len() && ({
                    let (p, l, fs) = fold(old(self).pending(), old(self).last(), old(self).min_range(),
                        returns_of(payload@, old(self).azimuth_rule()));
                    &&& final(self).pending() == p
                    &&& final(self).last() == l
                    &&& final(self).min_range() == old(self).min_range()
                    &&& final(self).azimuth_rule() == old(self).azimuth_rule()
                    &&& frames_view(final(out)@) == frames_view(old(out)@) + fs
                }),
            },
    {
        let rs = match decode_with_rule(payload, self.rule) {
            Ok(rs) => rs,
            Err(e) => return Err(e),
        };
        let ghost p0 = self.pending();
        let ghost l0 = self.last();
        let ghost out0 = out@;
        let mut i: usize = 0;
        while i < rs.len()
            invariant
                i <= rs@.len(),
                self.min_range() == old(self).min_range(),
                self.azimuth_rule() == old(self).azimuth_rule(),
                ({
                    let (p, l, fs) = fold(p0, l0, self.min_range(), rs@.take(i as int));
                    &&& self.pending() == p
                    &&& self.last() == l
                    &&& frames_view(out@) == frames_view(out0) + fs
                }),
            decreases rs@.len() - i,
        {
            let ghost before = out@;
            let e = self.push(rs[i]);
            proof {
                let t = rs@.take(i as int + 1);
                assert(t.drop_last() =~= rs@.take(i as int));
                assert(t.last() == rs@[i as int]);
            }
            match e {
                Some(f) => {
                    out.push(f);
                    proof {
                        assert(frames_view(out@) =~= frames_view(before).push(f.points@));
                    }
                },
                None => {},
            }
            proof {
                let fs1 = fold(p0, l0, self.min_range(), rs@.take(i as int + 1)).2;
                assert(frames_view(out@) =~= frames_view(out0) + fs1);
            }
            i = i + 1;
        }
        assert(rs@.take(rs@.len() as int) =~= rs@);
        Ok(rs.len())
    }

    /// Ends the stream: closes the pending points into a frame unless there
    /// are none.
    pub fn flush(&mut self) -> (emitted: Option<Frame>)
        ensures
            final(self).pending() == flush_step(old(self).pending()).0,
            final(self).last() == old(self).last(),
            final(self).min_range() == old(self).min_range(),
            final(self).azimuth_rule() == old(self).azimuth_rule(),
            match emitted {
                Some(f) => flush_step(old(self).pending()).1 == Some(f.points@),
                None => flush_step(old(self).pending()).1 is None,
            },
    {
        if self.current.len() == 0 {
            None
        } else {
            Some(self.finalize())
        }
    }
}

/// End of stream: the pending points, if any, become one last frame.
pub open spec fn flush_step(pending: Seq<Return>) -> (Seq<Return>, Option<Seq<Return>>) {
    if pending.len() == 0 {
        (pending, None)
    } else {
        (Seq::empty(), Some(pending))
    }
}

/// A return without a distance never becomes a point: the pending points
/// are those before it, or none after a wrap.
pub proof fn lemma_zero_distance_yields_no_point(
    pending: Seq<Return>,
    last: Option<u16>,
    min_range_mm: u32,
    r: Return,
)
    requires
        r.distance_mm == 0,
    ensures
        step(pending, last, min_range_mm, r).0 == (if is_wrap(last, r.azimuth) {
            Seq::<Return>::empty()
        } else {
            pending
        }),
{
    assert(pending + Seq::<Return>::empty() =~= pending);
}

/// An azimuth wrap closes exactly one frame, holding the points before it,
/// and the new frame starts with the return that wrapped when it is kept.
pub proof fn lemma_wrap_closes_one_frame(
    pending: Seq<Return>,
    last: Option<u16>,
    min_range_mm: u32,
    rs: Seq<Return>,
    r: Return,
)
    requires
        is_wrap(fold(pending, last, min_range_mm, rs).1, r.azimuth),
    ensures
        ({
            let (p, l, fs) = fold(pending, last, min_range_mm, rs);
            let (p2, l2, fs2) = fold(pending, last, min_range_mm, rs.push(r));
            &&& fs2 == fs.push(p)
            &&& p2 == kept(r, min_range_mm)
            &&& keeps(r, min_range_mm) ==> p2 == seq![r]
            &&& l2 == Some(r.azimuth)
        }),
{
    assert(rs.push(r).drop_last() =~= rs);
}

/// Flushing closes a non-empty pending frame once; a second flush, or one
/// on nothing pending, emits nothing and changes nothing.
pub proof fn lemma_flush_once(pending: Seq<Return>)
    ensures
        pending.len() > 0 ==> flush_step(pending).1 == Some(pending),
        flush_step(flush_step(pending).0).1 is None,
        flush_step(flush_step(pending).0).0 == flush_step(pending).0,
        pending.len() == 0 ==> flush_step(pending) == (pending, None::<Seq<Return>>),
{
}

} // verus!
