//! Layout and decoding of one sensor payload.
//!
//! A payload is a 4-byte header followed by block pairs. The header holds the
//! signature `0xEE 0xFF`, the return mode (1: single, 2: dual) and a reserved
//! byte. Each block pair starts with a little-endian azimuth that both of its
//! blocks share; each block then holds, per channel and return, a
//! little-endian distance in units of 4 mm and one reflectivity byte.
use vstd::prelude::*;

verus! {

pub const HEADER_LEN: usize = 4;
pub const SIGNATURE_0: u8 = 0xEE;
pub const SIGNATURE_1: u8 = 0xFF;
pub const CHANNELS: usize = 32;
pub const BLOCKS: usize = 6;
pub const ENTRY_LEN: usize = 3;
pub const DISTANCE_UNIT_MM: u32 = 4;
/// Byte length of a single-return payload: 4 + 3 * (2 + 2 * 32 * 3).
pub const SINGLE_PAYLOAD_LEN: usize = 586;
/// Byte length of a dual-return payload: 4 + 3 * (2 + 2 * 64 * 3).
pub const DUAL_PAYLOAD_LEN: usize = 1162;

/// One laser pulse measurement.
#[derive(Clone, Copy, Debug, PartialEq, Eq, Structural)]
pub struct Return {
    pub channel: u8,
    /// Hundredths of a degree.
    pub azimuth: u16,
    pub distance_mm: u32,
    pub reflectivity: u8,
    /// Second return of a dual-return firing.
    pub second: bool,
}

#[derive(Clone, Copy, Debug, PartialEq, Eq, Structural)]
pub enum DecodeError {
    TooShort,
    BadHeader,
    UnsupportedModel,
}

/// How the second block of a pair gets its azimuth, which the payload does
/// not carry.
#[derive(Clone, Copy, Debug, PartialEq, Eq, Structural)]
pub enum AzimuthRule {
    /// Both blocks take the azimuth at the head of the pair.
    SharedPerPair,
    /// The second block is this many hundredths of a degree further on,
    /// modulo a full turn.
    OffsetSecondBlock(u16),
}

pub const FULL_TURN: u32 = 36000;

pub open spec fn block_azimuth(base: int, second_block: bool, rule: AzimuthRule) -> u16 {
    match rule {
        AzimuthRule::SharedPerPair => base as u16,
        AzimuthRule::OffsetSecondBlock(d) => if second_block {
            ((base + d) % (FULL_TURN as int)) as u16
        } else {
            base as u16
        },
    }
}

/// Returns carried by one block: one per channel, or two under dual return.
pub open spec fn returns_per_block(dual: bool) -> int {
    if dual { 64 } else { 32 }
}

pub open spec fn pair_len(dual: bool) -> int {
    2 + 2 * ENTRY_LEN * returns_per_block(dual)
}

pub open spec fn payload_len(dual: bool) -> int {
    HEADER_LEN + (BLOCKS / 2) * pair_len(dual)
}

pub open spec fn return_count(dual: bool) -> int {
    BLOCKS * returns_per_block(dual)
}

pub open spec fn u16_le(p: Seq<u8>, at: int) -> int {
    p[at] + 256 * p[at + 1]
}

/// Why a payload is refused, if it is.
pub open spec fn decode_error(p: Seq<u8>) -> Option<DecodeError> {
    if p.len() < HEADER_LEN {
        Some(DecodeError::TooShort)
    } else if p[0] != SIGNATURE_0 || p[1] != SIGNATURE_1 {
        Some(DecodeError::BadHeader)
    } else if !((p[2] == 1 && p.len() == payload_len(false)) || (p[2] == 2 && p.len()
        == payload_len(true))) {
        Some(DecodeError::UnsupportedModel)
    } else {
        None
    }
}

pub open spec fn is_dual(p: Seq<u8>) -> bool {
    p[2] == 2
}

/// Offset of the azimuth of the block pair that holds the `k`-th return.
pub open spec fn azimuth_offset(dual: bool, k: int) -> int {
    let b = if dual { k / 64 } else { k / 32 };
    HEADER_LEN + (b / 2) * pair_len(dual)
}

pub open spec fn in_second_block(dual: bool, k: int) -> bool {
    (if dual { k / 64 } else { k / 32 }) % 2 == 1
}

/// Offset of the distance/reflectivity entry of the `k`-th return.
pub open spec fn entry_offset(dual: bool, k: int) -> int {
    let b = if dual { k / 64 } else { k / 32 };
    let w = if dual { k % 64 } else { k % 32 };
    azimuth_offset(dual, k) + 2 + ((b % 2) * returns_per_block(dual) + w) * ENTRY_LEN
}

/// The `k`-th return of a payload, in packet order. The second block of a
/// pair takes its azimuth from the head of the pair by `rule`.
pub open spec fn return_at(p: Seq<u8>, dual: bool, rule: AzimuthRule, k: int) -> Return {
    let w = if dual { k % 64 } else { k % 32 };
    let e = entry_offset(dual, k);
    Return {
        channel: (if dual { w / 2 } else { w }) as u8,
        azimuth: block_azimuth(u16_le(p, azimuth_offset(dual, k)), in_second_block(dual, k), rule),
        distance_mm: (DISTANCE_UNIT_MM * u16_le(p, e)) as u32,
        reflectivity: p[e + 2],
        second: dual && w % 2 == 1,
    }
}

pub open spec fn returns_of(p: Seq<u8>, rule: AzimuthRule) -> Seq<Return> {
    Seq::new(return_count(is_dual(p)) as nat, |k: int| return_at(p, is_dual(p), rule, k))
}

fn read_u16_le(p: &[u8], at: usize) -> (r: u16)
    requires
        at + 1 < p@.len(),
    ensures
        r == u16_le(p@, at as int),
{
    p[at] as u16 + 256 * (p[at + 1] as u16)
}

fn decode_one(p: &[u8], dual: bool, rule: AzimuthRule, k: usize) -> (r: Return)
    requires
        p@.len() == payload_len(dual),
        k < return_count(dual),
    ensures
        r == return_at(p@, dual, rule, k as int),
{
    let (per, pair): (usize, usize) = if dual { (64, 386) } else { (32, 194) };
    let b = k / per;
    let w = k % per;
    proof {
        if dual {
            assert(b < 6 && w < 64 && b % 2 < 2);
            assert((b / 2) * 386 <= 772);
            assert((b % 2) * 64 <= 64);
        } else {
            assert(b < 6 && w < 32 && b % 2 < 2);
            assert((b / 2) * 194 <= 388);
            assert((b % 2) * 32 <= 32);
        }
    }
    let az_at = HEADER_LEN + (b / 2) * pair;
    let e = az_at + 2 + ((b % 2) * per + w) * ENTRY_LEN;
    let base = read_u16_le(p, az_at);
    let azimuth = match rule {
        AzimuthRule::SharedPerPair => base,
        AzimuthRule::OffsetSecondBlock(d) => if b % 2 == 1 {
            ((base as u32 + d as u32) % FULL_TURN) as u16
        } else {
            base
        },
    };
    let raw = read_u16_le(p, e);
    Return {
        channel: if dual { (w / 2) as u8 } else { w as u8 },
        azimuth,
        distance_mm: DISTANCE_UNIT_MM * (raw as u32),
        reflectivity: p[e + 2],
        second: dual && w % 2 == 1,
    }
}

/// Decodes one payload into its returns, in packet order, both blocks of a
/// pair sharing the pair's azimuth.
pub fn decode(p: &[u8]) -> (r: Result<Vec<Return>, DecodeError>)
    ensures
        match r {
            Ok(v) => decode_error(p@).is_none() && v@ == returns_of(p@, AzimuthRule::SharedPerPair),
            Err(e) => decode_error(p@) == Some(e),
        },
{
    decode_with_rule(p, AzimuthRule::SharedPerPair)
}

/// Decodes one payload into its returns, in packet order, the second block
/// of each pair taking its azimuth by `rule`.
pub fn decode_with_rule(p: &[u8], rule: AzimuthRule) -> (r: Result<Vec<Return>, DecodeError>)
    ensures
        match r {
            Ok(v) => decode_error(p@).is_none() && v@ == returns_of(p@, rule),
            Err(e) => decode_error(p@) == Some(e),
        },
{
    if p.len() < HEADER_LEN {
        return Err(DecodeError::TooShort);
    }
    if p[0] != SIGNATURE_0 || p[1] != SIGNATURE_1 {
        return Err(DecodeError::BadHeader);
    }
    let dual = p[2] == 2;
    if !((p[2] == 1 && p.len() == SINGLE_PAYLOAD_LEN) || (p[2] == 2 && p.len()
        == DUAL_PAYLOAD_LEN)) {
        return Err(DecodeError::UnsupportedModel);
    }
    let n: usize = if dual { 384 } else { 192 };
    let mut out: Vec<Return> = Vec::new();
    let mut k: usize = 0;
    while k < n
        invariant
            p@.len() == payload_len(dual),
            dual == is_dual(p@),
            n == return_count(dual),
            k <= n,
            out@.len() == k,
            forall|j: int| 0 <= j < k ==> out@[j] == return_at(p@, dual, rule, j),
        decreases n - k,
    {
        let r = decode_one(p, dual, rule, k);
        out.push(r);
        k = k + 1;
    }
    assert(out@ =~= returns_of(p@, rule));
    Ok(out)
}

/// A valid payload yields blocks times channels returns, twice as many under
/// dual return, read from the payload in its byte order.
pub proof fn lemma_decode_count_and_order(p: Seq<u8>, rule: AzimuthRule)
    requires
        decode_error(p).is_none(),
    ensures
        returns_of(p, rule).len() == BLOCKS * CHANNELS * (if is_dual(p) { 2int } else { 1int }),
        forall|j: int, k: int|
            0 <= j < k < returns_of(p, rule).len() ==> #[trigger] entry_offset(is_dual(p), j)
                < #[trigger] entry_offset(is_dual(p), k),
{
    assert forall|j: int, k: int|
        0 <= j < k < returns_of(p, rule).len() implies #[trigger] entry_offset(is_dual(p), j)
            < #[trigger] entry_offset(is_dual(p), k) by {
        if is_dual(p) {
            lemma_offset_order(j, k, 64, 386, j / 64, k / 64, j % 64, k % 64);
        } else {
            lemma_offset_order(j, k, 32, 194, j / 32, k / 32, j % 32, k % 32);
        }
    }
}

proof fn lemma_offset_order(j: int, k: int, per: int, pair: int, bj: int, bk: int, wj: int, wk: int)
    requires
        0 <= j < k,
        per > 0,
        pair == 2 + 6 * per,
        j == bj * per + wj,
        k == bk * per + wk,
        0 <= wj < per,
        0 <= wk < per,
        0 <= bj,
        0 <= bk,
    ensures
        (bj / 2) * pair + ((bj % 2) * per + wj) * 3 < (bk / 2) * pair + ((bk % 2) * per + wk) * 3,
{
    if bj == bk {
        assert(wj < wk) by (nonlinear_arith)
            requires j == bj * per + wj, k == bk * per + wk, bj == bk, j < k;
    } else {
        if bj > bk {
            assert(bj * per >= bk * per + per) by (nonlinear_arith)
                requires bj >= bk + 1, per > 0;
        }
        assert(bj < bk);
        assert(0 <= (bk % 2) * per) by (nonlinear_arith)
            requires 0 <= bk % 2, per > 0;
        assert(0 <= (bj % 2) * per) by (nonlinear_arith)
            requires 0 <= bj % 2, per > 0;
        if bj / 2 == bk / 2 {
            assert(bj % 2 == 0 && bk % 2 == 1);
            assert((bk % 2) * per == per) by (nonlinear_arith)
                requires bk % 2 == 1;
            assert((bj % 2) * per == 0) by (nonlinear_arith)
                requires bj % 2 == 0;
        }
        if bj / 2 < bk / 2 {
            assert((bj / 2) * pair + pair <= (bk / 2) * pair) by (nonlinear_arith)
                requires bj / 2 < bk / 2, pair > 0;
            assert(((bj % 2) * per + wj) * 3 < pair) by (nonlinear_arith)
                requires 0 <= bj % 2 <= 1, wj < per, pair == 2 + 6 * per, 0 <= wj;
        }
    }
}

} // verus!
