//! A compact binary form of the persisted records. Every record is a
//! sequence of 64-bit words, each stored as eight little-endian bytes, and
//! reading a record back gives exactly the record that was written.
use vstd::prelude::*;

use crate::capitulation::{CapitulationPhase, CapitulationState, CapitulationView};
use crate::fixed::Fixed;
use crate::ladder::PartialProfitTarget;
use crate::position::{ClosedPosition, OpenPosition, Position};
use crate::zones::ZoneStats;
use vstd::arithmetic::div_mod::lemma_fundamental_div_mod_converse;

verus! {

/// The eight little-endian bytes of `w`.
pub open spec fn word_bytes(w: u64) -> Seq<u8> {
    Seq::new(8, |k: int| ((w >> ((8 * k) as u64)) & 0xff) as u8)
}

/// The bytes of a sequence of words.
pub open spec fn bytes_of(ws: Seq<u64>) -> Seq<u8>
    decreases ws.len(),
{
    if ws.len() == 0 {
        Seq::empty()
    } else {
        bytes_of(ws.drop_last()) + word_bytes(ws.last())
    }
}

/// Word `i` of a byte sequence.
pub open spec fn word_at(b: Seq<u8>, i: int) -> u64 {
    (b[8 * i] as u64) | ((b[8 * i + 1] as u64) << 8u64) | ((b[8 * i + 2] as u64) << 16u64) | ((b[8 * i + 3] as u64)
        << 24u64) | ((b[8 * i + 4] as u64) << 32u64) | ((b[8 * i + 5] as u64) << 40u64) | ((b[8 * i + 6] as u64)
        << 48u64) | ((b[8 * i + 7] as u64) << 56u64)
}

/// The words of a byte sequence whose length is a multiple of eight.
pub open spec fn words_of(b: Seq<u8>) -> Option<Seq<u64>> {
    if b.len() % 8 == 0 {
        Some(Seq::new((b.len() / 8) as nat, |i: int| word_at(b, i)))
    } else {
        None
    }
}

proof fn lemma_word_from_bytes(w: u64)
    ensures
        word_at(word_bytes(w), 0) == w,
{
    let b = word_bytes(w);
    let b0 = ((w >> 0u64) & 0xff) as u8;
    let b1 = ((w >> 8u64) & 0xff) as u8;
    let b2 = ((w >> 16u64) & 0xff) as u8;
    let b3 = ((w >> 24u64) & 0xff) as u8;
    let b4 = ((w >> 32u64) & 0xff) as u8;
    let b5 = ((w >> 40u64) & 0xff) as u8;
    let b6 = ((w >> 48u64) & 0xff) as u8;
    let b7 = ((w >> 56u64) & 0xff) as u8;
    assert(b[0] == b0 && b[1] == b1 && b[2] == b2 && b[3] == b3 && b[4] == b4 && b[5] == b5 && b[6] == b6 && b[7] == b7);
    assert((b0 as u64) | ((b1 as u64) << 8u64) | ((b2 as u64) << 16u64) | ((b3 as u64) << 24u64) | ((b4 as u64) << 32u64)
        | ((b5 as u64) << 40u64) | ((b6 as u64) << 48u64) | ((b7 as u64) << 56u64) == w) by (bit_vector)
        requires
            b0 == ((w >> 0u64) & 0xff) as u8,
            b1 == ((w >> 8u64) & 0xff) as u8,
            b2 == ((w >> 16u64) & 0xff) as u8,
            b3 == ((w >> 24u64) & 0xff) as u8,
            b4 == ((w >> 32u64) & 0xff) as u8,
            b5 == ((w >> 40u64) & 0xff) as u8,
            b6 == ((w >> 48u64) & 0xff) as u8,
            b7 == ((w >> 56u64) & 0xff) as u8,
    ;
}

proof fn lemma_bytes_of_layout(ws: Seq<u64>)
    ensures
        bytes_of(ws).len() == 8 * ws.len(),
        forall|i: int, k: int| 0 <= i < ws.len() && 0 <= k < 8 ==> bytes_of(ws)[8 * i + k] == #[trigger] word_bytes(ws[i])[k],
    decreases ws.len(),
{
    if ws.len() > 0 {
        let p = ws.drop_last();
        lemma_bytes_of_layout(p);
        assert forall|i: int, k: int| 0 <= i < ws.len() && 0 <= k < 8 implies bytes_of(ws)[8 * i + k] == #[trigger] word_bytes(ws[i])[k] by {
            if i < ws.len() - 1 {
                assert(ws[i] == p[i]);
            }
        }
    }
}

/// Words written as bytes read back as the same words.
pub proof fn lemma_words_round_trip(ws: Seq<u64>)
    ensures
        words_of(bytes_of(ws)) == Some(ws),
{
    lemma_bytes_of_layout(ws);
    let b = bytes_of(ws);
    assert(b.len() % 8 == 0 && b.len() / 8 == ws.len()) by (nonlinear_arith)
        requires b.len() == 8 * ws.len();
    let back = Seq::new((b.len() / 8) as nat, |i: int| word_at(b, i));
    assert forall|i: int| 0 <= i < ws.len() implies back[i] == ws[i] by {
        let wb = word_bytes(ws[i]);
        lemma_word_from_bytes(ws[i]);
        assert(b[8 * i] == wb[0]);
        assert(b[8 * i + 1] == wb[1]);
        assert(b[8 * i + 2] == wb[2]);
        assert(b[8 * i + 3] == wb[3]);
        assert(b[8 * i + 4] == wb[4]);
        assert(b[8 * i + 5] == wb[5]);
        assert(b[8 * i + 6] == wb[6]);
        assert(b[8 * i + 7] == wb[7]);
    }
    assert(back =~= ws);
}

/// The bytes of `ws`.
pub fn words_to_bytes(ws: &Vec<u64>) -> (r: Vec<u8>)
    ensures
        r@ == bytes_of(ws@),
{
    let mut out: Vec<u8> = Vec::new();
    let mut i: usize = 0;
    while i < ws.len()
        invariant
            i <= ws@.len(),
            out@ == bytes_of(ws@.subrange(0, i as int)),
        decreases ws@.len() - i,
    {
        let w = ws[i];
        let ghost before = out@;
        let mut k: u64 = 0;
        while k < 8
            invariant
                k <= 8,
                out@.len() == before.len() + k,
                out@.subrange(0, before.len() as int) == before,
                forall|j: int| 0 <= j < k ==> out@[before.len() + j] == #[trigger] word_bytes(w)[j],
            decreases 8 - k,
        {
            out.push(((w >> (8 * k)) & 0xff) as u8);
            assert(out@[before.len() + k] == word_bytes(w)[k as int]);
            k = k + 1;
        }
        assert(out@ =~= before + word_bytes(w));
        assert(ws@.subrange(0, i + 1).drop_last() =~= ws@.subrange(0, i as int));
        i = i + 1;
    }
    assert(ws@.subrange(0, ws@.len() as int) =~= ws@);
    out
}

/// The words of `b`, or none when its length is not a multiple of eight.
pub fn bytes_to_words(b: &Vec<u8>) -> (r: Option<Vec<u64>>)
    ensures
        r matches Some(ws) ==> words_of(b@) == Some(ws@),
        r is None ==> words_of(b@) is None,
{
    if b.len() % 8 != 0 {
        return None;
    }
    let len = b.len();
    let n = len / 8;
    let mut ws: Vec<u64> = Vec::with_capacity(n);
    let mut i: usize = 0;
    while i < n
        invariant
            len == b@.len(),
            n == b@.len() / 8,
            b@.len() % 8 == 0,
            i <= n,
            ws@.len() == i,
            forall|j: int| 0 <= j < i ==> ws@[j] == word_at(b@, j),
        decreases n - i,
    {
        assert(8 * i + 8 <= len) by (nonlinear_arith)
            requires i < n, n == len / 8, len % 8 == 0;
        let o = 8 * i;
        let w: u64 = (b[o] as u64) | ((b[o + 1] as u64) << 8u64) | ((b[o + 2] as u64) << 16u64) | ((b[o + 3] as u64) << 24u64)
            | ((b[o + 4] as u64) << 32u64) | ((b[o + 5] as u64) << 40u64) | ((b[o + 6] as u64) << 48u64) | ((b[o + 7] as u64)
            << 56u64);
        ws.push(w);
        i = i + 1;
    }
    assert(ws@ =~= Seq::new((b@.len() / 8) as nat, |j: int| word_at(b@, j)));
    Some(ws)
}

/// Words of an open position.
pub const OPEN_WORDS: usize = 20;
/// Words of a closed-position record.
pub const CLOSED_WORDS: usize = 25;
/// Words of a zone's stats.
pub const STATS_WORDS: usize = 4;
/// Words of a ladder rung.
pub const RUNG_WORDS: usize = 5;
/// Words of a capitulation state before its rungs.
pub const STATE_HEAD_WORDS: usize = 27;

pub open spec fn pos_word(p: Position) -> u64 {
    match p {
        Position::Flat => 0,
        Position::Long => 1,
        Position::Short => 2,
    }
}

pub open spec fn word_pos(w: u64) -> Position {
    if w == 1 { Position::Long } else if w == 2 { Position::Short } else { Position::Flat }
}

pub open spec fn opt_tag(o: Option<Fixed>) -> u64 {
    if o is Some { 1 } else { 0 }
}

pub open spec fn opt_val(o: Option<Fixed>) -> u64 {
    match o {
        Some(f) => f.raw as u64,
        None => 0,
    }
}

pub open spec fn id_tag(o: Option<u64>) -> u64 {
    if o is Some { 1 } else { 0 }
}

pub open spec fn id_val(o: Option<u64>) -> u64 {
    match o {
        Some(v) => v,
        None => 0,
    }
}

pub open spec fn lo_word(x: u128) -> u64 {
    (x % 0x1_0000_0000_0000_0000) as u64
}

pub open spec fn hi_word(x: u128) -> u64 {
    (x / 0x1_0000_0000_0000_0000) as u64
}

pub open spec fn fixed_at(w: Seq<u64>, i: int) -> Fixed {
    Fixed { raw: w[i] as i64 }
}

pub open spec fn fixed_opt_at(w: Seq<u64>, i: int) -> Option<Fixed> {
    if w[i] == 0 { None } else { Some(fixed_at(w, i + 1)) }
}

pub open spec fn u64_opt_at(w: Seq<u64>, i: int) -> Option<u64> {
    if w[i] == 0 { None } else { Some(w[i + 1]) }
}

pub open spec fn u128_at(w: Seq<u64>, i: int) -> u128 {
    (w[i] + w[i + 1] * 0x1_0000_0000_0000_0000) as u128
}

/// Word `k` of an open position.
pub open spec fn open_word(p: OpenPosition, k: int) -> u64 {
    if k == 0 { lo_word(p.id) }
    else if k == 1 { hi_word(p.id) }
    else if k == 2 { pos_word(p.pos) }
    else if k == 3 { p.entry_price.raw as u64 }
    else if k == 4 { p.position_size.raw as u64 }
    else if k == 5 { p.entry_time as u64 }
    else if k == 6 { opt_tag(p.tp) }
    else if k == 7 { opt_val(p.tp) }
    else if k == 8 { opt_tag(p.sl) }
    else if k == 9 { opt_val(p.sl) }
    else if k == 10 { opt_tag(p.margin) }
    else if k == 11 { opt_val(p.margin) }
    else if k == 12 { opt_tag(p.quantity) }
    else if k == 13 { opt_val(p.quantity) }
    else if k == 14 { opt_tag(p.leverage) }
    else if k == 15 { opt_val(p.leverage) }
    else if k == 16 { opt_tag(p.risk_pct) }
    else if k == 17 { opt_val(p.risk_pct) }
    else if k == 18 { id_tag(p.order_id) }
    else { id_val(p.order_id) }
}

pub open spec fn open_words(p: OpenPosition) -> Seq<u64> {
    Seq::new(OPEN_WORDS as nat, |k: int| open_word(p, k))
}

/// The open position stored at word `at`, if the words there are one.
pub open spec fn open_at(w: Seq<u64>, at: int) -> Option<OpenPosition> {
    if 0 <= at && at + OPEN_WORDS <= w.len() && w[at + 2] <= 2 && w[at + 6] <= 1 && w[at + 8] <= 1 && w[at + 10] <= 1
        && w[at + 12] <= 1 && w[at + 14] <= 1 && w[at + 16] <= 1 && w[at + 18] <= 1 {
        Some(
            OpenPosition {
                id: u128_at(w, at),
                pos: word_pos(w[at + 2]),
                entry_price: fixed_at(w, at + 3),
                position_size: fixed_at(w, at + 4),
                entry_time: w[at + 5] as i64,
                tp: fixed_opt_at(w, at + 6),
                sl: fixed_opt_at(w, at + 8),
                margin: fixed_opt_at(w, at + 10),
                quantity: fixed_opt_at(w, at + 12),
                leverage: fixed_opt_at(w, at + 14),
                risk_pct: fixed_opt_at(w, at + 16),
                order_id: u64_opt_at(w, at + 18),
            },
        )
    } else {
        None
    }
}

/// Word `k` of a closed-position record.
pub open spec fn closed_word(c: ClosedPosition, k: int) -> u64 {
    if k == 0 { lo_word(c.id) }
    else if k == 1 { hi_word(c.id) }
    else if k == 2 { pos_word(c.side) }
    else if k == 3 { c.entry_price.raw as u64 }
    else if k == 4 { c.entry_time as u64 }
    else if k == 5 { c.exit_price.raw as u64 }
    else if k == 6 { c.exit_time as u64 }
    else if k == 7 { c.pnl.raw as u64 }
    else if k == 8 { 0 }
    else if k == 9 { opt_tag(c.pnl_after_fees) }
    else if k == 10 { opt_val(c.pnl_after_fees) }
    else if k == 11 { opt_tag(c.exit_fee) }
    else if k == 12 { opt_val(c.exit_fee) }
    else if k == 13 { opt_tag(c.quantity) }
    else if k == 14 { opt_val(c.quantity) }
    else if k == 15 { opt_tag(c.sl) }
    else if k == 16 { opt_val(c.sl) }
    else if k == 17 { opt_tag(c.roi) }
    else if k == 18 { opt_val(c.roi) }
    else if k == 19 { opt_tag(c.leverage) }
    else if k == 20 { opt_val(c.leverage) }
    else if k == 21 { opt_tag(c.margin) }
    else if k == 22 { opt_val(c.margin) }
    else if k == 23 { id_tag(c.order_id) }
    else { id_val(c.order_id) }
}

pub open spec fn closed_words(c: ClosedPosition) -> Seq<u64> {
    Seq::new(CLOSED_WORDS as nat, |k: int| closed_word(c, k))
}

pub open spec fn closed_at(w: Seq<u64>, at: int) -> Option<ClosedPosition> {
    if 0 <= at && at + CLOSED_WORDS <= w.len() && w[at + 2] <= 2 && w[at + 9] <= 1 && w[at + 11] <= 1 && w[at + 13] <= 1
        && w[at + 15] <= 1 && w[at + 17] <= 1 && w[at + 19] <= 1 && w[at + 21] <= 1 && w[at + 23] <= 1 {
        Some(
            ClosedPosition {
                id: u128_at(w, at),
                side: word_pos(w[at + 2]),
                entry_price: fixed_at(w, at + 3),
                entry_time: w[at + 4] as i64,
                exit_price: fixed_at(w, at + 5),
                exit_time: w[at + 6] as i64,
                pnl: fixed_at(w, at + 7),
                pnl_after_fees: fixed_opt_at(w, at + 9),
                exit_fee: fixed_opt_at(w, at + 11),
                quantity: fixed_opt_at(w, at + 13),
                sl: fixed_opt_at(w, at + 15),
                roi: fixed_opt_at(w, at + 17),
                leverage: fixed_opt_at(w, at + 19),
                margin: fixed_opt_at(w, at + 21),
                order_id: u64_opt_at(w, at + 23),
            },
        )
    } else {
        None
    }
}

pub open spec fn stats_word(s: ZoneStats, k: int) -> u64 {
    if k == 0 { s.consecutive_losses as u64 }
    else if k == 1 { if s.disabled { 1 } else { 0 } }
    else if k == 2 { id_tag(s.cooldown_until) }
    else { id_val(s.cooldown_until) }
}

pub open spec fn stats_words(s: ZoneStats) -> Seq<u64> {
    Seq::new(STATS_WORDS as nat, |k: int| stats_word(s, k))
}

pub open spec fn stats_at(w: Seq<u64>, at: int) -> Option<ZoneStats> {
    if 0 <= at && at + STATS_WORDS <= w.len() && w[at] <= 255 && w[at + 1] <= 1 && w[at + 2] <= 1 {
        Some(ZoneStats { consecutive_losses: w[at] as u8, disabled: w[at + 1] == 1, cooldown_until: u64_opt_at(w, at + 2) })
    } else {
        None
    }
}

pub open spec fn rung_word(t: PartialProfitTarget, k: int) -> u64 {
    if k == 0 { t.target_price.raw as u64 }
    else if k == 1 { t.fraction.raw as u64 }
    else if k == 2 { t.size_btc.raw as u64 }
    else if k == 3 { opt_tag(t.sl) }
    else { opt_val(t.sl) }
}

pub open spec fn rung_words(t: PartialProfitTarget) -> Seq<u64> {
    Seq::new(RUNG_WORDS as nat, |k: int| rung_word(t, k))
}

pub open spec fn rung_at(w: Seq<u64>, at: int) -> Option<PartialProfitTarget> {
    if 0 <= at && at + RUNG_WORDS <= w.len() && w[at + 3] <= 1 {
        Some(
            PartialProfitTarget {
                target_price: fixed_at(w, at),
                fraction: fixed_at(w, at + 1),
                size_btc: fixed_at(w, at + 2),
                sl: fixed_opt_at(w, at + 3),
            },
        )
    } else {
        None
    }
}

proof fn lemma_i64_word(x: i64)
    ensures
        (x as u64) as i64 == x,
{
    assert((x as u64) as i64 == x) by (bit_vector);
}

/// Words `w[at..at + part.len()]` are `part`.
pub open spec fn holds_at(w: Seq<u64>, at: int, part: Seq<u64>) -> bool {
    0 <= at && at + part.len() <= w.len() && forall|k: int| 0 <= k < part.len() ==> w[at + k] == #[trigger] part[k]
}

proof fn lemma_opt_back(w: Seq<u64>, i: int, o: Option<Fixed>)
    requires
        0 <= i && i + 1 < w.len(),
        w[i] == opt_tag(o),
        w[i + 1] == opt_val(o),
    ensures
        w[i] <= 1,
        fixed_opt_at(w, i) == o,
{
    if let Some(f) = o {
        lemma_i64_word(f.raw);
    }
}

proof fn lemma_id_opt_back(w: Seq<u64>, i: int, o: Option<u64>)
    requires
        0 <= i && i + 1 < w.len(),
        w[i] == id_tag(o),
        w[i + 1] == id_val(o),
    ensures
        w[i] <= 1,
        u64_opt_at(w, i) == o,
{
}

proof fn lemma_fixed_back(w: Seq<u64>, i: int, f: Fixed)
    requires
        0 <= i < w.len(),
        w[i] == f.raw as u64,
    ensures
        fixed_at(w, i) == f,
{
    lemma_i64_word(f.raw);
}

proof fn lemma_u128_back(w: Seq<u64>, i: int, x: u128)
    requires
        0 <= i && i + 1 < w.len(),
        w[i] == lo_word(x),
        w[i + 1] == hi_word(x),
    ensures
        u128_at(w, i) == x,
{
    let lo = x % 0x1_0000_0000_0000_0000;
    let hi = x / 0x1_0000_0000_0000_0000;
    assert(x == lo + hi * 0x1_0000_0000_0000_0000) by (nonlinear_arith)
        requires lo == x % 0x1_0000_0000_0000_0000, hi == x / 0x1_0000_0000_0000_0000;
}

/// An open position written anywhere in a word sequence reads back as itself.
pub proof fn lemma_open_round_trip(p: OpenPosition, w: Seq<u64>, at: int)
    requires
        holds_at(w, at, open_words(p)),
    ensures
        open_at(w, at) == Some(p),
{
    let part = open_words(p);
    assert(w[at + 0] == part[0] && part[0] == open_word(p, 0));
    assert(w[at + 1] == part[1] && part[1] == open_word(p, 1));
    assert(w[at + 2] == part[2] && part[2] == open_word(p, 2));
    assert(w[at + 3] == part[3] && part[3] == open_word(p, 3));
    assert(w[at + 4] == part[4] && part[4] == open_word(p, 4));
    assert(w[at + 5] == part[5] && part[5] == open_word(p, 5));
    assert(w[at + 6] == part[6] && part[6] == open_word(p, 6));
    assert(w[at + 7] == part[7] && part[7] == open_word(p, 7));
    assert(w[at + 8] == part[8] && part[8] == open_word(p, 8));
    assert(w[at + 9] == part[9] && part[9] == open_word(p, 9));
    assert(w[at + 10] == part[10] && part[10] == open_word(p, 10));
    assert(w[at + 11] == part[11] && part[11] == open_word(p, 11));
    assert(w[at + 12] == part[12] && part[12] == open_word(p, 12));
    assert(w[at + 13] == part[13] && part[13] == open_word(p, 13));
    assert(w[at + 14] == part[14] && part[14] == open_word(p, 14));
    assert(w[at + 15] == part[15] && part[15] == open_word(p, 15));
    assert(w[at + 16] == part[16] && part[16] == open_word(p, 16));
    assert(w[at + 17] == part[17] && part[17] == open_word(p, 17));
    assert(w[at + 18] == part[18] && part[18] == open_word(p, 18));
    assert(w[at + 19] == part[19] && part[19] == open_word(p, 19));
    lemma_u128_back(w, at, p.id);
    assert(w[at + 2] == pos_word(p.pos));
    lemma_fixed_back(w, at + 3, p.entry_price);
    lemma_fixed_back(w, at + 4, p.position_size);
    assert(w[at + 5] == p.entry_time as u64);
    lemma_i64_word(p.entry_time);
    lemma_opt_back(w, at + 6, p.tp);
    lemma_opt_back(w, at + 8, p.sl);
    lemma_opt_back(w, at + 10, p.margin);
    lemma_opt_back(w, at + 12, p.quantity);
    lemma_opt_back(w, at + 14, p.leverage);
    lemma_opt_back(w, at + 16, p.risk_pct);
    lemma_id_opt_back(w, at + 18, p.order_id);
}

/// A closed-position record written anywhere in a word sequence reads back
/// as itself.
pub proof fn lemma_closed_round_trip(c: ClosedPosition, w: Seq<u64>, at: int)
    requires
        holds_at(w, at, closed_words(c)),
    ensures
        closed_at(w, at) == Some(c),
{
    let part = closed_words(c);
    assert(w[at + 0] == part[0] && part[0] == closed_word(c, 0));
    assert(w[at + 1] == part[1] && part[1] == closed_word(c, 1));
    assert(w[at + 2] == part[2] && part[2] == closed_word(c, 2));
    assert(w[at + 3] == part[3] && part[3] == closed_word(c, 3));
    assert(w[at + 4] == part[4] && part[4] == closed_word(c, 4));
    assert(w[at + 5] == part[5] && part[5] == closed_word(c, 5));
    assert(w[at + 6] == part[6] && part[6] == closed_word(c, 6));
    assert(w[at + 7] == part[7] && part[7] == closed_word(c, 7));
    assert(w[at + 8] == part[8] && part[8] == closed_word(c, 8));
    assert(w[at + 9] == part[9] && part[9] == closed_word(c, 9));
    assert(w[at + 10] == part[10] && part[10] == closed_word(c, 10));
    assert(w[at + 11] == part[11] && part[11] == closed_word(c, 11));
    assert(w[at + 12] == part[12] && part[12] == closed_word(c, 12));
    assert(w[at + 13] == part[13] && part[13] == closed_word(c, 13));
    assert(w[at + 14] == part[14] && part[14] == closed_word(c, 14));
    assert(w[at + 15] == part[15] && part[15] == closed_word(c, 15));
    assert(w[at + 16] == part[16] && part[16] == closed_word(c, 16));
    assert(w[at + 17] == part[17] && part[17] == closed_word(c, 17));
    assert(w[at + 18] == part[18] && part[18] == closed_word(c, 18));
    assert(w[at + 19] == part[19] && part[19] == closed_word(c, 19));
    assert(w[at + 20] == part[20] && part[20] == closed_word(c, 20));
    assert(w[at + 21] == part[21] && part[21] == closed_word(c, 21));
    assert(w[at + 22] == part[22] && part[22] == closed_word(c, 22));
    assert(w[at + 23] == part[23] && part[23] == closed_word(c, 23));
    assert(w[at + 24] == part[24] && part[24] == closed_word(c, 24));
    lemma_u128_back(w, at, c.id);
    assert(w[at + 2] == pos_word(c.side));
    lemma_fixed_back(w, at + 3, c.entry_price);
    assert(w[at + 4] == c.entry_time as u64);
    lemma_i64_word(c.entry_time);
    lemma_fixed_back(w, at + 5, c.exit_price);
    assert(w[at + 6] == c.exit_time as u64);
    lemma_i64_word(c.exit_time);
    lemma_fixed_back(w, at + 7, c.pnl);
    lemma_opt_back(w, at + 9, c.pnl_after_fees);
    lemma_opt_back(w, at + 11, c.exit_fee);
    lemma_opt_back(w, at + 13, c.quantity);
    lemma_opt_back(w, at + 15, c.sl);
    lemma_opt_back(w, at + 17, c.roi);
    lemma_opt_back(w, at + 19, c.leverage);
    lemma_opt_back(w, at + 21, c.margin);
    lemma_id_opt_back(w, at + 23, c.order_id);
}

/// A zone's stats written anywhere in a word sequence read back as
/// themselves.
pub proof fn lemma_stats_round_trip(s: ZoneStats, w: Seq<u64>, at: int)
    requires
        holds_at(w, at, stats_words(s)),
    ensures
        stats_at(w, at) == Some(s),
{
    let part = stats_words(s);
    assert(w[at + 0] == part[0] && part[0] == stats_word(s, 0));
    assert(w[at + 1] == part[1] && part[1] == stats_word(s, 1));
    assert(w[at + 2] == part[2] && part[2] == stats_word(s, 2));
    assert(w[at + 3] == part[3] && part[3] == stats_word(s, 3));
    lemma_id_opt_back(w, at + 2, s.cooldown_until);
}

proof fn lemma_rung_round_trip(t: PartialProfitTarget, w: Seq<u64>, at: int)
    requires
        holds_at(w, at, rung_words(t)),
    ensures
        rung_at(w, at) == Some(t),
{
    let part = rung_words(t);
    assert(w[at + 0] == part[0] && part[0] == rung_word(t, 0));
    assert(w[at + 1] == part[1] && part[1] == rung_word(t, 1));
    assert(w[at + 2] == part[2] && part[2] == rung_word(t, 2));
    assert(w[at + 3] == part[3] && part[3] == rung_word(t, 3));
    assert(w[at + 4] == part[4] && part[4] == rung_word(t, 4));
    lemma_fixed_back(w, at, t.target_price);
    lemma_fixed_back(w, at + 1, t.fraction);
    lemma_fixed_back(w, at + 2, t.size_btc);
    lemma_opt_back(w, at + 3, t.sl);
}

fn lo_hi(x: u128) -> (r: (u64, u64))
    ensures
        r.0 == lo_word(x),
        r.1 == hi_word(x),
{
    ((x % 0x1_0000_0000_0000_0000) as u64, (x / 0x1_0000_0000_0000_0000) as u64)
}

fn pos_code(p: Position) -> (r: u64)
    ensures
        r == pos_word(p),
{
    match p {
        Position::Flat => 0,
        Position::Long => 1,
        Position::Short => 2,
    }
}

fn code_pos(w: u64) -> (r: Position)
    ensures
        r == word_pos(w),
{
    if w == 1 { Position::Long } else if w == 2 { Position::Short } else { Position::Flat }
}

fn raw_word(f: Fixed) -> (r: u64)
    ensures
        r == f.raw as u64,
{
    #[verifier::truncate] (f.raw as u64)
}

fn word_raw(w: u64) -> (r: Fixed)
    ensures
        r == (Fixed { raw: w as i64 }),
{
    Fixed { raw: #[verifier::truncate] (w as i64) }
}

fn time_word(t: i64) -> (r: u64)
    ensures
        r == t as u64,
{
    #[verifier::truncate] (t as u64)
}

fn word_time(w: u64) -> (r: i64)
    ensures
        r == w as i64,
{
    #[verifier::truncate] (w as i64)
}

fn read_opt(w: &Vec<u64>, i: usize) -> (r: Option<Fixed>)
    requires
        i + 1 < w.len(),
    ensures
        r == fixed_opt_at(w@, i as int),
{
    if w[i] == 0 { None } else { Some(word_raw(w[i + 1])) }
}

fn read_id_opt(w: &Vec<u64>, i: usize) -> (r: Option<u64>)
    requires
        i + 1 < w.len(),
    ensures
        r == u64_opt_at(w@, i as int),
{
    if w[i] == 0 { None } else { Some(w[i + 1]) }
}

fn read_u128(w: &Vec<u64>, i: usize) -> (r: u128)
    requires
        i + 1 < w.len(),
    ensures
        r == u128_at(w@, i as int),
{
    proof {
        assert(w@[i as int] + w@[i + 1] * 0x1_0000_0000_0000_0000 <= u128::MAX) by (nonlinear_arith)
            requires w@[i as int] <= u64::MAX, w@[i + 1] <= u64::MAX;
    }
    w[i] as u128 + w[i + 1] as u128 * 0x1_0000_0000_0000_0000
}

fn opt_pair(o: Option<Fixed>) -> (r: (u64, u64))
    ensures
        r.0 == opt_tag(o),
        r.1 == opt_val(o),
{
    match o {
        Some(f) => (1, raw_word(f)),
        None => (0, 0),
    }
}

fn id_pair(o: Option<u64>) -> (r: (u64, u64))
    ensures
        r.0 == id_tag(o),
        r.1 == id_val(o),
{
    match o {
        Some(v) => (1, v),
        None => (0, 0),
    }
}

/// The words of an open position.
fn open_word_vec(p: &OpenPosition) -> (r: Vec<u64>)
    ensures
        r@ == open_words(*p),
{
    let (lo, hi) = lo_hi(p.id);
    let (t0, v0) = opt_pair(p.tp);
    let (t1, v1) = opt_pair(p.sl);
    let (t2, v2) = opt_pair(p.margin);
    let (t3, v3) = opt_pair(p.quantity);
    let (t4, v4) = opt_pair(p.leverage);
    let (t5, v5) = opt_pair(p.risk_pct);
    let (t6, v6) = id_pair(p.order_id);
    let r: Vec<u64> = vec![
        lo,
        hi,
        pos_code(p.pos),
        raw_word(p.entry_price),
        raw_word(p.position_size),
        time_word(p.entry_time),
        t0,
        v0,
        t1,
        v1,
        t2,
        v2,
        t3,
        v3,
        t4,
        v4,
        t5,
        v5,
        t6,
        v6,
    ];
    assert(r@ =~= open_words(*p));
    r
}

/// The open position stored at word `at`.
fn read_open(w: &Vec<u64>, at: usize) -> (r: Option<OpenPosition>)
    ensures
        r == open_at(w@, at as int),
{
    if at > w.len() || w.len() - at < OPEN_WORDS {
        return None;
    }
    if !(w[at + 2] <= 2 && w[at + 6] <= 1 && w[at + 8] <= 1 && w[at + 10] <= 1 && w[at + 12] <= 1 && w[at + 14] <= 1
        && w[at + 16] <= 1 && w[at + 18] <= 1) {
        return None;
    }
    Some(
        OpenPosition {
            id: read_u128(w, at),
            pos: code_pos(w[at + 2]),
            entry_price: word_raw(w[at + 3]),
            position_size: word_raw(w[at + 4]),
            entry_time: word_time(w[at + 5]),
            tp: read_opt(w, at + 6),
            sl: read_opt(w, at + 8),
            margin: read_opt(w, at + 10),
            quantity: read_opt(w, at + 12),
            leverage: read_opt(w, at + 14),
            risk_pct: read_opt(w, at + 16),
            order_id: read_id_opt(w, at + 18),
        },
    )
}

fn closed_word_vec(c: &ClosedPosition) -> (r: Vec<u64>)
    ensures
        r@ == closed_words(*c),
{
    let (lo, hi) = lo_hi(c.id);
    let (t0, v0) = opt_pair(c.pnl_after_fees);
    let (t1, v1) = opt_pair(c.exit_fee);
    let (t2, v2) = opt_pair(c.quantity);
    let (t3, v3) = opt_pair(c.sl);
    let (t4, v4) = opt_pair(c.roi);
    let (t5, v5) = opt_pair(c.leverage);
    let (t6, v6) = opt_pair(c.margin);
    let (t7, v7) = id_pair(c.order_id);
    let r: Vec<u64> = vec![
        lo,
        hi,
        pos_code(c.side),
        raw_word(c.entry_price),
        time_word(c.entry_time),
        raw_word(c.exit_price),
        time_word(c.exit_time),
        raw_word(c.pnl),
        0,
        t0,
        v0,
        t1,
        v1,
        t2,
        v2,
        t3,
        v3,
        t4,
        v4,
        t5,
        v5,
        t6,
        v6,
        t7,
        v7,
    ];
    assert(r@ =~= closed_words(*c));
    r
}

fn read_closed(w: &Vec<u64>, at: usize) -> (r: Option<ClosedPosition>)
    ensures
        r == closed_at(w@, at as int),
{
    if at > w.len() || w.len() - at < CLOSED_WORDS {
        return None;
    }
    if !(w[at + 2] <= 2 && w[at + 9] <= 1 && w[at + 11] <= 1 && w[at + 13] <= 1 && w[at + 15] <= 1 && w[at + 17] <= 1
        && w[at + 19] <= 1 && w[at + 21] <= 1 && w[at + 23] <= 1) {
        return None;
    }
    Some(
        ClosedPosition {
            id: read_u128(w, at),
            side: code_pos(w[at + 2]),
            entry_price: word_raw(w[at + 3]),
            entry_time: word_time(w[at + 4]),
            exit_price: word_raw(w[at + 5]),
            exit_time: word_time(w[at + 6]),
            pnl: word_raw(w[at + 7]),
            pnl_after_fees: read_opt(w, at + 9),
            exit_fee: read_opt(w, at + 11),
            quantity: read_opt(w, at + 13),
            sl: read_opt(w, at + 15),
            roi: read_opt(w, at + 17),
            leverage: read_opt(w, at + 19),
            margin: read_opt(w, at + 21),
            order_id: read_id_opt(w, at + 23),
        },
    )
}

fn stats_word_vec(s: &ZoneStats) -> (r: Vec<u64>)
    ensures
        r@ == stats_words(*s),
{
    let (t, v) = id_pair(s.cooldown_until);
    let r: Vec<u64> = vec![s.consecutive_losses as u64, if s.disabled { 1 } else { 0 }, t, v];
    assert(r@ =~= stats_words(*s));
    r
}

fn read_stats(w: &Vec<u64>, at: usize) -> (r: Option<ZoneStats>)
    ensures
        r == stats_at(w@, at as int),
{
    if at > w.len() || w.len() - at < STATS_WORDS {
        return None;
    }
    if !(w[at] <= 255 && w[at + 1] <= 1 && w[at + 2] <= 1) {
        return None;
    }
    Some(ZoneStats { consecutive_losses: w[at] as u8, disabled: w[at + 1] == 1, cooldown_until: read_id_opt(w, at + 2) })
}

/// Reads a whole record of `n` words written by `decode`.
pub open spec fn record_of<T>(b: Seq<u8>, n: int, decode: spec_fn(Seq<u64>, int) -> Option<T>) -> Option<T> {
    match words_of(b) {
        Some(w) => if w.len() == n { decode(w, 0) } else { None },
        None => None,
    }
}

pub open spec fn open_from_bytes(b: Seq<u8>) -> Option<OpenPosition> {
    record_of(b, OPEN_WORDS as int, |w: Seq<u64>, at: int| open_at(w, at))
}

pub open spec fn closed_from_bytes(b: Seq<u8>) -> Option<ClosedPosition> {
    record_of(b, CLOSED_WORDS as int, |w: Seq<u64>, at: int| closed_at(w, at))
}

pub open spec fn stats_from_bytes(b: Seq<u8>) -> Option<ZoneStats> {
    record_of(b, STATS_WORDS as int, |w: Seq<u64>, at: int| stats_at(w, at))
}

impl OpenPosition {
    pub fn to_bytes(&self) -> (r: Vec<u8>)
        ensures
            r@ == bytes_of(open_words(*self)),
    {
        words_to_bytes(&open_word_vec(self))
    }

    pub fn from_bytes(b: &Vec<u8>) -> (r: Option<OpenPosition>)
        ensures
            r == open_from_bytes(b@),
    {
        match bytes_to_words(b) {
            Some(w) => if w.len() == OPEN_WORDS { read_open(&w, 0) } else { None },
            None => None,
        }
    }
}

impl ClosedPosition {
    pub fn to_bytes(&self) -> (r: Vec<u8>)
        ensures
            r@ == bytes_of(closed_words(*self)),
    {
        words_to_bytes(&closed_word_vec(self))
    }

    pub fn from_bytes(b: &Vec<u8>) -> (r: Option<ClosedPosition>)
        ensures
            r == closed_from_bytes(b@),
    {
        match bytes_to_words(b) {
            Some(w) => if w.len() == CLOSED_WORDS { read_closed(&w, 0) } else { None },
            None => None,
        }
    }
}

impl ZoneStats {
    pub fn to_bytes(&self) -> (r: Vec<u8>)
        ensures
            r@ == bytes_of(stats_words(*self)),
    {
        words_to_bytes(&stats_word_vec(self))
    }

    pub fn from_bytes(b: &Vec<u8>) -> (r: Option<ZoneStats>)
        ensures
            r == stats_from_bytes(b@),
    {
        match bytes_to_words(b) {
            Some(w) => if w.len() == STATS_WORDS { read_stats(&w, 0) } else { None },
            None => None,
        }
    }
}

/// Storing an open position and reading it back gives every field as it was.
pub proof fn lemma_open_position_bytes_round_trip(p: OpenPosition)
    ensures
        open_from_bytes(bytes_of(open_words(p))) == Some(p),
{
    lemma_words_round_trip(open_words(p));
    lemma_open_round_trip(p, open_words(p), 0);
}

/// Storing a closed-position record and reading it back gives every field
/// as it was.
pub proof fn lemma_closed_position_bytes_round_trip(c: ClosedPosition)
    ensures
        closed_from_bytes(bytes_of(closed_words(c))) == Some(c),
{
    lemma_words_round_trip(closed_words(c));
    lemma_closed_round_trip(c, closed_words(c), 0);
}

/// Storing a zone's stats and reading them back gives every field as it was.
pub proof fn lemma_zone_stats_bytes_round_trip(s: ZoneStats)
    ensures
        stats_from_bytes(bytes_of(stats_words(s))) == Some(s),
{
    lemma_words_round_trip(stats_words(s));
    lemma_stats_round_trip(s, stats_words(s), 0);
}

/// Word `k` of the fixed part of a capitulation state.
pub open spec fn head_word(v: CapitulationView, k: int) -> u64 {
    if k == 0 {
        if v.phase is Complete { 1 } else { 0 }
    } else if k == 1 {
        match v.phase {
            CapitulationPhase::Trade(i) => i as u64,
            CapitulationPhase::Complete => 0,
        }
    } else if k == 2 {
        v.capital.raw as u64
    } else if k == 3 {
        if v.active is Some { 1 } else { 0 }
    } else if k < 4 + OPEN_WORDS {
        match v.active {
            Some(p) => open_word(p, k - 4),
            None => 0,
        }
    } else if k == 24 {
        if v.cooldown_until is Some { 1 } else { 0 }
    } else if k == 25 {
        match v.cooldown_until {
            Some(t) => t as u64,
            None => 0,
        }
    } else {
        v.targets.len() as u64
    }
}

/// Words of a capitulation state: the fixed part, then its rungs.
pub open spec fn state_words(v: CapitulationView) -> Seq<u64> {
    Seq::new(
        (STATE_HEAD_WORDS + RUNG_WORDS * v.targets.len()) as nat,
        |k: int|
            if k < STATE_HEAD_WORDS {
                head_word(v, k)
            } else {
                rung_word(v.targets[(k - STATE_HEAD_WORDS) / 5], (k - STATE_HEAD_WORDS) % 5)
            },
    )
}

/// The `n` rungs stored from word `at` on.
pub open spec fn rungs_at(w: Seq<u64>, at: int, n: nat) -> Option<Seq<PartialProfitTarget>>
    decreases n,
{
    if n == 0 {
        Some(Seq::empty())
    } else {
        match (rungs_at(w, at, (n - 1) as nat), rung_at(w, at + RUNG_WORDS * (n - 1))) {
            (Some(s), Some(t)) => Some(s.push(t)),
            _ => None,
        }
    }
}

/// The capitulation state that the words `w` hold, if they hold one.
pub open spec fn state_from_words(w: Seq<u64>) -> Option<CapitulationView> {
    if w.len() >= STATE_HEAD_WORDS && w[0] <= 1 && (w[0] == 0 ==> w[1] <= usize::MAX) && w[3] <= 1 && (w[3] == 1
        ==> open_at(w, 4) is Some) && w[24] <= 1 && w.len() == STATE_HEAD_WORDS + RUNG_WORDS * w[26] && rungs_at(
        w,
        STATE_HEAD_WORDS as int,
        w[26] as nat,
    ) is Some {
        Some(
            CapitulationView {
                phase: if w[0] == 0 { CapitulationPhase::Trade(w[1] as usize) } else { CapitulationPhase::Complete },
                capital: fixed_at(w, 2),
                active: if w[3] == 1 { open_at(w, 4) } else { None },
                targets: rungs_at(w, STATE_HEAD_WORDS as int, w[26] as nat)->0,
                cooldown_until: if w[24] == 0 { None } else { Some(w[25] as i64) },
            },
        )
    } else {
        None
    }
}

pub open spec fn state_from_bytes(b: Seq<u8>) -> Option<CapitulationView> {
    match words_of(b) {
        Some(w) => state_from_words(w),
        None => None,
    }
}

proof fn lemma_rungs_round_trip(ts: Seq<PartialProfitTarget>, w: Seq<u64>, at: int)
    requires
        0 <= at,
        at + RUNG_WORDS * ts.len() <= w.len(),
        forall|j: int| 0 <= j < RUNG_WORDS * ts.len() ==> w[at + j] == #[trigger] rung_word(ts[j / 5], j % 5),
    ensures
        rungs_at(w, at, ts.len()) == Some(ts),
    decreases ts.len(),
{
    if ts.len() > 0 {
        let n = ts.len() - 1;
        let p = ts.drop_last();
        assert forall|j: int| 0 <= j < RUNG_WORDS * p.len() implies w[at + j] == #[trigger] rung_word(p[j / 5], j % 5) by {
            assert(j / 5 < n) by {
                lemma_fundamental_div_mod_converse(j, 5, j / 5, j % 5);
            }
            assert(w[at + j] == rung_word(ts[j / 5], j % 5));
        }
        lemma_rungs_round_trip(p, w, at);
        let part = rung_words(ts[n]);
        assert forall|k: int| 0 <= k < part.len() implies w[at + 5 * n + k] == #[trigger] part[k] by {
            let j = 5 * n + k;
            lemma_fundamental_div_mod_converse(j, 5, n, k);
            assert(w[at + j] == rung_word(ts[j / 5], j % 5));
        }
        assert(holds_at(w, at + 5 * n, part)) by {
            assert forall|k: int| 0 <= k < part.len() implies w[(at + 5 * n) + k] == #[trigger] part[k] by {
                assert(w[at + 5 * n + k] == part[k]);
            }
        }
        lemma_rung_round_trip(ts[n], w, at + 5 * n);
        assert(p.push(ts[n]) =~= ts);
    }
}

/// Storing a capitulation state and reading it back gives the same state:
/// phase, capital, open position, every rung of its ladder, and cooldown.
pub proof fn lemma_state_round_trip(v: CapitulationView)
    requires
        v.targets.len() <= usize::MAX,
    ensures
        state_from_bytes(bytes_of(state_words(v))) == Some(v),
{
    let w = state_words(v);
    lemma_words_round_trip(w);
    let n = v.targets.len();
    assert(w.len() == STATE_HEAD_WORDS + RUNG_WORDS * n);
    assert(w[26] == n as u64);
    assert(w[26] as nat == n);
    assert forall|k: int| 0 <= k < STATE_HEAD_WORDS implies w[k] == #[trigger] head_word(v, k) by {}
    match v.active {
        Some(p) => {
            let part = open_words(p);
            assert forall|k: int| 0 <= k < part.len() implies w[4 + k] == #[trigger] part[k] by {
                assert(w[4 + k] == head_word(v, 4 + k));
            }
            lemma_open_round_trip(p, w, 4);
        },
        None => {},
    }
    assert forall|j: int| 0 <= j < RUNG_WORDS * n implies w[STATE_HEAD_WORDS + j] == #[trigger] rung_word(v.targets[j / 5], j % 5) by {
        let k = STATE_HEAD_WORDS + j;
        assert(k - STATE_HEAD_WORDS == j);
    }
    lemma_rungs_round_trip(v.targets, w, STATE_HEAD_WORDS as int);
    assert(w[2] == v.capital.raw as u64);
    lemma_i64_word(v.capital.raw);
    match v.cooldown_until {
        Some(t) => {
            assert(w[25] == t as u64);
            lemma_i64_word(t);
        },
        None => {},
    }
    match v.phase {
        CapitulationPhase::Trade(i) => {
            assert(w[1] == i as u64);
        },
        CapitulationPhase::Complete => {},
    }
}

fn append_words(out: &mut Vec<u64>, more: &Vec<u64>)
    ensures
        final(out)@ == old(out)@ + more@,
{
    let ghost start = out@;
    let mut i: usize = 0;
    while i < more.len()
        invariant
            i <= more@.len(),
            out@ == start + more@.subrange(0, i as int),
        decreases more@.len() - i,
    {
        out.push(more[i]);
        i = i + 1;
        assert(out@ =~= start + more@.subrange(0, i as int));
    }
    assert(more@.subrange(0, more@.len() as int) =~= more@);
}

fn rung_word_vec(t: &PartialProfitTarget) -> (r: Vec<u64>)
    ensures
        r@ == rung_words(*t),
{
    let (tag, val) = opt_pair(t.sl);
    let r: Vec<u64> = vec![raw_word(t.target_price), raw_word(t.fraction), raw_word(t.size_btc), tag, val];
    assert(r@ =~= rung_words(*t));
    r
}

fn read_rung(w: &Vec<u64>, at: usize) -> (r: Option<PartialProfitTarget>)
    ensures
        r == rung_at(w@, at as int),
{
    if at > w.len() || w.len() - at < RUNG_WORDS || w[at + 3] > 1 {
        return None;
    }
    Some(
        PartialProfitTarget {
            target_price: word_raw(w[at]),
            fraction: word_raw(w[at + 1]),
            size_btc: word_raw(w[at + 2]),
            sl: read_opt(w, at + 3),
        },
    )
}

impl CapitulationState {
    pub fn to_bytes(&self) -> (r: Vec<u8>)
        ensures
            r@ == bytes_of(state_words(self@)),
    {
        let ghost v = self@;
        let (tag, idx): (u64, u64) = match self.current_phase {
            CapitulationPhase::Trade(i) => (0, i as u64),
            CapitulationPhase::Complete => (1, 0),
        };
        let mut w: Vec<u64> = vec![tag, idx, raw_word(self.current_capital)];
        match self.active_position {
            Some(p) => {
                w.push(1);
                append_words(&mut w, &open_word_vec(&p));
            },
            None => {
                w.push(0);
                let zeros: Vec<u64> = vec![0, 0, 0, 0, 0, 0, 0, 0, 0, 0, 0, 0, 0, 0, 0, 0, 0, 0, 0, 0];
                append_words(&mut w, &zeros);
            },
        }
        match self.cooldown_until {
            Some(t) => {
                w.push(1);
                w.push(time_word(t));
            },
            None => {
                w.push(0);
                w.push(0);
            },
        }
        let n = self.partial_profit_targets.len();
        w.push(n as u64);
        assert forall|k: int| 0 <= k < STATE_HEAD_WORDS implies w@[k] == #[trigger] head_word(v, k) by {
            if 4 <= k < 24 {
                if let Some(p) = v.active {
                    assert(open_words(p)[k - 4] == open_word(p, k - 4));
                }
            }
        }
        let mut i: usize = 0;
        while i < n
            invariant
                v == self@,
                n == v.targets.len(),
                i <= n,
                w@.len() == STATE_HEAD_WORDS + RUNG_WORDS * i,
                forall|k: int| 0 <= k < STATE_HEAD_WORDS ==> w@[k] == #[trigger] head_word(v, k),
                forall|j: int| 0 <= j < RUNG_WORDS * i ==> w@[STATE_HEAD_WORDS + j] == #[trigger] rung_word(v.targets[j / 5], j % 5),
            decreases n - i,
        {
            let ghost before = w@;
            let rw = rung_word_vec(&self.partial_profit_targets[i]);
            append_words(&mut w, &rw);
            assert forall|j: int| 0 <= j < RUNG_WORDS * (i + 1) implies w@[STATE_HEAD_WORDS + j] == #[trigger] rung_word(v.targets[j / 5], j % 5) by {
                if j < RUNG_WORDS * i {
                    assert(w@[STATE_HEAD_WORDS + j] == before[STATE_HEAD_WORDS + j]);
                } else {
                    let k = j - 5 * i;
                    lemma_fundamental_div_mod_converse(j, 5, i as int, k);
                    assert(w@[STATE_HEAD_WORDS + j] == rw@[k]);
                }
            }
            assert forall|k: int| 0 <= k < STATE_HEAD_WORDS implies w@[k] == #[trigger] head_word(v, k) by {
                assert(w@[k] == before[k]);
            }
            i = i + 1;
        }
        assert(w@ =~= state_words(v));
        words_to_bytes(&w)
    }

    pub fn from_bytes(b: &Vec<u8>) -> (r: Option<CapitulationState>)
        ensures
            r matches Some(s) ==> state_from_bytes(b@) == Some(s@),
            r is None ==> state_from_bytes(b@) is None,
    {
        let w = match bytes_to_words(b) {
            Some(w) => w,
            None => {
                return None;
            },
        };
        let len = w.len();
        if len < STATE_HEAD_WORDS || w[0] > 1 || w[3] > 1 || w[24] > 1 {
            return None;
        }
        if w[0] == 0 && w[1] > usize::MAX as u64 {
            return None;
        }
        let active = if w[3] == 1 {
            match read_open(&w, 4) {
                Some(p) => Some(p),
                None => {
                    return None;
                },
            }
        } else {
            None
        };
        let rest = len - STATE_HEAD_WORDS;
        proof {
            lemma_fundamental_div_mod_converse(rest as int, 5, rest as int / 5, rest as int % 5);
        }
        if rest % RUNG_WORDS != 0 || (rest / RUNG_WORDS) as u64 != w[26] {
            proof {
                if rest as int == 5 * w@[26] {
                    lemma_fundamental_div_mod_converse(rest as int, 5, w@[26] as int, 0);
                }
            }
            return None;
        }
        let n = rest / RUNG_WORDS;
        let mut targets: Vec<PartialProfitTarget> = Vec::with_capacity(n);
        let mut i: usize = 0;
        while i < n
            invariant
                w@.len() == len,
                words_of(b@) == Some(w@),
                len == STATE_HEAD_WORDS + RUNG_WORDS * n,
                n as u64 == w@[26],
                i <= n,
                rungs_at(w@, STATE_HEAD_WORDS as int, i as nat) == Some(targets@),
            decreases n - i,
        {
            assert(STATE_HEAD_WORDS + RUNG_WORDS * i + RUNG_WORDS <= len) by (nonlinear_arith)
                requires i < n, len == STATE_HEAD_WORDS + RUNG_WORDS * n;
            match read_rung(&w, STATE_HEAD_WORDS + RUNG_WORDS * i) {
                Some(t) => {
                    targets.push(t);
                },
                None => {
                    proof {
                        lemma_rungs_fail_later(w@, STATE_HEAD_WORDS as int, i as nat, n as nat);
                        assert(w@[26] as nat == n as nat);
                    }
                    return None;
                },
            }
            i = i + 1;
        }
        let phase = if w[0] == 0 { CapitulationPhase::Trade(w[1] as usize) } else { CapitulationPhase::Complete };
        let cooldown_until = if w[24] == 0 { None } else { Some(word_time(w[25])) };
        Some(
            CapitulationState {
                current_phase: phase,
                current_capital: word_raw(w[2]),
                active_position: active,
                partial_profit_targets: targets,
                cooldown_until,
            },
        )
    }
}

/// Once rung `i` cannot be read, the run of `n > i` rungs cannot either.
proof fn lemma_rungs_fail_later(w: Seq<u64>, at: int, i: nat, n: nat)
    requires
        i < n,
        rung_at(w, at + RUNG_WORDS * i) is None,
    ensures
        rungs_at(w, at, n) is None,
    decreases n,
{
    if n - 1 > i {
        lemma_rungs_fail_later(w, at, i, (n - 1) as nat);
    }
}

} // verus!
