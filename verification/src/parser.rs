//! The escape-sequence parser: a byte-driven state machine that turns an
//! arbitrarily chunked byte stream into a sequence of [`Action`]s.  Its whole
//! behaviour is the spec function [`parser_feed`], a fold of [`parser_step`]
//! over the input bytes; [`lemma_feed_split`] shows that feeding a stream in
//! two chunks produces exactly the actions of feeding it whole, at any split.

use crate::action::Action;
use crate::action::ActionV;
use crate::action::views;
use crate::action::MAX_INTERMEDIATES;
use crate::action::MAX_OSC_LEN;
use crate::action::MAX_PARAMS;
use crate::action::PARAM_CEILING;
use crate::action::REPLACEMENT;
use crate::util::copy_vec;
use vstd::prelude::*;
use vstd::assert_seqs_equal;

verus! {

/// Node of the parser's state machine.
#[derive(Debug, Clone, Copy, PartialEq, Eq, Structural)]
pub enum ParseState {
    Ground,
    Escape,
    EscapeIntermediate,
    CsiEntry,
    CsiParam,
    CsiIntermediate,
    CsiIgnore,
    OscString,
    DcsEntry,
    DcsParam,
    DcsIntermediate,
    DcsPassthrough,
    DcsIgnore,
    SosPmApcString,
}

/// Mathematical view of the parser: the state node plus every accumulator.
#[verifier::ext_equal]
pub struct ParserV {
    pub state: ParseState,
    pub params: Seq<u16>,
    pub param: u16,
    pub inters: Seq<u8>,
    pub osc: Seq<u8>,
    pub marker: u8,
    pub utf8_rem: u8,
    pub utf8_len: u8,
    pub utf8_cp: u32,
}

/// The escape-sequence parser.  It owns only transient syntactic state and is
/// restartable: a sequence split across chunks resumes where it stopped.
pub struct Parser {
    state: ParseState,
    params: Vec<u16>,
    param: u16,
    inters: Vec<u8>,
    osc: Vec<u8>,
    marker: u8,
    utf8_rem: u8,
    utf8_len: u8,
    utf8_cp: u32,
}

impl View for Parser {
    type V = ParserV;

    closed spec fn view(&self) -> ParserV {
        ParserV {
            state: self.state,
            params: self.params@,
            param: self.param,
            inters: self.inters@,
            osc: self.osc@,
            marker: self.marker,
            utf8_rem: self.utf8_rem,
            utf8_len: self.utf8_len,
            utf8_cp: self.utf8_cp,
        }
    }
}

// ---------------------------------------------------------------------------
// Spec model: one step per byte.
// ---------------------------------------------------------------------------

/// The parser with every sequence accumulator cleared and `st` entered.
pub open spec fn reset_seq(s: ParserV, st: ParseState) -> ParserV {
    ParserV {
        state: st,
        params: Seq::empty(),
        param: 0,
        inters: Seq::empty(),
        osc: Seq::empty(),
        marker: 0,
        ..s
    }
}

/// The parser with its text-decoding accumulator cleared.
pub open spec fn reset_utf8(s: ParserV) -> ParserV {
    ParserV { utf8_rem: 0, utf8_len: 0, utf8_cp: 0, ..s }
}

/// Intermediate bytes accumulate up to their bound; later ones are dropped.
pub open spec fn pushed_inter(s: Seq<u8>, b: u8) -> Seq<u8> {
    if s.len() < MAX_INTERMEDIATES {
        s.push(b)
    } else {
        s
    }
}

/// Parameters accumulate up to their bound; later ones are dropped.
pub open spec fn pushed_param(s: Seq<u16>, p: u16) -> Seq<u16> {
    if s.len() < MAX_PARAMS {
        s.push(p)
    } else {
        s
    }
}

/// A further decimal digit of a numeric parameter, saturating at the ceiling.
pub open spec fn sat_param(p: u16, b: u8) -> u16 {
    if (p as u32) * 10 + ((b - 0x30) as u32) > PARAM_CEILING as u32 {
        PARAM_CEILING
    } else {
        (p * 10 + (b - 0x30) as u16) as u16
    }
}

/// OSC payload bytes accumulate up to their bound; later ones are dropped.
pub open spec fn pushed_osc(s: Seq<u8>, b: u8) -> Seq<u8> {
    if s.len() < MAX_OSC_LEN {
        s.push(b)
    } else {
        s
    }
}

/// Handling shared by every escape-family state: CAN and SUB abort the
/// sequence, ESC restarts one, and remaining C0 controls execute in place.
pub open spec fn step_ctl(s: ParserV, b: u8) -> Option<(ParserV, Seq<ActionV>)> {
    if b == 0x18 || b == 0x1a {
        Some((ParserV { state: ParseState::Ground, ..s }, seq![ActionV::Execute(b)]))
    } else if b == 0x1b {
        Some((reset_seq(s, ParseState::Escape), Seq::empty()))
    } else if b < 0x20 {
        Some((s, seq![ActionV::Execute(b)]))
    } else {
        None
    }
}

/// Ground state: C0 controls execute, printable bytes print, and bytes above
/// the ASCII range begin or reject a multi-byte text sequence.
pub open spec fn step_ground(s: ParserV, b: u8) -> (ParserV, Seq<ActionV>) {
    if b == 0x1b {
        (reset_seq(s, ParseState::Escape), Seq::empty())
    } else if b < 0x20 {
        (s, seq![ActionV::Execute(b)])
    } else if b < 0x7f {
        (s, seq![ActionV::Print(b as u32)])
    } else if b == 0x7f {
        (s, Seq::empty())
    } else if 0xc2 <= b && b <= 0xdf {
        (ParserV { utf8_rem: 1, utf8_len: 2, utf8_cp: (b & 0x1f) as u32, ..s }, Seq::empty())
    } else if 0xe0 <= b && b <= 0xef {
        (ParserV { utf8_rem: 2, utf8_len: 3, utf8_cp: (b & 0x0f) as u32, ..s }, Seq::empty())
    } else if 0xf0 <= b && b <= 0xf4 {
        (ParserV { utf8_rem: 3, utf8_len: 4, utf8_cp: (b & 0x07) as u32, ..s }, Seq::empty())
    } else {
        (s, seq![ActionV::Print(REPLACEMENT)])
    }
}

/// Least code point that an encoding of `len` bytes may carry.
pub open spec fn utf8_floor(len: u8) -> u32 {
    if len == 2 {
        0x80
    } else if len == 3 {
        0x800
    } else {
        0x10000
    }
}

/// Whether a completed `len`-byte encoding of `cp` is a valid scalar value:
/// not overlong, not a surrogate, not above the Unicode range.
pub open spec fn utf8_valid(cp: u32, len: u8) -> bool {
    cp >= utf8_floor(len) && !(0xd800 <= cp && cp <= 0xdfff) && cp <= 0x10ffff
}

/// Mid-sequence text decoding: a continuation byte extends the code point and
/// the last one prints it (or the replacement); any other byte prints the
/// replacement and is then handled from the ground state.
pub open spec fn step_utf8(s: ParserV, b: u8) -> (ParserV, Seq<ActionV>) {
    if 0x80 <= b && b < 0xc0 {
        let cp = (s.utf8_cp << 6) | ((b & 0x3f) as u32);
        if s.utf8_rem <= 1 {
            let out = if utf8_valid(cp, s.utf8_len) {
                cp
            } else {
                REPLACEMENT
            };
            (reset_utf8(s), seq![ActionV::Print(out)])
        } else {
            (ParserV { utf8_rem: (s.utf8_rem - 1) as u8, utf8_cp: cp, ..s }, Seq::empty())
        }
    } else {
        let r = step_ground(reset_utf8(s), b);
        (r.0, seq![ActionV::Print(REPLACEMENT)] + r.1)
    }
}

/// Escape state: intermediates collect, `[`, `]`, `P` and the string openers
/// switch families, and any other final byte dispatches a plain escape.
pub open spec fn step_escape(s: ParserV, b: u8) -> (ParserV, Seq<ActionV>) {
    match step_ctl(s, b) {
        Some(r) => r,
        None => {
            if 0x20 <= b && b <= 0x2f {
                (
                    ParserV {
                        state: ParseState::EscapeIntermediate,
                        inters: pushed_inter(s.inters, b),
                        ..s
                    },
                    Seq::empty(),
                )
            } else if b == 0x50 {
                (reset_seq(s, ParseState::DcsEntry), Seq::empty())
            } else if b == 0x58 || b == 0x5e || b == 0x5f {
                (ParserV { state: ParseState::SosPmApcString, ..s }, Seq::empty())
            } else if b == 0x5b {
                (reset_seq(s, ParseState::CsiEntry), Seq::empty())
            } else if b == 0x5d {
                (reset_seq(s, ParseState::OscString), Seq::empty())
            } else if 0x30 <= b && b <= 0x7e {
                (
                    reset_seq(s, ParseState::Ground),
                    seq![ActionV::Esc { final_byte: b, inters: s.inters }],
                )
            } else if b == 0x7f {
                (s, Seq::empty())
            } else {
                (ParserV { state: ParseState::Ground, ..s }, Seq::empty())
            }
        },
    }
}

/// Escape-intermediate state: more intermediates collect; a final byte
/// dispatches the escape with them.
pub open spec fn step_escape_inter(s: ParserV, b: u8) -> (ParserV, Seq<ActionV>) {
    match step_ctl(s, b) {
        Some(r) => r,
        None => {
            if 0x20 <= b && b <= 0x2f {
                (ParserV { inters: pushed_inter(s.inters, b), ..s }, Seq::empty())
            } else if 0x30 <= b && b <= 0x7e {
                (
                    reset_seq(s, ParseState::Ground),
                    seq![ActionV::Esc { final_byte: b, inters: s.inters }],
                )
            } else if b == 0x7f {
                (s, Seq::empty())
            } else {
                (ParserV { state: ParseState::Ground, ..s }, Seq::empty())
            }
        },
    }
}

/// CSI entry state, reached right after `ESC [`.
pub open spec fn step_csi_entry(s: ParserV, b: u8) -> (ParserV, Seq<ActionV>) {
    match step_ctl(s, b) {
        Some(r) => r,
        None => {
            if 0x20 <= b && b <= 0x2f {
                (
                    ParserV {
                        state: ParseState::CsiIntermediate,
                        inters: pushed_inter(s.inters, b),
                        ..s
                    },
                    Seq::empty(),
                )
            } else if 0x30 <= b && b <= 0x39 {
                (ParserV { state: ParseState::CsiParam, param: (b - 0x30) as u16, ..s }, Seq::empty())
            } else if b == 0x3b {
                (
                    ParserV {
                        state: ParseState::CsiParam,
                        params: pushed_param(s.params, s.param),
                        param: 0,
                        ..s
                    },
                    Seq::empty(),
                )
            } else if b == 0x3a {
                (ParserV { state: ParseState::CsiIgnore, ..s }, Seq::empty())
            } else if 0x3c <= b && b <= 0x3f {
                (ParserV { state: ParseState::CsiParam, marker: b, ..s }, Seq::empty())
            } else if 0x40 <= b && b <= 0x7e {
                (
                    reset_seq(s, ParseState::Ground),
                    seq![
                        ActionV::Csi {
                            final_byte: b,
                            params: s.params,
                            inters: s.inters,
                            marker: s.marker,
                        },
                    ],
                )
            } else if b == 0x7f {
                (s, Seq::empty())
            } else {
                (ParserV { state: ParseState::Ground, ..s }, Seq::empty())
            }
        },
    }
}

/// CSI parameter state: digits extend the current parameter, `;` closes it.
pub open spec fn step_csi_param(s: ParserV, b: u8) -> (ParserV, Seq<ActionV>) {
    match step_ctl(s, b) {
        Some(r) => r,
        None => {
            if 0x30 <= b && b <= 0x39 {
                (ParserV { param: sat_param(s.param, b), ..s }, Seq::empty())
            } else if b == 0x3b {
                (
                    ParserV { params: pushed_param(s.params, s.param), param: 0, ..s },
                    Seq::empty(),
                )
            } else if 0x20 <= b && b <= 0x2f {
                (
                    ParserV {
                        state: ParseState::CsiIntermediate,
                        params: pushed_param(s.params, s.param),
                        param: 0,
                        inters: pushed_inter(s.inters, b),
                        ..s
                    },
                    Seq::empty(),
                )
            } else if 0x3a <= b && b <= 0x3f {
                (ParserV { state: ParseState::CsiIgnore, ..s }, Seq::empty())
            } else if 0x40 <= b && b <= 0x7e {
                (
                    reset_seq(s, ParseState::Ground),
                    seq![
                        ActionV::Csi {
                            final_byte: b,
                            params: pushed_param(s.params, s.param),
                            inters: s.inters,
                            marker: s.marker,
                        },
                    ],
                )
            } else if b == 0x7f {
                (s, Seq::empty())
            } else {
                (ParserV { state: ParseState::Ground, ..s }, Seq::empty())
            }
        },
    }
}

/// CSI intermediate state: only further intermediates or a final byte follow.
pub open spec fn step_csi_inter(s: ParserV, b: u8) -> (ParserV, Seq<ActionV>) {
    match step_ctl(s, b) {
        Some(r) => r,
        None => {
            if 0x20 <= b && b <= 0x2f {
                (ParserV { inters: pushed_inter(s.inters, b), ..s }, Seq::empty())
            } else if 0x40 <= b && b <= 0x7e {
                (
                    reset_seq(s, ParseState::Ground),
                    seq![
                        ActionV::Csi {
                            final_byte: b,
                            params: s.params,
                            inters: s.inters,
                            marker: s.marker,
                        },
                    ],
                )
            } else if b == 0x7f {
                (s, Seq::empty())
            } else if b >= 0x80 {
                (ParserV { state: ParseState::Ground, ..s }, Seq::empty())
            } else {
                (ParserV { state: ParseState::CsiIgnore, ..s }, Seq::empty())
            }
        },
    }
}

/// Malformed-CSI state: bytes are discarded until a would-be final byte.
pub open spec fn step_csi_ignore(s: ParserV, b: u8) -> (ParserV, Seq<ActionV>) {
    match step_ctl(s, b) {
        Some(r) => r,
        None => {
            if 0x40 <= b && b <= 0x7e {
                (ParserV { state: ParseState::Ground, ..s }, Seq::empty())
            } else {
                (s, Seq::empty())
            }
        },
    }
}

/// OSC string state: the payload accumulates until BEL or ESC terminates it;
/// an oversized payload is truncated but still dispatched.
pub open spec fn step_osc(s: ParserV, b: u8) -> (ParserV, Seq<ActionV>) {
    if b == 0x07 {
        (reset_seq(s, ParseState::Ground), seq![ActionV::Osc { payload: s.osc }])
    } else if b == 0x1b {
        (reset_seq(s, ParseState::Escape), seq![ActionV::Osc { payload: s.osc }])
    } else if b == 0x18 || b == 0x1a {
        (ParserV { state: ParseState::Ground, ..s }, seq![ActionV::Execute(b)])
    } else if b < 0x20 {
        (s, Seq::empty())
    } else {
        (ParserV { osc: pushed_osc(s.osc, b), ..s }, Seq::empty())
    }
}

/// DCS entry state, reached right after `ESC P`.
pub open spec fn step_dcs_entry(s: ParserV, b: u8) -> (ParserV, Seq<ActionV>) {
    match step_ctl(s, b) {
        Some(r) => r,
        None => {
            if 0x20 <= b && b <= 0x2f {
                (
                    ParserV {
                        state: ParseState::DcsIntermediate,
                        inters: pushed_inter(s.inters, b),
                        ..s
                    },
                    Seq::empty(),
                )
            } else if 0x30 <= b && b <= 0x39 {
                (ParserV { state: ParseState::DcsParam, param: (b - 0x30) as u16, ..s }, Seq::empty())
            } else if b == 0x3b {
                (
                    ParserV {
                        state: ParseState::DcsParam,
                        params: pushed_param(s.params, s.param),
                        param: 0,
                        ..s
                    },
                    Seq::empty(),
                )
            } else if b == 0x3a {
                (ParserV { state: ParseState::DcsIgnore, ..s }, Seq::empty())
            } else if 0x3c <= b && b <= 0x3f {
                (ParserV { state: ParseState::DcsParam, marker: b, ..s }, Seq::empty())
            } else if 0x40 <= b && b <= 0x7e {
                (
                    ParserV { state: ParseState::DcsPassthrough, ..s },
                    seq![
                        ActionV::DcsHook {
                            final_byte: b,
                            params: s.params,
                            inters: s.inters,
                            marker: s.marker,
                        },
                    ],
                )
            } else if b == 0x7f {
                (s, Seq::empty())
            } else {
                (ParserV { state: ParseState::Ground, ..s }, Seq::empty())
            }
        },
    }
}

/// DCS parameter state, the analogue of the CSI one.
pub open spec fn step_dcs_param(s: ParserV, b: u8) -> (ParserV, Seq<ActionV>) {
    match step_ctl(s, b) {
        Some(r) => r,
        None => {
            if 0x30 <= b && b <= 0x39 {
                (ParserV { param: sat_param(s.param, b), ..s }, Seq::empty())
            } else if b == 0x3b {
                (
                    ParserV { params: pushed_param(s.params, s.param), param: 0, ..s },
                    Seq::empty(),
                )
            } else if 0x20 <= b && b <= 0x2f {
                (
                    ParserV {
                        state: ParseState::DcsIntermediate,
                        params: pushed_param(s.params, s.param),
                        param: 0,
                        inters: pushed_inter(s.inters, b),
                        ..s
                    },
                    Seq::empty(),
                )
            } else if 0x3a <= b && b <= 0x3f {
                (ParserV { state: ParseState::DcsIgnore, ..s }, Seq::empty())
            } else if 0x40 <= b && b <= 0x7e {
                (
                    ParserV {
                        state: ParseState::DcsPassthrough,
                        params: pushed_param(s.params, s.param),
                        param: 0,
                        ..s
                    },
                    seq![
                        ActionV::DcsHook {
                            final_byte: b,
                            params: pushed_param(s.params, s.param),
                            inters: s.inters,
                            marker: s.marker,
                        },
                    ],
                )
            } else if b == 0x7f {
                (s, Seq::empty())
            } else {
                (ParserV { state: ParseState::Ground, ..s }, Seq::empty())
            }
        },
    }
}

/// DCS intermediate state, the analogue of the CSI one.
pub open spec fn step_dcs_inter(s: ParserV, b: u8) -> (ParserV, Seq<ActionV>) {
    match step_ctl(s, b) {
        Some(r) => r,
        None => {
            if 0x20 <= b && b <= 0x2f {
                (ParserV { inters: pushed_inter(s.inters, b), ..s }, Seq::empty())
            } else if 0x40 <= b && b <= 0x7e {
                (
                    ParserV { state: ParseState::DcsPassthrough, ..s },
                    seq![
                        ActionV::DcsHook {
                            final_byte: b,
                            params: s.params,
                            inters: s.inters,
                            marker: s.marker,
                        },
                    ],
                )
            } else if b == 0x7f {
                (s, Seq::empty())
            } else if b >= 0x80 {
                (ParserV { state: ParseState::Ground, ..s }, Seq::empty())
            } else {
                (ParserV { state: ParseState::DcsIgnore, ..s }, Seq::empty())
            }
        },
    }
}

/// DCS passthrough: every payload byte is handed on until ESC, CAN or SUB.
pub open spec fn step_dcs_pass(s: ParserV, b: u8) -> (ParserV, Seq<ActionV>) {
    if b == 0x1b {
        (reset_seq(s, ParseState::Escape), seq![ActionV::DcsUnhook])
    } else if b == 0x18 || b == 0x1a {
        (ParserV { state: ParseState::Ground, ..s }, seq![ActionV::DcsUnhook])
    } else if b == 0x7f {
        (s, Seq::empty())
    } else {
        (s, seq![ActionV::DcsPut(b)])
    }
}

/// Discarding string states: bytes vanish until the string terminates.
pub open spec fn step_discard(s: ParserV, b: u8) -> (ParserV, Seq<ActionV>) {
    if b == 0x1b {
        (reset_seq(s, ParseState::Escape), Seq::empty())
    } else if b == 0x18 || b == 0x1a {
        (ParserV { state: ParseState::Ground, ..s }, Seq::empty())
    } else {
        (s, Seq::empty())
    }
}

/// One parser step: the next state and the actions the byte completes.
pub open spec fn parser_step(s: ParserV, b: u8) -> (ParserV, Seq<ActionV>) {
    if s.utf8_rem > 0 {
        step_utf8(s, b)
    } else {
        match s.state {
            ParseState::Ground => step_ground(s, b),
            ParseState::Escape => step_escape(s, b),
            ParseState::EscapeIntermediate => step_escape_inter(s, b),
            ParseState::CsiEntry => step_csi_entry(s, b),
            ParseState::CsiParam => step_csi_param(s, b),
            ParseState::CsiIntermediate => step_csi_inter(s, b),
            ParseState::CsiIgnore => step_csi_ignore(s, b),
            ParseState::OscString => step_osc(s, b),
            ParseState::DcsEntry => step_dcs_entry(s, b),
            ParseState::DcsParam => step_dcs_param(s, b),
            ParseState::DcsIntermediate => step_dcs_inter(s, b),
            ParseState::DcsPassthrough => step_dcs_pass(s, b),
            ParseState::DcsIgnore => step_discard(s, b),
            ParseState::SosPmApcString => step_discard(s, b),
        }
    }
}

/// Feeding a whole chunk: the fold of [`parser_step`] over its bytes.
pub open spec fn parser_feed(s: ParserV, bytes: Seq<u8>) -> (ParserV, Seq<ActionV>)
    decreases bytes.len(),
{
    if bytes.len() == 0 {
        (s, Seq::empty())
    } else {
        let r1 = parser_step(s, bytes[0]);
        let r2 = parser_feed(r1.0, bytes.drop_first());
        (r2.0, r1.1 + r2.1)
    }
}

/// The state of a freshly constructed parser.
pub open spec fn parser_init() -> ParserV {
    ParserV {
        state: ParseState::Ground,
        params: Seq::empty(),
        param: 0,
        inters: Seq::empty(),
        osc: Seq::empty(),
        marker: 0,
        utf8_rem: 0,
        utf8_len: 0,
        utf8_cp: 0,
    }
}

// ---------------------------------------------------------------------------
// Laws.
// ---------------------------------------------------------------------------

/// Feeding one more byte after a chunk steps the state once and appends the
/// byte's actions.
pub proof fn lemma_feed_snoc(s: ParserV, bs: Seq<u8>, b: u8)
    ensures
        parser_feed(s, bs.push(b)).0 == parser_step(parser_feed(s, bs).0, b).0,
        parser_feed(s, bs.push(b)).1 == parser_feed(s, bs).1 + parser_step(
            parser_feed(s, bs).0,
            b,
        ).1,
    decreases bs.len(),
{
    reveal_with_fuel(parser_feed, 2);
    if bs.len() == 0 {
        assert(bs.push(b)[0] == b);
        assert_seqs_equal!(bs.push(b).drop_first() == bs);
        assert(parser_feed(s, bs.push(b)).1 =~= parser_feed(s, bs).1 + parser_step(
            parser_feed(s, bs).0,
            b,
        ).1);
    } else {
        let r1 = parser_step(s, bs[0]);
        assert(bs.push(b)[0] == bs[0]);
        assert_seqs_equal!(bs.push(b).drop_first() == bs.drop_first().push(b));
        lemma_feed_snoc(r1.0, bs.drop_first(), b);
        assert(parser_feed(s, bs.push(b)).1 =~= parser_feed(s, bs).1 + parser_step(
            parser_feed(s, bs).0,
            b,
        ).1);
    }
}

/// Splitting a byte stream at any boundary changes nothing: feeding the two
/// chunks one after the other ends in the same state and produces the same
/// action sequence as feeding the whole stream at once.
pub proof fn lemma_feed_split(s: ParserV, b1: Seq<u8>, b2: Seq<u8>)
    ensures
        parser_feed(s, b1 + b2).0 == parser_feed(parser_feed(s, b1).0, b2).0,
        parser_feed(s, b1 + b2).1 == parser_feed(s, b1).1 + parser_feed(
            parser_feed(s, b1).0,
            b2,
        ).1,
    decreases b1.len(),
{
    reveal_with_fuel(parser_feed, 2);
    if b1.len() == 0 {
        assert_seqs_equal!(b1 + b2 == b2);
        assert(parser_feed(s, b1 + b2).1 =~= parser_feed(s, b1).1 + parser_feed(
            parser_feed(s, b1).0,
            b2,
        ).1);
    } else {
        let r1 = parser_step(s, b1[0]);
        assert((b1 + b2)[0] == b1[0]);
        assert_seqs_equal!((b1 + b2).drop_first() == b1.drop_first() + b2);
        lemma_feed_split(r1.0, b1.drop_first(), b2);
        assert(parser_feed(s, b1 + b2).1 =~= parser_feed(s, b1).1 + parser_feed(
            parser_feed(s, b1).0,
            b2,
        ).1);
    }
}

// ---------------------------------------------------------------------------
// Executable parser.
// ---------------------------------------------------------------------------

/// Least code point that an encoding of `len` bytes may carry.
fn utf8_floor_exec(len: u8) -> (r: u32)
    ensures
        r == utf8_floor(len),
{
    if len == 2 {
        0x80
    } else if len == 3 {
        0x800
    } else {
        0x10000
    }
}

/// Appends one action, recorded in terms of the action-view sequence.
fn emit(out: &mut Vec<Action>, a: Action)
    ensures
        views(final(out)@) == views(old(out)@) + seq![a@],
{
    let ghost pre = out@;
    let ghost av = a@;
    out.push(a);
    proof {
        assert_seqs_equal!(views(out@) == views(pre) + seq![av]);
    }
}

impl Parser {
    /// A parser in the ground state with empty accumulators.
    pub fn new() -> (r: Parser)
        ensures
            r@ == parser_init(),
    {
        Parser {
            state: ParseState::Ground,
            params: Vec::new(),
            param: 0,
            inters: Vec::new(),
            osc: Vec::new(),
            marker: 0,
            utf8_rem: 0,
            utf8_len: 0,
            utf8_cp: 0,
        }
    }

    /// Clears every sequence accumulator and enters `st`.
    fn reset_seq_to(&mut self, st: ParseState)
        ensures
            final(self)@ == reset_seq(old(self)@, st),
    {
        self.state = st;
        self.params.clear();
        self.param = 0;
        self.inters.clear();
        self.osc.clear();
        self.marker = 0;
    }

    /// Pushes an intermediate byte, dropping it past the bound.
    fn push_inter(&mut self, b: u8)
        ensures
            final(self)@ == (ParserV { inters: pushed_inter(old(self)@.inters, b), ..old(self)@ }),
    {
        if self.inters.len() < MAX_INTERMEDIATES {
            self.inters.push(b);
        }
    }

    /// Closes the current numeric parameter, dropping it past the bound.
    fn close_param(&mut self)
        ensures
            final(self)@ == (ParserV {
                params: pushed_param(old(self)@.params, old(self)@.param),
                param: 0,
                ..old(self)@
            }),
    {
        if self.params.len() < MAX_PARAMS {
            let p = self.param;
            self.params.push(p);
        }
        self.param = 0;
    }

    /// Extends the current numeric parameter by a digit, saturating.
    fn push_digit(&mut self, b: u8)
        requires
            0x30 <= b <= 0x39,
        ensures
            final(self)@ == (ParserV { param: sat_param(old(self)@.param, b), ..old(self)@ }),
    {
        let v: u32 = (self.param as u32) * 10 + ((b - 0x30) as u32);
        if v > PARAM_CEILING as u32 {
            self.param = PARAM_CEILING;
        } else {
            self.param = self.param * 10 + (b - 0x30) as u16;
        }
    }

    /// The common C0 handling of the escape-family states; true when taken.
    fn try_ctl(&mut self, b: u8, out: &mut Vec<Action>) -> (taken: bool)
        ensures
            taken == (step_ctl(old(self)@, b) is Some),
            taken ==> {
                let r = step_ctl(old(self)@, b)->Some_0;
                &&& final(self)@ == r.0
                &&& views(final(out)@) == views(old(out)@) + r.1
            },
            !taken ==> final(self)@ == old(self)@ && final(out)@ == old(out)@,
    {
        if b == 0x18 || b == 0x1a {
            self.state = ParseState::Ground;
            emit(out, Action::Execute(b));
            true
        } else if b == 0x1b {
            self.reset_seq_to(ParseState::Escape);
            proof {
                assert(views(out@) =~= views(old(out)@) + Seq::<ActionV>::empty());
            }
            true
        } else if b < 0x20 {
            emit(out, Action::Execute(b));
            true
        } else {
            false
        }
    }

    /// Dispatches a complete CSI sequence with the parameters given.
    fn dispatch_csi(&mut self, b: u8, close: bool, out: &mut Vec<Action>)
        ensures
            final(self)@ == reset_seq(old(self)@, ParseState::Ground),
            views(final(out)@) == views(old(out)@) + seq![
                ActionV::Csi {
                    final_byte: b,
                    params: if close {
                        pushed_param(old(self)@.params, old(self)@.param)
                    } else {
                        old(self)@.params
                    },
                    inters: old(self)@.inters,
                    marker: old(self)@.marker,
                },
            ],
    {
        if close {
            self.close_param();
        }
        let a = Action::Csi {
            final_byte: b,
            params: copy_vec(&self.params),
            inters: copy_vec(&self.inters),
            marker: self.marker,
        };
        self.reset_seq_to(ParseState::Ground);
        emit(out, a);
    }

    /// Dispatches the header of a device control string.
    fn dispatch_dcs_hook(&mut self, b: u8, close: bool, out: &mut Vec<Action>)
        ensures
            final(self)@ == (ParserV {
                state: ParseState::DcsPassthrough,
                params: if close {
                    pushed_param(old(self)@.params, old(self)@.param)
                } else {
                    old(self)@.params
                },
                param: if close {
                    0
                } else {
                    old(self)@.param
                },
                ..old(self)@
            }),
            views(final(out)@) == views(old(out)@) + seq![
                ActionV::DcsHook {
                    final_byte: b,
                    params: if close {
                        pushed_param(old(self)@.params, old(self)@.param)
                    } else {
                        old(self)@.params
                    },
                    inters: old(self)@.inters,
                    marker: old(self)@.marker,
                },
            ],
    {
        if close {
            self.close_param();
        }
        let a = Action::DcsHook {
            final_byte: b,
            params: copy_vec(&self.params),
            inters: copy_vec(&self.inters),
            marker: self.marker,
        };
        self.state = ParseState::DcsPassthrough;
        emit(out, a);
    }

    /// One byte in the ground state.
    fn do_ground(&mut self, b: u8, out: &mut Vec<Action>)
        ensures
            final(self)@ == step_ground(old(self)@, b).0,
            views(final(out)@) == views(old(out)@) + step_ground(old(self)@, b).1,
    {
        let ghost pre = views(out@);
        if b == 0x1b {
            self.reset_seq_to(ParseState::Escape);
        } else if b < 0x20 {
            emit(out, Action::Execute(b));
        } else if b < 0x7f {
            emit(out, Action::Print(b as u32));
        } else if b == 0x7f {
        } else if 0xc2 <= b && b <= 0xdf {
            self.utf8_rem = 1;
            self.utf8_len = 2;
            self.utf8_cp = (b & 0x1f) as u32;
        } else if 0xe0 <= b && b <= 0xef {
            self.utf8_rem = 2;
            self.utf8_len = 3;
            self.utf8_cp = (b & 0x0f) as u32;
        } else if 0xf0 <= b && b <= 0xf4 {
            self.utf8_rem = 3;
            self.utf8_len = 4;
            self.utf8_cp = (b & 0x07) as u32;
        } else {
            emit(out, Action::Print(REPLACEMENT));
        }
        proof {
            assert(views(out@) =~= pre + step_ground(old(self)@, b).1);
        }
    }

    /// One byte of a multi-byte text sequence in progress.
    fn do_utf8(&mut self, b: u8, out: &mut Vec<Action>)
        requires
            old(self)@.utf8_rem > 0,
        ensures
            final(self)@ == step_utf8(old(self)@, b).0,
            views(final(out)@) == views(old(out)@) + step_utf8(old(self)@, b).1,
    {
        let ghost pre = views(out@);
        if 0x80 <= b && b < 0xc0 {
            let cp: u32 = (self.utf8_cp << 6u32) | ((b & 0x3f) as u32);
            if self.utf8_rem <= 1 {
                let len = self.utf8_len;
                self.utf8_rem = 0;
                self.utf8_len = 0;
                self.utf8_cp = 0;
                let ok = cp >= utf8_floor_exec(len) && !(0xd800 <= cp && cp <= 0xdfff) && cp
                    <= 0x10ffff;
                if ok {
                    emit(out, Action::Print(cp));
                } else {
                    emit(out, Action::Print(REPLACEMENT));
                }
            } else {
                self.utf8_rem = self.utf8_rem - 1;
                self.utf8_cp = cp;
            }
        } else {
            self.utf8_rem = 0;
            self.utf8_len = 0;
            self.utf8_cp = 0;
            emit(out, Action::Print(REPLACEMENT));
            self.do_ground(b, out);
        }
        proof {
            assert(views(out@) =~= pre + step_utf8(old(self)@, b).1);
        }
    }

    /// One byte in the escape state.
    fn do_escape(&mut self, b: u8, out: &mut Vec<Action>)
        ensures
            final(self)@ == step_escape(old(self)@, b).0,
            views(final(out)@) == views(old(out)@) + step_escape(old(self)@, b).1,
    {
        let ghost pre = views(out@);
        if self.try_ctl(b, out) {
        } else if 0x20 <= b && b <= 0x2f {
            self.state = ParseState::EscapeIntermediate;
            self.push_inter(b);
        } else if b == 0x50 {
            self.reset_seq_to(ParseState::DcsEntry);
        } else if b == 0x58 || b == 0x5e || b == 0x5f {
            self.state = ParseState::SosPmApcString;
        } else if b == 0x5b {
            self.reset_seq_to(ParseState::CsiEntry);
        } else if b == 0x5d {
            self.reset_seq_to(ParseState::OscString);
        } else if 0x30 <= b && b <= 0x7e {
            let a = Action::Esc { final_byte: b, inters: copy_vec(&self.inters) };
            self.reset_seq_to(ParseState::Ground);
            emit(out, a);
        } else if b == 0x7f {
        } else {
            self.state = ParseState::Ground;
        }
        proof {
            assert(views(out@) =~= pre + step_escape(old(self)@, b).1);
        }
    }

    /// One byte in the escape-intermediate state.
    fn do_escape_inter(&mut self, b: u8, out: &mut Vec<Action>)
        ensures
            final(self)@ == step_escape_inter(old(self)@, b).0,
            views(final(out)@) == views(old(out)@) + step_escape_inter(old(self)@, b).1,
    {
        let ghost pre = views(out@);
        if self.try_ctl(b, out) {
        } else if 0x20 <= b && b <= 0x2f {
            self.push_inter(b);
        } else if 0x30 <= b && b <= 0x7e {
            let a = Action::Esc { final_byte: b, inters: copy_vec(&self.inters) };
            self.reset_seq_to(ParseState::Ground);
            emit(out, a);
        } else if b == 0x7f {
        } else {
            self.state = ParseState::Ground;
        }
        proof {
            assert(views(out@) =~= pre + step_escape_inter(old(self)@, b).1);
        }
    }

    /// One byte in the CSI entry state.
    fn do_csi_entry(&mut self, b: u8, out: &mut Vec<Action>)
        ensures
            final(self)@ == step_csi_entry(old(self)@, b).0,
            views(final(out)@) == views(old(out)@) + step_csi_entry(old(self)@, b).1,
    {
        let ghost pre = views(out@);
        if self.try_ctl(b, out) {
        } else if 0x20 <= b && b <= 0x2f {
            self.state = ParseState::CsiIntermediate;
            self.push_inter(b);
        } else if 0x30 <= b && b <= 0x39 {
            self.state = ParseState::CsiParam;
            self.param = (b - 0x30) as u16;
        } else if b == 0x3b {
            self.state = ParseState::CsiParam;
            self.close_param();
        } else if b == 0x3a {
            self.state = ParseState::CsiIgnore;
        } else if 0x3c <= b && b <= 0x3f {
            self.state = ParseState::CsiParam;
            self.marker = b;
        } else if 0x40 <= b && b <= 0x7e {
            self.dispatch_csi(b, false, out);
        } else if b == 0x7f {
        } else {
            self.state = ParseState::Ground;
        }
        proof {
            assert(views(out@) =~= pre + step_csi_entry(old(self)@, b).1);
        }
    }

    /// One byte in the CSI parameter state.
    fn do_csi_param(&mut self, b: u8, out: &mut Vec<Action>)
        ensures
            final(self)@ == step_csi_param(old(self)@, b).0,
            views(final(out)@) == views(old(out)@) + step_csi_param(old(self)@, b).1,
    {
        let ghost pre = views(out@);
        if self.try_ctl(b, out) {
        } else if 0x30 <= b && b <= 0x39 {
            self.push_digit(b);
        } else if b == 0x3b {
            self.close_param();
        } else if 0x20 <= b && b <= 0x2f {
            self.close_param();
            self.state = ParseState::CsiIntermediate;
            self.push_inter(b);
        } else if 0x3a <= b && b <= 0x3f {
            self.state = ParseState::CsiIgnore;
        } else if 0x40 <= b && b <= 0x7e {
            self.dispatch_csi(b, true, out);
        } else if b == 0x7f {
        } else {
            self.state = ParseState::Ground;
        }
        proof {
            assert(views(out@) =~= pre + step_csi_param(old(self)@, b).1);
        }
    }

    /// One byte in the CSI intermediate state.
    fn do_csi_inter(&mut self, b: u8, out: &mut Vec<Action>)
        ensures
            final(self)@ == step_csi_inter(old(self)@, b).0,
            views(final(out)@) == views(old(out)@) + step_csi_inter(old(self)@, b).1,
    {
        let ghost pre = views(out@);
        if self.try_ctl(b, out) {
        } else if 0x20 <= b && b <= 0x2f {
            self.push_inter(b);
        } else if 0x40 <= b && b <= 0x7e {
            self.dispatch_csi(b, false, out);
        } else if b == 0x7f {
        } else if b >= 0x80 {
            self.state = ParseState::Ground;
        } else {
            self.state = ParseState::CsiIgnore;
        }
        proof {
            assert(views(out@) =~= pre + step_csi_inter(old(self)@, b).1);
        }
    }

    /// One byte in the malformed-CSI state.
    fn do_csi_ignore(&mut self, b: u8, out: &mut Vec<Action>)
        ensures
            final(self)@ == step_csi_ignore(old(self)@, b).0,
            views(final(out)@) == views(old(out)@) + step_csi_ignore(old(self)@, b).1,
    {
        let ghost pre = views(out@);
        if self.try_ctl(b, out) {
        } else if 0x40 <= b && b <= 0x7e {
            self.state = ParseState::Ground;
        } else {
        }
        proof {
            assert(views(out@) =~= pre + step_csi_ignore(old(self)@, b).1);
        }
    }

    /// One byte in the OSC string state.
    fn do_osc(&mut self, b: u8, out: &mut Vec<Action>)
        ensures
            final(self)@ == step_osc(old(self)@, b).0,
            views(final(out)@) == views(old(out)@) + step_osc(old(self)@, b).1,
    {
        let ghost pre = views(out@);
        if b == 0x07 {
            let a = Action::Osc { payload: copy_vec(&self.osc) };
            self.reset_seq_to(ParseState::Ground);
            emit(out, a);
        } else if b == 0x1b {
            let a = Action::Osc { payload: copy_vec(&self.osc) };
            self.reset_seq_to(ParseState::Escape);
            emit(out, a);
        } else if b == 0x18 || b == 0x1a {
            self.state = ParseState::Ground;
            emit(out, Action::Execute(b));
        } else if b < 0x20 {
        } else {
            if self.osc.len() < MAX_OSC_LEN {
                self.osc.push(b);
            }
        }
        proof {
            assert(views(out@) =~= pre + step_osc(old(self)@, b).1);
        }
    }

    /// One byte in the DCS entry state.
    fn do_dcs_entry(&mut self, b: u8, out: &mut Vec<Action>)
        ensures
            final(self)@ == step_dcs_entry(old(self)@, b).0,
            views(final(out)@) == views(old(out)@) + step_dcs_entry(old(self)@, b).1,
    {
        let ghost pre = views(out@);
        if self.try_ctl(b, out) {
        } else if 0x20 <= b && b <= 0x2f {
            self.state = ParseState::DcsIntermediate;
            self.push_inter(b);
        } else if 0x30 <= b && b <= 0x39 {
            self.state = ParseState::DcsParam;
            self.param = (b - 0x30) as u16;
        } else if b == 0x3b {
            self.state = ParseState::DcsParam;
            self.close_param();
        } else if b == 0x3a {
            self.state = ParseState::DcsIgnore;
        } else if 0x3c <= b && b <= 0x3f {
            self.state = ParseState::DcsParam;
            self.marker = b;
        } else if 0x40 <= b && b <= 0x7e {
            self.dispatch_dcs_hook(b, false, out);
        } else if b == 0x7f {
        } else {
            self.state = ParseState::Ground;
        }
        proof {
            assert(views(out@) =~= pre + step_dcs_entry(old(self)@, b).1);
        }
    }

    /// One byte in the DCS parameter state.
    fn do_dcs_param(&mut self, b: u8, out: &mut Vec<Action>)
        ensures
            final(self)@ == step_dcs_param(old(self)@, b).0,
            views(final(out)@) == views(old(out)@) + step_dcs_param(old(self)@, b).1,
    {
        let ghost pre = views(out@);
        if self.try_ctl(b, out) {
        } else if 0x30 <= b && b <= 0x39 {
            self.push_digit(b);
        } else if b == 0x3b {
            self.close_param();
        } else if 0x20 <= b && b <= 0x2f {
            self.close_param();
            self.state = ParseState::DcsIntermediate;
            self.push_inter(b);
        } else if 0x3a <= b && b <= 0x3f {
            self.state = ParseState::DcsIgnore;
        } else if 0x40 <= b && b <= 0x7e {
            self.dispatch_dcs_hook(b, true, out);
        } else if b == 0x7f {
        } else {
            self.state = ParseState::Ground;
        }
        proof {
            assert(views(out@) =~= pre + step_dcs_param(old(self)@, b).1);
        }
    }

    /// One byte in the DCS intermediate state.
    fn do_dcs_inter(&mut self, b: u8, out: &mut Vec<Action>)
        ensures
            final(self)@ == step_dcs_inter(old(self)@, b).0,
            views(final(out)@) == views(old(out)@) + step_dcs_inter(old(self)@, b).1,
    {
        let ghost pre = views(out@);
        if self.try_ctl(b, out) {
        } else if 0x20 <= b && b <= 0x2f {
            self.push_inter(b);
        } else if 0x40 <= b && b <= 0x7e {
            self.dispatch_dcs_hook(b, false, out);
        } else if b == 0x7f {
        } else if b >= 0x80 {
            self.state = ParseState::Ground;
        } else {
            self.state = ParseState::DcsIgnore;
        }
        proof {
            assert(views(out@) =~= pre + step_dcs_inter(old(self)@, b).1);
        }
    }

    /// One byte in the DCS passthrough state.
    fn do_dcs_pass(&mut self, b: u8, out: &mut Vec<Action>)
        ensures
            final(self)@ == step_dcs_pass(old(self)@, b).0,
            views(final(out)@) == views(old(out)@) + step_dcs_pass(old(self)@, b).1,
    {
        let ghost pre = views(out@);
        if b == 0x1b {
            self.reset_seq_to(ParseState::Escape);
            emit(out, Action::DcsUnhook);
        } else if b == 0x18 || b == 0x1a {
            self.state = ParseState::Ground;
            emit(out, Action::DcsUnhook);
        } else if b == 0x7f {
        } else {
            emit(out, Action::DcsPut(b));
        }
        proof {
            assert(views(out@) =~= pre + step_dcs_pass(old(self)@, b).1);
        }
    }

    /// One byte in a discarding string state.
    fn do_discard(&mut self, b: u8, out: &mut Vec<Action>)
        ensures
            final(self)@ == step_discard(old(self)@, b).0,
            views(final(out)@) == views(old(out)@) + step_discard(old(self)@, b).1,
    {
        let ghost pre = views(out@);
        if b == 0x1b {
            self.reset_seq_to(ParseState::Escape);
        } else if b == 0x18 || b == 0x1a {
            self.state = ParseState::Ground;
        } else {
        }
        proof {
            assert(views(out@) =~= pre + step_discard(old(self)@, b).1);
        }
    }

    /// Advances the parser by one byte, appending the actions it completes.
    fn step_byte(&mut self, b: u8, out: &mut Vec<Action>)
        ensures
            final(self)@ == parser_step(old(self)@, b).0,
            views(final(out)@) == views(old(out)@) + parser_step(old(self)@, b).1,
    {
        if self.utf8_rem > 0 {
            self.do_utf8(b, out);
        } else {
            match self.state {
                ParseState::Ground => self.do_ground(b, out),
                ParseState::Escape => self.do_escape(b, out),
                ParseState::EscapeIntermediate => self.do_escape_inter(b, out),
                ParseState::CsiEntry => self.do_csi_entry(b, out),
                ParseState::CsiParam => self.do_csi_param(b, out),
                ParseState::CsiIntermediate => self.do_csi_inter(b, out),
                ParseState::CsiIgnore => self.do_csi_ignore(b, out),
                ParseState::OscString => self.do_osc(b, out),
                ParseState::DcsEntry => self.do_dcs_entry(b, out),
                ParseState::DcsParam => self.do_dcs_param(b, out),
                ParseState::DcsIntermediate => self.do_dcs_inter(b, out),
                ParseState::DcsPassthrough => self.do_dcs_pass(b, out),
                ParseState::DcsIgnore => self.do_discard(b, out),
                ParseState::SosPmApcString => self.do_discard(b, out),
            }
        }
    }

    /// Feeds one chunk of bytes and returns the actions it completes, exactly
    /// as [`parser_feed`] says; state persists so that a sequence split
    /// across chunks resumes without loss or duplication.
    pub fn feed(&mut self, bytes: &[u8]) -> (out: Vec<Action>)
        ensures
            final(self)@ == parser_feed(old(self)@, bytes@).0,
            views(out@) == parser_feed(old(self)@, bytes@).1,
    {
        let mut out: Vec<Action> = Vec::new();
        let n = bytes.len();
        let mut i: usize = 0;
        proof {
            assert(bytes@.take(0) =~= Seq::<u8>::empty());
            assert(views(out@) =~= Seq::<ActionV>::empty());
        }
        while i < n
            invariant
                i <= n,
                n == bytes@.len(),
                self@ == parser_feed(old(self)@, bytes@.take(i as int)).0,
                views(out@) == parser_feed(old(self)@, bytes@.take(i as int)).1,
            decreases n - i,
        {
            let b = bytes[i];
            proof {
                lemma_feed_snoc(old(self)@, bytes@.take(i as int), b);
                assert(bytes@.take(i as int).push(b) =~= bytes@.take(i + 1));
            }
            let ghost mid = views(out@);
            self.step_byte(b, &mut out);
            proof {
                assert(views(out@) =~= parser_feed(old(self)@, bytes@.take(i + 1)).1);
            }
            i += 1;
        }
        proof {
            assert(bytes@.take(n as int) =~= bytes@);
        }
        out
    }
}

} // verus!
