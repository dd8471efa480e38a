//! The action vocabulary the parser emits and the terminal consumes, together
//! with its mathematical view used by every contract.

use vstd::prelude::*;

verus! {

/// Highest number of numeric parameters a control sequence may carry; later
/// parameters are dropped.
pub const MAX_PARAMS: usize = 16;

/// Highest number of intermediate bytes kept for a sequence.
pub const MAX_INTERMEDIATES: usize = 2;

/// Longest accepted OSC payload; longer payloads are truncated but still
/// dispatched on their terminator.
pub const MAX_OSC_LEN: usize = 1024;

/// Ceiling for an accumulated numeric parameter; digits past it saturate.
pub const PARAM_CEILING: u16 = 65535;

/// Code point substituted for an invalid byte sequence.
pub const REPLACEMENT: u32 = 0xfffd;

/// One decoded step of the terminal protocol, produced by the parser.
#[derive(Debug, Clone, PartialEq, Eq)]
pub enum Action {
    /// Print a decoded Unicode scalar value at the cursor.
    Print(u32),
    /// Perform the C0 control function for this byte.
    Execute(u8),
    /// A complete CSI sequence: `ESC [ marker params inters final_byte`.
    Csi { final_byte: u8, params: Vec<u16>, inters: Vec<u8>, marker: u8 },
    /// A complete plain escape sequence: `ESC inters final_byte`.
    Esc { final_byte: u8, inters: Vec<u8> },
    /// A complete OSC string: `ESC ] payload` up to BEL or ST.
    Osc { payload: Vec<u8> },
    /// Start of a device control string with its header.
    DcsHook { final_byte: u8, params: Vec<u16>, inters: Vec<u8>, marker: u8 },
    /// One payload byte of a device control string.
    DcsPut(u8),
    /// End of a device control string.
    DcsUnhook,
}

/// Mathematical view of an [`Action`]: the same shape over `Seq`.
pub enum ActionV {
    Print(u32),
    Execute(u8),
    Csi { final_byte: u8, params: Seq<u16>, inters: Seq<u8>, marker: u8 },
    Esc { final_byte: u8, inters: Seq<u8> },
    Osc { payload: Seq<u8> },
    DcsHook { final_byte: u8, params: Seq<u16>, inters: Seq<u8>, marker: u8 },
    DcsPut(u8),
    DcsUnhook,
}

impl View for Action {
    type V = ActionV;

    open spec fn view(&self) -> ActionV {
        match self {
            Action::Print(c) => ActionV::Print(*c),
            Action::Execute(b) => ActionV::Execute(*b),
            Action::Csi { final_byte, params, inters, marker } => ActionV::Csi {
                final_byte: *final_byte,
                params: params@,
                inters: inters@,
                marker: *marker,
            },
            Action::Esc { final_byte, inters } => ActionV::Esc {
                final_byte: *final_byte,
                inters: inters@,
            },
            Action::Osc { payload } => ActionV::Osc { payload: payload@ },
            Action::DcsHook { final_byte, params, inters, marker } => ActionV::DcsHook {
                final_byte: *final_byte,
                params: params@,
                inters: inters@,
                marker: *marker,
            },
            Action::DcsPut(b) => ActionV::DcsPut(*b),
            Action::DcsUnhook => ActionV::DcsUnhook,
        }
    }
}

/// The views of a sequence of concrete actions, element by element.
pub open spec fn views(s: Seq<Action>) -> Seq<ActionV> {
    s.map_values(|a: Action| a@)
}

} // verus!
