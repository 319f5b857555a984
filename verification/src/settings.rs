//! The settings resolver: turns a snapshot of the persisted settings store
//! into a validated rendering configuration.
//!
//! Resolution fails closed: the first field whose stored text does not
//! parse aborts the whole construction, and the error reports that field's
//! name, its raw value and the kind of failure. There is no partially valid
//! configuration — a caller either gets every field validated or none.

use vstd::prelude::*;

use crate::color::Rgba;
use crate::color::rgba_of;
use crate::color::parse_color;
use crate::font::FontDescriptor;
use crate::font::font_of;
use crate::font::parse_font;
use crate::units::Units;
use crate::units::units_of;
use crate::units::parse_units;

verus! {

/// Why a stored field was rejected.
#[derive(Clone, Copy, Debug, PartialEq, Eq, Structural)]
pub enum ParseErrorKind {
    InvalidUnits,
    InvalidColor,
    InvalidFont,
}

/// A rejected stored field: which field, the raw text it held, and why it
/// could not be parsed.
#[derive(Clone, Debug, PartialEq, Eq)]
pub struct ParseError {
    pub kind: ParseErrorKind,
    pub field: String,
    pub value: String,
}

/// A snapshot of the persisted settings store, one field per setting the
/// renderer needs. The store itself enforces that the width fields are
/// numbers, so they arrive here as IEEE 754 double bit patterns and are
/// passed through unchanged; the text fields still have to be parsed and
/// validated.
pub struct SettingsStore {
    /// Stored text of the `units` setting.
    pub units: String,
    /// Bit pattern of the `border-width` double, passed through unchanged.
    pub border_width: u64,
    /// Bit pattern of the `line-weight` double, passed through unchanged.
    pub line_weight: u64,
    /// Stored text of the `fretline-color` setting.
    pub fretline_color: String,
    /// Stored text of the `fretboard-color` setting.
    pub fretboard_color: String,
    /// Stored text of the `centerline-color` setting.
    pub centerline_color: String,
    /// Stored text of the `specs-font` setting.
    pub specs_font: String,
}

/// A validated, immutable rendering configuration. Every field is either a
/// parsed in-range value or the whole construction failed; nothing here is
/// ever partially valid.
#[derive(Clone, Debug, PartialEq, Eq)]
pub struct RenderConfig {
    /// Measurement system of all lengths.
    pub units: Units,
    /// Drawing margin, as the stored double's bit pattern.
    pub border: u64,
    /// Stroke width, as the stored double's bit pattern.
    pub line_weight: u64,
    /// Color of the fret lines.
    pub fretline_color: Rgba,
    /// Color of the fretboard face.
    pub fretboard_color: Rgba,
    /// Color of the centerline; `None` means the centerline is not drawn.
    /// The store always holds a centerline color, so resolution always
    /// fills this; the host may clear it.
    pub centerline_color: Option<Rgba>,
    /// Font of the measurement labels.
    pub font: FontDescriptor,
}

/// Every stored field of `s` parses.
pub open spec fn store_ok(s: SettingsStore) -> bool {
    &&& units_of(s.units@) is Some
    &&& rgba_of(s.fretline_color@) is Some
    &&& rgba_of(s.fretboard_color@) is Some
    &&& rgba_of(s.centerline_color@) is Some
    &&& font_of(s.specs_font@) is Some
}

/// What the error of a failed resolution reports: the first field, in
/// resolution order, whose stored text does not parse, together with that
/// raw text and the kind of failure.
pub open spec fn error_reports(s: SettingsStore, e: ParseError) -> bool {
    if units_of(s.units@) is None {
        e.kind == ParseErrorKind::InvalidUnits && e.field@ == "units"@ && e.value@ == s.units@
    } else if rgba_of(s.fretline_color@) is None {
        e.kind == ParseErrorKind::InvalidColor && e.field@ == "fretline-color"@ && e.value@
            == s.fretline_color@
    } else if rgba_of(s.fretboard_color@) is None {
        e.kind == ParseErrorKind::InvalidColor && e.field@ == "fretboard-color"@ && e.value@
            == s.fretboard_color@
    } else if rgba_of(s.centerline_color@) is None {
        e.kind == ParseErrorKind::InvalidColor && e.field@ == "centerline-color"@ && e.value@
            == s.centerline_color@
    } else {
        e.kind == ParseErrorKind::InvalidFont && e.field@ == "specs-font"@ && e.value@
            == s.specs_font@
    }
}

impl SettingsStore {
    /// Resolves the snapshot into a rendering configuration.
    ///
    /// Succeeds exactly when every stored field parses, and then every
    /// field of the configuration is exactly the parsed stored value; the
    /// width bit patterns pass through unchanged. Fails closed on the first
    /// malformed field, reporting its name, raw text and failure kind.
    pub fn config(&self) -> (r: Result<RenderConfig, ParseError>)
        ensures
            r is Ok <==> store_ok(*self),
            r matches Ok(cfg) ==> {
                &&& Some(cfg.units) == units_of(self.units@)
                &&& cfg.border == self.border_width
                &&& cfg.line_weight == self.line_weight
                &&& Some(cfg.fretline_color) == rgba_of(self.fretline_color@)
                &&& Some(cfg.fretboard_color) == rgba_of(self.fretboard_color@)
                &&& cfg.centerline_color is Some
                &&& Some(cfg.centerline_color->0) == rgba_of(self.centerline_color@)
                &&& Some((cfg.font.family@, cfg.font.size)) == font_of(self.specs_font@)
            },
            r matches Err(e) ==> error_reports(*self, e),
    {
        let units = match parse_units(self.units.as_str()) {
            Some(u) => u,
            None => {
                return Err(
                    ParseError {
                        kind: ParseErrorKind::InvalidUnits,
                        field: String::from_str("units"),
                        value: self.units.clone(),
                    },
                );
            },
        };
        let fretline_color = match parse_color(self.fretline_color.as_str()) {
            Some(c) => c,
            None => {
                return Err(
                    ParseError {
                        kind: ParseErrorKind::InvalidColor,
                        field: String::from_str("fretline-color"),
                        value: self.fretline_color.clone(),
                    },
                );
            },
        };
        let fretboard_color = match parse_color(self.fretboard_color.as_str()) {
            Some(c) => c,
            None => {
                return Err(
                    ParseError {
                        kind: ParseErrorKind::InvalidColor,
                        field: String::from_str("fretboard-color"),
                        value: self.fretboard_color.clone(),
                    },
                );
            },
        };
        let centerline_color = match parse_color(self.centerline_color.as_str()) {
            Some(c) => c,
            None => {
                return Err(
                    ParseError {
                        kind: ParseErrorKind::InvalidColor,
                        field: String::from_str("centerline-color"),
                        value: self.centerline_color.clone(),
                    },
                );
            },
        };
        let font = match parse_font(self.specs_font.as_str()) {
            Some(f) => f,
            None => {
                return Err(
                    ParseError {
                        kind: ParseErrorKind::InvalidFont,
                        field: String::from_str("specs-font"),
                        value: self.specs_font.clone(),
                    },
                );
            },
        };
        Ok(
            RenderConfig {
                units,
                border: self.border_width,
                line_weight: self.line_weight,
                fretline_color,
                fretboard_color,
                centerline_color: Some(centerline_color),
                font,
            },
        )
    }
}

} // verus!
