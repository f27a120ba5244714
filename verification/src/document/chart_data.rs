//! The constants and the plain records of chart data, and the heads of the
//! objects that chart data is a list of.
//!
//! A constant is stored as a number. Each kind of constant is an enum here,
//! with the conversion from the stored number: a number that names no
//! variant gives the variant that the kind falls back to.
//!
//! A chart object starts with its number and the number of its type, four
//! bytes each, the low byte first. The first object of a type goes on with
//! the name of the type, which a zero byte ends, and the version of the
//! type in four bytes; later objects of that type do not repeat them.

use std::collections::HashSet;
use vstd::prelude::*;
use vstd::std_specs::convert::FromSpecImpl;

verus! {

/// The types of chart.
#[derive(Debug, Clone, Copy, PartialEq, Eq, Structural, Default)]
pub enum ChartType {
    /// 3D bar.
    #[default]
    Bar3D,
    /// 2D bar.
    Bar2D,
    /// 3D line.
    Line3D,
    /// 2D line.
    Line2D,
    /// 3D area.
    Area3D,
    /// 2D area.
    Area2D,
    /// 3D step.
    Step3D,
    /// 2D step.
    Step2D,
    /// 3D combination.
    Combo3D,
    /// 2D combination.
    Combo2D,
    /// 3D horizontal bar.
    HorizontalBar3D,
    /// 2D horizontal bar.
    HorizontalBar2D,
    /// 3D clustered bar.
    ClusterBar3D,
    /// 3D pie.
    Pie3D,
    /// 2D pie.
    Pie2D,
    /// 2D doughnut.
    Doughnut2D,
    /// 2D XY (scatter).
    XY2D,
    /// 2D polar.
    Polar2D,
    /// 2D radar.
    Radar2D,
    /// 2D bubble.
    Bubble2D,
    /// 2D high-low.
    HiLo2D,
    /// 2D Gantt.
    Gantt2D,
    /// 3D Gantt.
    Gantt3D,
    /// 3D surface.
    Surface3D,
    /// 2D contour.
    Contour2D,
    /// 3D scatter.
    Scatter3D,
    /// 3D XYZ.
    XYZ3D,
    /// A type that this library does not know.
    Unknown,
}

impl From<u32> for ChartType {
    /// The variant that the stored number `value` names, and `Unknown` for a
    /// number that names none.
    fn from(value: u32) -> (out: Self) {
        if value == 0 {
            ChartType::Bar3D
        } else if value == 1 {
            ChartType::Bar2D
        } else if value == 2 {
            ChartType::Line3D
        } else if value == 3 {
            ChartType::Line2D
        } else if value == 4 {
            ChartType::Area3D
        } else if value == 5 {
            ChartType::Area2D
        } else if value == 6 {
            ChartType::Step3D
        } else if value == 7 {
            ChartType::Step2D
        } else if value == 8 {
            ChartType::Combo3D
        } else if value == 9 {
            ChartType::Combo2D
        } else if value == 10 {
            ChartType::HorizontalBar3D
        } else if value == 11 {
            ChartType::HorizontalBar2D
        } else if value == 12 {
            ChartType::ClusterBar3D
        } else if value == 13 {
            ChartType::Pie3D
        } else if value == 14 {
            ChartType::Pie2D
        } else if value == 15 {
            ChartType::Doughnut2D
        } else if value == 16 {
            ChartType::XY2D
        } else if value == 17 {
            ChartType::Polar2D
        } else if value == 18 {
            ChartType::Radar2D
        } else if value == 19 {
            ChartType::Bubble2D
        } else if value == 20 {
            ChartType::HiLo2D
        } else if value == 21 {
            ChartType::Gantt2D
        } else if value == 22 {
            ChartType::Gantt3D
        } else if value == 23 {
            ChartType::Surface3D
        } else if value == 24 {
            ChartType::Contour2D
        } else if value == 25 {
            ChartType::Scatter3D
        } else if value == 26 {
            ChartType::XYZ3D
        } else {
            ChartType::Unknown
        }
    }
}

impl FromSpecImpl<u32> for ChartType {
    open spec fn obeys_from_spec() -> bool {
        true
    }

    open spec fn from_spec(value: u32) -> Self {
        if value == 0 {
            ChartType::Bar3D
        } else if value == 1 {
            ChartType::Bar2D
        } else if value == 2 {
            ChartType::Line3D
        } else if value == 3 {
            ChartType::Line2D
        } else if value == 4 {
            ChartType::Area3D
        } else if value == 5 {
            ChartType::Area2D
        } else if value == 6 {
            ChartType::Step3D
        } else if value == 7 {
            ChartType::Step2D
        } else if value == 8 {
            ChartType::Combo3D
        } else if value == 9 {
            ChartType::Combo2D
        } else if value == 10 {
            ChartType::HorizontalBar3D
        } else if value == 11 {
            ChartType::HorizontalBar2D
        } else if value == 12 {
            ChartType::ClusterBar3D
        } else if value == 13 {
            ChartType::Pie3D
        } else if value == 14 {
            ChartType::Pie2D
        } else if value == 15 {
            ChartType::Doughnut2D
        } else if value == 16 {
            ChartType::XY2D
        } else if value == 17 {
            ChartType::Polar2D
        } else if value == 18 {
            ChartType::Radar2D
        } else if value == 19 {
            ChartType::Bubble2D
        } else if value == 20 {
            ChartType::HiLo2D
        } else if value == 21 {
            ChartType::Gantt2D
        } else if value == 22 {
            ChartType::Gantt3D
        } else if value == 23 {
            ChartType::Surface3D
        } else if value == 24 {
            ChartType::Contour2D
        } else if value == 25 {
            ChartType::Scatter3D
        } else if value == 26 {
            ChartType::XYZ3D
        } else {
            ChartType::Unknown
        }
    }
}

/// The axes of a chart.
#[derive(Debug, Clone, Copy, PartialEq, Eq, Structural, Default)]
pub enum AxisId {
    /// The X axis.
    #[default]
    X,
    /// The Y axis.
    Y,
    /// The secondary Y axis.
    SecondaryY,
    /// The Z axis.
    Z,
}

impl From<u32> for AxisId {
    /// The variant that the stored number `value` names, and `X` for a
    /// number that names none.
    fn from(value: u32) -> (out: Self) {
        if value == 0 {
            AxisId::X
        } else if value == 1 {
            AxisId::Y
        } else if value == 2 {
            AxisId::SecondaryY
        } else if value == 3 {
            AxisId::Z
        } else {
            AxisId::X
        }
    }
}

impl FromSpecImpl<u32> for AxisId {
    open spec fn obeys_from_spec() -> bool {
        true
    }

    open spec fn from_spec(value: u32) -> Self {
        if value == 0 {
            AxisId::X
        } else if value == 1 {
            AxisId::Y
        } else if value == 2 {
            AxisId::SecondaryY
        } else if value == 3 {
            AxisId::Z
        } else {
            AxisId::X
        }
    }
}

/// Where the tick marks of an axis stand.
#[derive(Debug, Clone, Copy, PartialEq, Eq, Structural, Default)]
pub enum AxisTickStyle {
    /// No tick marks.
    #[default]
    NoTicks,
    /// Across the axis.
    Center,
    /// Inside the plot.
    Inside,
    /// Outside the plot.
    Outside,
}

impl From<u32> for AxisTickStyle {
    /// The variant that the stored number `value` names, and `NoTicks` for a
    /// number that names none.
    fn from(value: u32) -> (out: Self) {
        if value == 0 {
            AxisTickStyle::NoTicks
        } else if value == 1 {
            AxisTickStyle::Center
        } else if value == 2 {
            AxisTickStyle::Inside
        } else if value == 3 {
            AxisTickStyle::Outside
        } else {
            AxisTickStyle::NoTicks
        }
    }
}

impl FromSpecImpl<u32> for AxisTickStyle {
    open spec fn obeys_from_spec() -> bool {
        true
    }

    open spec fn from_spec(value: u32) -> Self {
        if value == 0 {
            AxisTickStyle::NoTicks
        } else if value == 1 {
            AxisTickStyle::Center
        } else if value == 2 {
            AxisTickStyle::Inside
        } else if value == 3 {
            AxisTickStyle::Outside
        } else {
            AxisTickStyle::NoTicks
        }
    }
}

/// How a brush fills.
#[derive(Debug, Clone, Copy, PartialEq, Eq, Structural, Default)]
pub enum BrushStyle {
    /// Not at all: transparent.
    #[default]
    NoBrush,
    /// With one colour.
    Solid,
    /// With a bitmap pattern.
    Pattern,
    /// With a hatch.
    Hatch,
}

impl From<u32> for BrushStyle {
    /// The variant that the stored number `value` names, and `NoBrush` for a
    /// number that names none.
    fn from(value: u32) -> (out: Self) {
        if value == 0 {
            BrushStyle::NoBrush
        } else if value == 1 {
            BrushStyle::Solid
        } else if value == 2 {
            BrushStyle::Pattern
        } else if value == 3 {
            BrushStyle::Hatch
        } else {
            BrushStyle::NoBrush
        }
    }
}

impl FromSpecImpl<u32> for BrushStyle {
    open spec fn obeys_from_spec() -> bool {
        true
    }

    open spec fn from_spec(value: u32) -> Self {
        if value == 0 {
            BrushStyle::NoBrush
        } else if value == 1 {
            BrushStyle::Solid
        } else if value == 2 {
            BrushStyle::Pattern
        } else if value == 3 {
            BrushStyle::Hatch
        } else {
            BrushStyle::NoBrush
        }
    }
}

/// How a pen draws a line.
#[derive(Debug, Clone, Copy, PartialEq, Eq, Structural, Default)]
pub enum PenStyle {
    /// Not at all.
    #[default]
    NoPen,
    /// Solid.
    Solid,
    /// Dashes.
    Dash,
    /// Dots.
    Dot,
    /// A dash and a dot in turn.
    DashDot,
    /// A dash and two dots in turn.
    DashDotDot,
}

impl From<u32> for PenStyle {
    /// The variant that the stored number `value` names, and `NoPen` for a
    /// number that names none.
    fn from(value: u32) -> (out: Self) {
        if value == 0 {
            PenStyle::NoPen
        } else if value == 1 {
            PenStyle::Solid
        } else if value == 2 {
            PenStyle::Dash
        } else if value == 3 {
            PenStyle::Dot
        } else if value == 4 {
            PenStyle::DashDot
        } else if value == 5 {
            PenStyle::DashDotDot
        } else {
            PenStyle::NoPen
        }
    }
}

impl FromSpecImpl<u32> for PenStyle {
    open spec fn obeys_from_spec() -> bool {
        true
    }

    open spec fn from_spec(value: u32) -> Self {
        if value == 0 {
            PenStyle::NoPen
        } else if value == 1 {
            PenStyle::Solid
        } else if value == 2 {
            PenStyle::Dash
        } else if value == 3 {
            PenStyle::Dot
        } else if value == 4 {
            PenStyle::DashDot
        } else if value == 5 {
            PenStyle::DashDotDot
        } else {
            PenStyle::NoPen
        }
    }
}

/// How an area is filled.
#[derive(Debug, Clone, Copy, PartialEq, Eq, Structural, Default)]
pub enum FillStyle {
    /// Not at all: transparent.
    #[default]
    NoFill,
    /// With a colour or a pattern.
    Solid,
    /// With a gradient.
    Gradient,
}

impl From<u32> for FillStyle {
    /// The variant that the stored number `value` names, and `NoFill` for a
    /// number that names none.
    fn from(value: u32) -> (out: Self) {
        if value == 0 {
            FillStyle::NoFill
        } else if value == 1 {
            FillStyle::Solid
        } else if value == 2 {
            FillStyle::Gradient
        } else {
            FillStyle::NoFill
        }
    }
}

impl FromSpecImpl<u32> for FillStyle {
    open spec fn obeys_from_spec() -> bool {
        true
    }

    open spec fn from_spec(value: u32) -> Self {
        if value == 0 {
            FillStyle::NoFill
        } else if value == 1 {
            FillStyle::Solid
        } else if value == 2 {
            FillStyle::Gradient
        } else {
            FillStyle::NoFill
        }
    }
}

/// Where a part of a chart stands.
#[derive(Debug, Clone, Copy, PartialEq, Eq, Structural, Default)]
pub enum LocationType {
    /// At the top.
    #[default]
    Top,
    /// At the top left.
    TopLeft,
    /// At the top right.
    TopRight,
    /// At the left.
    Left,
    /// At the right.
    Right,
    /// At the bottom.
    Bottom,
    /// At the bottom left.
    BottomLeft,
    /// At the bottom right.
    BottomRight,
    /// Where its rectangle says.
    Custom,
}

impl From<u32> for LocationType {
    /// The variant that the stored number `value` names, and `Top` for a
    /// number that names none.
    fn from(value: u32) -> (out: Self) {
        if value == 0 {
            LocationType::Top
        } else if value == 1 {
            LocationType::TopLeft
        } else if value == 2 {
            LocationType::TopRight
        } else if value == 3 {
            LocationType::Left
        } else if value == 4 {
            LocationType::Right
        } else if value == 5 {
            LocationType::Bottom
        } else if value == 6 {
            LocationType::BottomLeft
        } else if value == 7 {
            LocationType::BottomRight
        } else if value == 8 {
            LocationType::Custom
        } else {
            LocationType::Top
        }
    }
}

impl FromSpecImpl<u32> for LocationType {
    open spec fn obeys_from_spec() -> bool {
        true
    }

    open spec fn from_spec(value: u32) -> Self {
        if value == 0 {
            LocationType::Top
        } else if value == 1 {
            LocationType::TopLeft
        } else if value == 2 {
            LocationType::TopRight
        } else if value == 3 {
            LocationType::Left
        } else if value == 4 {
            LocationType::Right
        } else if value == 5 {
            LocationType::Bottom
        } else if value == 6 {
            LocationType::BottomLeft
        } else if value == 7 {
            LocationType::BottomRight
        } else if value == 8 {
            LocationType::Custom
        } else {
            LocationType::Top
        }
    }
}

/// The direction of text.
#[derive(Debug, Clone, Copy, PartialEq, Eq, Structural, Default)]
pub enum Orientation {
    /// Horizontal.
    #[default]
    Horizontal,
    /// Letters stacked from top to bottom.
    TopToBottom,
    /// Turned, reading upwards.
    BottomUp,
    /// Turned, reading downwards.
    TopDown,
}

impl From<u32> for Orientation {
    /// The variant that the stored number `value` names, and `Horizontal` for a
    /// number that names none.
    fn from(value: u32) -> (out: Self) {
        if value == 0 {
            Orientation::Horizontal
        } else if value == 1 {
            Orientation::TopToBottom
        } else if value == 2 {
            Orientation::BottomUp
        } else if value == 3 {
            Orientation::TopDown
        } else {
            Orientation::Horizontal
        }
    }
}

impl FromSpecImpl<u32> for Orientation {
    open spec fn obeys_from_spec() -> bool {
        true
    }

    open spec fn from_spec(value: u32) -> Self {
        if value == 0 {
            Orientation::Horizontal
        } else if value == 1 {
            Orientation::TopToBottom
        } else if value == 2 {
            Orientation::BottomUp
        } else if value == 3 {
            Orientation::TopDown
        } else {
            Orientation::Horizontal
        }
    }
}

/// A colour of red, green and blue parts, or the automatic colour.
#[derive(Debug, Clone, Copy, PartialEq, Eq, Structural, Default)]
pub struct VtColor {
    /// The red part.
    pub red: u8,
    /// The green part.
    pub green: u8,
    /// The blue part.
    pub blue: u8,
    /// The colour is chosen by the program that draws.
    pub automatic: bool,
}

/// The colour that a colour reference stands for: the red part in its
/// lowest byte, the green part in the next, the blue part in the third.
/// The highest byte is not read.
pub open spec fn color_of(value: u32) -> VtColor {
    VtColor {
        red: (value as int % 256) as u8,
        green: (value as int / 256 % 256) as u8,
        blue: (value as int / 65536 % 256) as u8,
        automatic: false,
    }
}

/// The colour reference of a colour.
pub open spec fn colorref_of(color: VtColor) -> u32 {
    (color.red as int + color.green as int * 256 + color.blue as int * 65536) as u32
}

impl VtColor {
    /// The colour that the colour reference `value` (`0x00BBGGRR`) stands
    /// for.
    pub fn from_colorref(value: u32) -> (color: Self)
        ensures
            color == color_of(value),
    {
        VtColor {
            red: (value % 256) as u8,
            green: (value / 256 % 256) as u8,
            blue: (value / 65536 % 256) as u8,
            automatic: false,
        }
    }

    /// The colour reference (`0x00BBGGRR`) of this colour.
    pub fn to_colorref(&self) -> (value: u32)
        ensures
            value == colorref_of(*self),
            value < 0x100_0000,
    {
        self.red as u32 + self.green as u32 * 256 + self.blue as u32 * 65536
    }
}

/// A colour comes back from its colour reference, but for the mark of the
/// automatic colour, which a reference does not hold.
pub proof fn lemma_color_round_trip(color: VtColor)
    ensures
        color_of(colorref_of(color)) == (VtColor { automatic: false, ..color }),
{
}

/// A colour reference comes back from its colour, but for its highest
/// byte.
pub proof fn lemma_colorref_round_trip(value: u32)
    ensures
        colorref_of(color_of(value)) == value as int % 0x100_0000,
{
}

/// A brush.
#[derive(Debug, Clone, PartialEq, Default)]
pub struct Brush {
    /// How it fills.
    pub style: BrushStyle,
    /// The colour it fills with.
    pub fill_color: VtColor,
    /// The colour of its pattern.
    pub pattern_color: VtColor,
    /// Which pattern or hatch.
    pub index: u32,
}

/// A gradient between two colours.
#[derive(Debug, Clone, PartialEq, Default)]
pub struct Gradient {
    /// The colour it starts with.
    pub from_color: VtColor,
    /// The colour it ends with.
    pub to_color: VtColor,
    /// Its direction.
    pub style: u32,
}

/// The filling of an area.
#[derive(Debug, Clone, PartialEq, Default)]
pub struct Fill {
    /// How the area is filled.
    pub style: FillStyle,
    /// The brush, for a solid filling.
    pub brush: Option<Brush>,
    /// The gradient, for a gradient filling.
    pub gradient: Option<Gradient>,
}

/// How a text is laid out.
#[derive(Debug, Clone, PartialEq, Default)]
pub struct TextLayout {
    /// Long lines are wrapped.
    pub word_wrap: bool,
    /// The horizontal alignment.
    pub horz_alignment: u32,
    /// The vertical alignment.
    pub vert_alignment: u32,
    /// The direction of the text.
    pub orientation: Orientation,
}

/// The scale of an axis.
#[derive(Debug, Clone, PartialEq, Default)]
pub struct AxisScale {
    /// The scale is not shown.
    pub hide: bool,
    /// The base of a logarithmic scale.
    pub log_base: u32,
    /// The type of the scale.
    pub scale_type: u32,
}

/// The markers of a series.
#[derive(Debug, Clone, PartialEq, Default)]
pub struct SeriesMarker {
    /// The markers are chosen by the program that draws.
    pub auto: bool,
    /// The markers are shown.
    pub show: bool,
}

/// The place of a series among the series of a chart.
#[derive(Debug, Clone, PartialEq, Default)]
pub struct Position {
    /// The series is left out of the chart.
    pub excluded: bool,
    /// The series is not shown.
    pub hidden: bool,
    /// Its place in the order of the series.
    pub order: u32,
    /// Its place in the order of stacking.
    pub stack_order: u32,
}

/// The colours of a high-low chart.
#[derive(Debug, Clone, PartialEq, Default)]
pub struct HiLo {
    /// The colour of a gain.
    pub gain_color: VtColor,
    /// The colour of a loss.
    pub loss_color: VtColor,
}

/// How the pies of a chart are weighted against each other.
#[derive(Debug, Clone, PartialEq, Default)]
pub struct Weighting {
    /// What the weight goes by.
    pub basis: u32,
    /// How the weight shows.
    pub style: u32,
}

/// The head of a chart object.
#[derive(Debug, Clone, PartialEq, Eq)]
pub struct ChartObjHeader {
    /// The number of the object.
    pub id: i32,
    /// The number of its type.
    pub stored_type_id: i32,
    /// The name of its type, where the object carries it.
    pub stored_name: Option<Vec<u8>>,
    /// The version of its type, where the object carries it.
    pub stored_version: Option<i32>,
}

/// The head of a chart object and where its data begins, as contracts see
/// them.
pub struct ChartObjModel {
    pub id: i32,
    pub stored_type_id: i32,
    pub stored_name: Option<Seq<u8>>,
    pub stored_version: Option<i32>,
    /// Where the data of the object begins.
    pub end: int,
}

impl View for ChartObjHeader {
    type V = (i32, i32, Option<Seq<u8>>, Option<i32>);

    open spec fn view(&self) -> Self::V {
        (
            self.id,
            self.stored_type_id,
            match self.stored_name {
                Some(name) => Some(name@),
                None => None,
            },
            self.stored_version,
        )
    }
}

/// The number that the four bytes at `at` write, the low byte first, as a
/// signed number.
pub open spec fn signed_at(data: Seq<u8>, at: int) -> i32 {
    let unsigned = data[at] as int + data[at + 1] as int * 0x100 + data[at + 2] as int * 0x1_0000
        + data[at + 3] as int * 0x100_0000;
    if unsigned >= 0x8000_0000 {
        (unsigned - 0x1_0000_0000) as i32
    } else {
        unsigned as i32
    }
}

/// The place of the first zero byte at or behind `from`, and the length of
/// `data` where there is none.
pub open spec fn zero_from(data: Seq<u8>, from: int) -> int
    decreases data.len() - from,
{
    if from < 0 || from >= data.len() {
        data.len() as int
    } else if data[from] == 0 {
        from
    } else {
        zero_from(data, from + 1)
    }
}

/// The head of the chart object at `offset`, where at least the two
/// numbers of one are there. `seen` holds the types of the objects before
/// it.
///
/// A name that no zero byte ends is no name, and the rest of the data is
/// passed over; a version needs four bytes.
pub open spec fn chart_obj_at(data: Seq<u8>, offset: int, seen: Set<i32>) -> Option<ChartObjModel> {
    if offset < 0 || offset + 8 > data.len() {
        None
    } else {
        let id = signed_at(data, offset);
        let stored_type_id = signed_at(data, offset + 4);
        let start = offset + 8;
        if seen.contains(stored_type_id) {
            Some(
                ChartObjModel {
                    id,
                    stored_type_id,
                    stored_name: None,
                    stored_version: None,
                    end: start,
                },
            )
        } else {
            let zero = zero_from(data, start);
            let stored_name = if zero < data.len() {
                Some(data.subrange(start, zero))
            } else {
                None
            };
            let behind = if zero < data.len() {
                zero + 1
            } else {
                zero
            };
            if behind + 4 <= data.len() {
                Some(
                    ChartObjModel {
                        id,
                        stored_type_id,
                        stored_name,
                        stored_version: Some(signed_at(data, behind)),
                        end: behind + 4,
                    },
                )
            } else {
                Some(
                    ChartObjModel {
                        id,
                        stored_type_id,
                        stored_name,
                        stored_version: None,
                        end: behind,
                    },
                )
            }
        }
    }
}

fn read_signed(data: &[u8], at: usize) -> (value: i32)
    requires
        at + 4 <= data.len(),
    ensures
        value == signed_at(data@, at as int),
{
    let unsigned: i64 = data[at] as i64 + data[at + 1] as i64 * 0x100 + data[at + 2] as i64
        * 0x1_0000 + data[at + 3] as i64 * 0x100_0000;
    if unsigned >= 0x8000_0000 {
        (unsigned - 0x1_0000_0000) as i32
    } else {
        unsigned as i32
    }
}

/// Reads the head of the chart object at `offset`, sets `offset` behind it
/// and adds the type of the object to `seen_types`. Where fewer than eight
/// bytes are left there is no object, and nothing changes.
pub fn parse_chart_obj(data: &[u8], offset: &mut usize, seen_types: &mut HashSet<i32>) -> (header:
    Option<ChartObjHeader>)
    ensures
        match chart_obj_at(data@, *old(offset) as int, old(seen_types)@) {
            Some(object) => {
                &&& header is Some
                &&& header->0@ == (
                    object.id,
                    object.stored_type_id,
                    object.stored_name,
                    object.stored_version,
                )
                &&& *final(offset) == object.end
                &&& final(seen_types)@ == old(seen_types)@.insert(object.stored_type_id)
            },
            None => header is None && *final(offset) == *old(offset) && final(seen_types)@ == old(
                seen_types,
            )@,
        },
        header is Some ==> *final(offset) <= data.len(),
{
    broadcast use vstd::std_specs::hash::group_hash_axioms;

    if data.len() < 8 || *offset > data.len() - 8 {
        return None;
    }
    let id = read_signed(data, *offset);
    let stored_type_id = read_signed(data, *offset + 4);
    let start = *offset + 8;
    if seen_types.contains(&stored_type_id) {
        *offset = start;
        return Some(ChartObjHeader { id, stored_type_id, stored_name: None, stored_version: None });
    }
    let mut zero = start;
    while zero < data.len() && data[zero] != 0
        invariant
            start <= zero <= data.len(),
            zero_from(data@, start as int) == zero_from(data@, zero as int),
        decreases data.len() - zero,
    {
        zero += 1;
    }
    let mut stored_name: Option<Vec<u8>> = None;
    let mut behind = zero;
    if zero < data.len() {
        let mut name: Vec<u8> = Vec::new();
        let mut i = start;
        while i < zero
            invariant
                start <= i <= zero <= data.len(),
                name@ == data@.subrange(start as int, i as int),
            decreases zero - i,
        {
            name.push(data[i]);
            i += 1;
        }
        stored_name = Some(name);
        behind = zero + 1;
    }
    let mut stored_version: Option<i32> = None;
    if data.len() - behind >= 4 {
        stored_version = Some(read_signed(data, behind));
        behind = behind + 4;
    }
    seen_types.insert(stored_type_id);
    *offset = behind;
    Some(ChartObjHeader { id, stored_type_id, stored_name, stored_version })
}

/// Where the raw rest of chart data begins: behind the head of its first
/// object. Data too short for a head has no chart, and all of it is raw.
pub open spec fn chart_rest(data: Seq<u8>) -> Option<int> {
    match chart_obj_at(data, 0, Set::empty()) {
        Some(object) => Some(object.end),
        None => None,
    }
}

/// Splits chart data into the head of the chart and the raw rest: where
/// the rest begins, if the data holds a chart.
pub fn split_chart_data(data: &[u8]) -> (rest: Option<usize>)
    ensures
        match rest {
            Some(at) => chart_rest(data@) == Some(at as int) && at <= data.len(),
            None => chart_rest(data@) is None,
        },
{
    broadcast use vstd::std_specs::hash::group_hash_axioms;

    let mut offset: usize = 0;
    let mut seen_types: HashSet<i32> = HashSet::new();
    match parse_chart_obj(data, &mut offset, &mut seen_types) {
        Some(_) => Some(offset),
        None => None,
    }
}

} // verus!
