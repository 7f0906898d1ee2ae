//! Styles: the properties and values of the supported CSS subset, the
//! computed style of a widget, and the declarations of one rule.
//!
//! Numbers are kept as the decimals written; lengths in `%` keep the
//! number before the `%`.
use vstd::prelude::*;
use crate::binding::{parse_unsigned, parse_usize};
use crate::number::{
    Decimal, NumberToken, SpecDecimal, SpecNumberToken, parse_number_token, rounds_at_most_one,
    rounds_finite, rounds_non_negative, rounds_positive, spec_number_token, spec_zero,
};
use crate::text::{
    is_ascii_hexdigit, is_hexdigit_char, string_of, trim_window, trimmed, window_has, window_is,
};

verus! {

broadcast use vstd::string::group_string_axioms;

/// How a widget lays out its children, or `None` to take no space.
#[derive(Debug, Clone, Copy, PartialEq, Eq, Structural)]
pub enum Display {
    Flex,
    Stack,
    Collapse,
}

/// The main axis of a flex container.
#[derive(Debug, Clone, Copy, PartialEq, Eq, Structural)]
pub enum FlexDirectionStyle {
    Row,
    Column,
}

/// Cross-axis alignment.
#[derive(Debug, Clone, Copy, PartialEq, Eq, Structural)]
pub enum Align {
    Start,
    End,
    Center,
    Stretch,
}

/// Main-axis distribution.
#[derive(Debug, Clone, Copy, PartialEq, Eq, Structural)]
pub enum JustifyContent {
    Start,
    End,
    Center,
    SpaceBetween,
    SpaceAround,
    SpaceEvenly,
}

/// Whether painting is clipped to the widget.
#[derive(Debug, Clone, Copy, PartialEq, Eq, Structural)]
pub enum Overflow {
    Visible,
    Hidden,
}

/// Horizontal alignment of text.
#[derive(Debug, Clone, Copy, PartialEq, Eq, Structural)]
pub enum TextAlign {
    Start,
    Center,
    End,
}

/// How text that does not fit ends.
#[derive(Debug, Clone, Copy, PartialEq, Eq, Structural)]
pub enum TextOverflow {
    Clip,
    Ellipsis,
}

/// Whether text wraps.
#[derive(Debug, Clone, Copy, PartialEq, Eq, Structural)]
pub enum WhiteSpace {
    Normal,
    NoWrap,
}

/// How an image is sized in its box.
#[derive(Debug, Clone, Copy, PartialEq, Eq, Structural)]
pub enum ObjectFit {
    Fill,
    Contain,
    Cover,
    NaturalSize,
}

/// Where an image sits in its box.
#[derive(Debug, Clone, Copy, PartialEq, Eq, Structural)]
pub enum ObjectPosition {
    Start,
    Center,
    End,
}

/// An RGBA color, eight bits a channel.
#[derive(Debug, Clone, Copy, PartialEq, Eq, Structural)]
pub struct Color {
    pub red: u8,
    pub green: u8,
    pub blue: u8,
    pub alpha: u8,
}

pub open spec fn transparent() -> Color {
    Color { red: 0, green: 0, blue: 0, alpha: 0 }
}

pub open spec fn white() -> Color {
    Color { red: 255, green: 255, blue: 255, alpha: 255 }
}

impl Color {
    pub fn transparent() -> (r: Color)
        ensures
            r == transparent(),
    {
        Color { red: 0, green: 0, blue: 0, alpha: 0 }
    }

    pub fn white() -> (r: Color)
        ensures
            r == white(),
    {
        Color { red: 255, green: 255, blue: 255, alpha: 255 }
    }
}

/// A length: automatic, pixels, or a percentage.
#[derive(Debug)]
pub enum Length {
    Auto,
    /// Pixels, as written.
    Px(Decimal),
    /// The number written before `%`: `50%` holds 50, not the fraction 0.5.
    /// Layout divides by 100 where it needs the fraction.
    Percent(Decimal),
}

pub enum SpecLength {
    Auto,
    Px(SpecDecimal),
    Percent(SpecDecimal),
}

impl View for Length {
    type V = SpecLength;

    open spec fn view(&self) -> SpecLength {
        match self {
            Length::Auto => SpecLength::Auto,
            Length::Px(d) => SpecLength::Px(d@),
            Length::Percent(d) => SpecLength::Percent(d@),
        }
    }
}

impl Length {
    pub fn duplicate(&self) -> (r: Length)
        ensures
            r@ == self@,
    {
        match self {
            Length::Auto => Length::Auto,
            Length::Px(d) => Length::Px(d.duplicate()),
            Length::Percent(d) => Length::Percent(d.duplicate()),
        }
    }
}

/// Four lengths, one a side.
#[derive(Debug)]
pub struct Edges {
    pub top: Length,
    pub right: Length,
    pub bottom: Length,
    pub left: Length,
}

pub struct SpecEdges {
    pub top: SpecLength,
    pub right: SpecLength,
    pub bottom: SpecLength,
    pub left: SpecLength,
}

impl View for Edges {
    type V = SpecEdges;

    open spec fn view(&self) -> SpecEdges {
        SpecEdges { top: self.top@, right: self.right@, bottom: self.bottom@, left: self.left@ }
    }
}

pub open spec fn edges_all(v: SpecLength) -> SpecEdges {
    SpecEdges { top: v, right: v, bottom: v, left: v }
}

impl Edges {
    /// The same length on all four sides.
    pub fn all(value: Length) -> (r: Edges)
        ensures
            r@ == edges_all(value@),
    {
        Edges {
            top: value.duplicate(),
            right: value.duplicate(),
            bottom: value.duplicate(),
            left: value,
        }
    }

    pub fn duplicate(&self) -> (r: Edges)
        ensures
            r@ == self@,
    {
        Edges {
            top: self.top.duplicate(),
            right: self.right.duplicate(),
            bottom: self.bottom.duplicate(),
            left: self.left.duplicate(),
        }
    }
}

/// The style of one widget once the cascade is done.
#[derive(Debug)]
pub struct ComputedStyle {
    pub display: Display,
    pub flex_direction: FlexDirectionStyle,
    pub flex_grow: Decimal,
    pub flex_shrink: Decimal,
    pub width: Length,
    pub height: Length,
    pub min_width: Length,
    pub min_height: Length,
    pub max_width: Length,
    pub max_height: Length,
    pub gap: Length,
    pub margin: Edges,
    pub padding: Edges,
    pub align_items: Align,
    pub align_self: Option<Align>,
    pub justify_content: JustifyContent,
    pub color: Color,
    pub background_color: Color,
    pub opacity: Decimal,
    pub border_width: Decimal,
    pub border_color: Color,
    pub border_radius: Decimal,
    pub overflow: Overflow,
    pub font_family: String,
    pub font_size: Decimal,
    pub font_weight: u16,
    pub line_height: Decimal,
    pub text_align: TextAlign,
    pub text_overflow: TextOverflow,
    pub white_space: WhiteSpace,
    pub object_fit: ObjectFit,
    pub object_position: ObjectPosition,
}

pub struct SpecComputedStyle {
    pub display: Display,
    pub flex_direction: FlexDirectionStyle,
    pub flex_grow: SpecDecimal,
    pub flex_shrink: SpecDecimal,
    pub width: SpecLength,
    pub height: SpecLength,
    pub min_width: SpecLength,
    pub min_height: SpecLength,
    pub max_width: SpecLength,
    pub max_height: SpecLength,
    pub gap: SpecLength,
    pub margin: SpecEdges,
    pub padding: SpecEdges,
    pub align_items: Align,
    pub align_self: Option<Align>,
    pub justify_content: JustifyContent,
    pub color: Color,
    pub background_color: Color,
    pub opacity: SpecDecimal,
    pub border_width: SpecDecimal,
    pub border_color: Color,
    pub border_radius: SpecDecimal,
    pub overflow: Overflow,
    pub font_family: Seq<char>,
    pub font_size: SpecDecimal,
    pub font_weight: u16,
    pub line_height: SpecDecimal,
    pub text_align: TextAlign,
    pub text_overflow: TextOverflow,
    pub white_space: WhiteSpace,
    pub object_fit: ObjectFit,
    pub object_position: ObjectPosition,
}

impl View for ComputedStyle {
    type V = SpecComputedStyle;

    open spec fn view(&self) -> SpecComputedStyle {
        SpecComputedStyle {
            display: self.display,
            flex_direction: self.flex_direction,
            flex_grow: self.flex_grow@,
            flex_shrink: self.flex_shrink@,
            width: self.width@,
            height: self.height@,
            min_width: self.min_width@,
            min_height: self.min_height@,
            max_width: self.max_width@,
            max_height: self.max_height@,
            gap: self.gap@,
            margin: self.margin@,
            padding: self.padding@,
            align_items: self.align_items,
            align_self: self.align_self,
            justify_content: self.justify_content,
            color: self.color,
            background_color: self.background_color,
            opacity: self.opacity@,
            border_width: self.border_width@,
            border_color: self.border_color,
            border_radius: self.border_radius@,
            overflow: self.overflow,
            font_family: self.font_family@,
            font_size: self.font_size@,
            font_weight: self.font_weight,
            line_height: self.line_height@,
            text_align: self.text_align,
            text_overflow: self.text_overflow,
            white_space: self.white_space,
            object_fit: self.object_fit,
            object_position: self.object_position,
        }
    }
}

impl ComputedStyle {
    pub fn duplicate(&self) -> (r: ComputedStyle)
        ensures
            r@ == self@,
    {
        ComputedStyle {
            display: self.display,
            flex_direction: self.flex_direction,
            flex_grow: self.flex_grow.duplicate(),
            flex_shrink: self.flex_shrink.duplicate(),
            width: self.width.duplicate(),
            height: self.height.duplicate(),
            min_width: self.min_width.duplicate(),
            min_height: self.min_height.duplicate(),
            max_width: self.max_width.duplicate(),
            max_height: self.max_height.duplicate(),
            gap: self.gap.duplicate(),
            margin: self.margin.duplicate(),
            padding: self.padding.duplicate(),
            align_items: self.align_items,
            align_self: self.align_self,
            justify_content: self.justify_content,
            color: self.color,
            background_color: self.background_color,
            opacity: self.opacity.duplicate(),
            border_width: self.border_width.duplicate(),
            border_color: self.border_color,
            border_radius: self.border_radius.duplicate(),
            overflow: self.overflow,
            font_family: self.font_family.clone(),
            font_size: self.font_size.duplicate(),
            font_weight: self.font_weight,
            line_height: self.line_height.duplicate(),
            text_align: self.text_align,
            text_overflow: self.text_overflow,
            white_space: self.white_space,
            object_fit: self.object_fit,
            object_position: self.object_position,
        }
    }
}

/// The properties that one rule sets.
#[derive(Debug)]
pub struct Declarations {
    pub display: Option<Display>,
    pub flex_direction: Option<FlexDirectionStyle>,
    pub flex_grow: Option<Decimal>,
    pub flex_shrink: Option<Decimal>,
    pub width: Option<Length>,
    pub height: Option<Length>,
    pub min_width: Option<Length>,
    pub min_height: Option<Length>,
    pub max_width: Option<Length>,
    pub max_height: Option<Length>,
    pub gap: Option<Length>,
    pub margin: Option<Edges>,
    pub padding: Option<Edges>,
    pub align_items: Option<Align>,
    pub align_self: Option<Align>,
    pub justify_content: Option<JustifyContent>,
    pub color: Option<Color>,
    pub background_color: Option<Color>,
    pub opacity: Option<Decimal>,
    pub border_width: Option<Decimal>,
    pub border_color: Option<Color>,
    pub border_radius: Option<Decimal>,
    pub overflow: Option<Overflow>,
    pub font_family: Option<String>,
    pub font_size: Option<Decimal>,
    pub font_weight: Option<u16>,
    pub line_height: Option<Decimal>,
    pub text_align: Option<TextAlign>,
    pub text_overflow: Option<TextOverflow>,
    pub white_space: Option<WhiteSpace>,
    pub object_fit: Option<ObjectFit>,
    pub object_position: Option<ObjectPosition>,
}

pub struct SpecDeclarations {
    pub display: Option<Display>,
    pub flex_direction: Option<FlexDirectionStyle>,
    pub flex_grow: Option<SpecDecimal>,
    pub flex_shrink: Option<SpecDecimal>,
    pub width: Option<SpecLength>,
    pub height: Option<SpecLength>,
    pub min_width: Option<SpecLength>,
    pub min_height: Option<SpecLength>,
    pub max_width: Option<SpecLength>,
    pub max_height: Option<SpecLength>,
    pub gap: Option<SpecLength>,
    pub margin: Option<SpecEdges>,
    pub padding: Option<SpecEdges>,
    pub align_items: Option<Align>,
    pub align_self: Option<Align>,
    pub justify_content: Option<JustifyContent>,
    pub color: Option<Color>,
    pub background_color: Option<Color>,
    pub opacity: Option<SpecDecimal>,
    pub border_width: Option<SpecDecimal>,
    pub border_color: Option<Color>,
    pub border_radius: Option<SpecDecimal>,
    pub overflow: Option<Overflow>,
    pub font_family: Option<Seq<char>>,
    pub font_size: Option<SpecDecimal>,
    pub font_weight: Option<u16>,
    pub line_height: Option<SpecDecimal>,
    pub text_align: Option<TextAlign>,
    pub text_overflow: Option<TextOverflow>,
    pub white_space: Option<WhiteSpace>,
    pub object_fit: Option<ObjectFit>,
    pub object_position: Option<ObjectPosition>,
}

impl View for Declarations {
    type V = SpecDeclarations;

    open spec fn view(&self) -> SpecDeclarations {
        SpecDeclarations {
            display: self.display,
            flex_direction: self.flex_direction,
            flex_grow: match self.flex_grow { Some(v) => Some(v@), None => None },
            flex_shrink: match self.flex_shrink { Some(v) => Some(v@), None => None },
            width: match self.width { Some(v) => Some(v@), None => None },
            height: match self.height { Some(v) => Some(v@), None => None },
            min_width: match self.min_width { Some(v) => Some(v@), None => None },
            min_height: match self.min_height { Some(v) => Some(v@), None => None },
            max_width: match self.max_width { Some(v) => Some(v@), None => None },
            max_height: match self.max_height { Some(v) => Some(v@), None => None },
            gap: match self.gap { Some(v) => Some(v@), None => None },
            margin: match self.margin { Some(v) => Some(v@), None => None },
            padding: match self.padding { Some(v) => Some(v@), None => None },
            align_items: self.align_items,
            align_self: self.align_self,
            justify_content: self.justify_content,
            color: self.color,
            background_color: self.background_color,
            opacity: match self.opacity { Some(v) => Some(v@), None => None },
            border_width: match self.border_width { Some(v) => Some(v@), None => None },
            border_color: self.border_color,
            border_radius: match self.border_radius { Some(v) => Some(v@), None => None },
            overflow: self.overflow,
            font_family: match self.font_family { Some(v) => Some(v@), None => None },
            font_size: match self.font_size { Some(v) => Some(v@), None => None },
            font_weight: self.font_weight,
            line_height: match self.line_height { Some(v) => Some(v@), None => None },
            text_align: self.text_align,
            text_overflow: self.text_overflow,
            white_space: self.white_space,
            object_fit: self.object_fit,
            object_position: self.object_position,
        }
    }
}

pub open spec fn no_declarations() -> SpecDeclarations {
    SpecDeclarations {
        display: None,
        flex_direction: None,
        flex_grow: None,
        flex_shrink: None,
        width: None,
        height: None,
        min_width: None,
        min_height: None,
        max_width: None,
        max_height: None,
        gap: None,
        margin: None,
        padding: None,
        align_items: None,
        align_self: None,
        justify_content: None,
        color: None,
        background_color: None,
        opacity: None,
        border_width: None,
        border_color: None,
        border_radius: None,
        overflow: None,
        font_family: None,
        font_size: None,
        font_weight: None,
        line_height: None,
        text_align: None,
        text_overflow: None,
        white_space: None,
        object_fit: None,
        object_position: None,
    }
}

impl Declarations {
    pub fn new() -> (r: Declarations)
        ensures
            r@ == no_declarations(),
    {
        Declarations {
            display: None,
            flex_direction: None,
            flex_grow: None,
            flex_shrink: None,
            width: None,
            height: None,
            min_width: None,
            min_height: None,
            max_width: None,
            max_height: None,
            gap: None,
            margin: None,
            padding: None,
            align_items: None,
            align_self: None,
            justify_content: None,
            color: None,
            background_color: None,
            opacity: None,
            border_width: None,
            border_color: None,
            border_radius: None,
            overflow: None,
            font_family: None,
            font_size: None,
            font_weight: None,
            line_height: None,
            text_align: None,
            text_overflow: None,
            white_space: None,
            object_fit: None,
            object_position: None,
        }
    }

    /// The style with each property that these declarations set overwritten.
    pub fn applied_to(&self, style: &ComputedStyle) -> (r: ComputedStyle)
        ensures
            r@ == spec_apply(self@, style@),
    {
        let r = ComputedStyle {
            display: pick_copy(&self.display, style.display),
            flex_direction: pick_copy(&self.flex_direction, style.flex_direction),
            flex_grow: pick_decimal(&self.flex_grow, &style.flex_grow),
            flex_shrink: pick_decimal(&self.flex_shrink, &style.flex_shrink),
            width: pick_length(&self.width, &style.width),
            height: pick_length(&self.height, &style.height),
            min_width: pick_length(&self.min_width, &style.min_width),
            min_height: pick_length(&self.min_height, &style.min_height),
            max_width: pick_length(&self.max_width, &style.max_width),
            max_height: pick_length(&self.max_height, &style.max_height),
            gap: pick_length(&self.gap, &style.gap),
            margin: pick_edges(&self.margin, &style.margin),
            padding: pick_edges(&self.padding, &style.padding),
            align_items: pick_copy(&self.align_items, style.align_items),
            align_self: pick_align_self(&self.align_self, style.align_self),
            justify_content: pick_copy(&self.justify_content, style.justify_content),
            color: pick_copy(&self.color, style.color),
            background_color: pick_copy(&self.background_color, style.background_color),
            opacity: pick_decimal(&self.opacity, &style.opacity),
            border_width: pick_decimal(&self.border_width, &style.border_width),
            border_color: pick_copy(&self.border_color, style.border_color),
            border_radius: pick_decimal(&self.border_radius, &style.border_radius),
            overflow: pick_copy(&self.overflow, style.overflow),
            font_family: pick_string(&self.font_family, &style.font_family),
            font_size: pick_decimal(&self.font_size, &style.font_size),
            font_weight: pick_copy(&self.font_weight, style.font_weight),
            line_height: pick_decimal(&self.line_height, &style.line_height),
            text_align: pick_copy(&self.text_align, style.text_align),
            text_overflow: pick_copy(&self.text_overflow, style.text_overflow),
            white_space: pick_copy(&self.white_space, style.white_space),
            object_fit: pick_copy(&self.object_fit, style.object_fit),
            object_position: pick_copy(&self.object_position, style.object_position),
        };
        assert(r@.display == spec_apply(self@, style@).display);
        assert(r@.flex_direction == spec_apply(self@, style@).flex_direction);
        assert(r@.flex_grow == spec_apply(self@, style@).flex_grow);
        assert(r@.flex_shrink == spec_apply(self@, style@).flex_shrink);
        assert(r@.width == spec_apply(self@, style@).width);
        assert(r@.height == spec_apply(self@, style@).height);
        assert(r@.min_width == spec_apply(self@, style@).min_width);
        assert(r@.min_height == spec_apply(self@, style@).min_height);
        assert(r@.max_width == spec_apply(self@, style@).max_width);
        assert(r@.max_height == spec_apply(self@, style@).max_height);
        assert(r@.gap == spec_apply(self@, style@).gap);
        assert(r@.margin == spec_apply(self@, style@).margin);
        assert(r@.padding == spec_apply(self@, style@).padding);
        assert(r@.align_items == spec_apply(self@, style@).align_items);
        assert(r@.align_self == spec_apply(self@, style@).align_self);
        assert(r@.justify_content == spec_apply(self@, style@).justify_content);
        assert(r@.color == spec_apply(self@, style@).color);
        assert(r@.background_color == spec_apply(self@, style@).background_color);
        assert(r@.opacity == spec_apply(self@, style@).opacity);
        assert(r@.border_width == spec_apply(self@, style@).border_width);
        assert(r@.border_color == spec_apply(self@, style@).border_color);
        assert(r@.border_radius == spec_apply(self@, style@).border_radius);
        assert(r@.overflow == spec_apply(self@, style@).overflow);
        assert(r@.font_family == spec_apply(self@, style@).font_family);
        assert(r@.font_size == spec_apply(self@, style@).font_size);
        assert(r@.font_weight == spec_apply(self@, style@).font_weight);
        assert(r@.line_height == spec_apply(self@, style@).line_height);
        assert(r@.text_align == spec_apply(self@, style@).text_align);
        assert(r@.text_overflow == spec_apply(self@, style@).text_overflow);
        assert(r@.white_space == spec_apply(self@, style@).white_space);
        assert(r@.object_fit == spec_apply(self@, style@).object_fit);
        assert(r@.object_position == spec_apply(self@, style@).object_position);
        r
    }
}

fn pick_copy<T: Copy>(o: &Option<T>, current: T) -> (r: T)
    ensures
        r == pick(*o, current),
{
    match o {
        Some(v) => *v,
        None => current,
    }
}

fn pick_align_self(o: &Option<Align>, current: Option<Align>) -> (r: Option<Align>)
    ensures
        r == (match *o {
            Some(v) => Some(v),
            None => current,
        }),
{
    match o {
        Some(v) => Some(*v),
        None => current,
    }
}

fn pick_decimal(o: &Option<Decimal>, current: &Decimal) -> (r: Decimal)
    ensures
        r@ == pick(match o {
            Some(v) => Some(v@),
            None => None,
        }, current@),
{
    match o {
        Some(v) => v.duplicate(),
        None => current.duplicate(),
    }
}

fn pick_length(o: &Option<Length>, current: &Length) -> (r: Length)
    ensures
        r@ == pick(match o {
            Some(v) => Some(v@),
            None => None,
        }, current@),
{
    match o {
        Some(v) => v.duplicate(),
        None => current.duplicate(),
    }
}

fn pick_edges(o: &Option<Edges>, current: &Edges) -> (r: Edges)
    ensures
        r@ == pick(match o {
            Some(v) => Some(v@),
            None => None,
        }, current@),
{
    match o {
        Some(v) => v.duplicate(),
        None => current.duplicate(),
    }
}

fn pick_string(o: &Option<String>, current: &String) -> (r: String)
    ensures
        r@ == pick(match o {
            Some(v) => Some(v@),
            None => None,
        }, current@),
{
    match o {
        Some(v) => v.clone(),
        None => current.clone(),
    }
}

pub open spec fn pick<T>(o: Option<T>, t: T) -> T {
    match o {
        Some(v) => v,
        None => t,
    }
}

/// The style with every property that `d` sets overwritten.
pub open spec fn spec_apply(d: SpecDeclarations, s: SpecComputedStyle) -> SpecComputedStyle {
    SpecComputedStyle {
        display: pick(d.display, s.display),
        flex_direction: pick(d.flex_direction, s.flex_direction),
        flex_grow: pick(d.flex_grow, s.flex_grow),
        flex_shrink: pick(d.flex_shrink, s.flex_shrink),
        width: pick(d.width, s.width),
        height: pick(d.height, s.height),
        min_width: pick(d.min_width, s.min_width),
        min_height: pick(d.min_height, s.min_height),
        max_width: pick(d.max_width, s.max_width),
        max_height: pick(d.max_height, s.max_height),
        gap: pick(d.gap, s.gap),
        margin: pick(d.margin, s.margin),
        padding: pick(d.padding, s.padding),
        align_items: pick(d.align_items, s.align_items),
        align_self: match d.align_self {
            Some(v) => Some(v),
            None => s.align_self,
        },
        justify_content: pick(d.justify_content, s.justify_content),
        color: pick(d.color, s.color),
        background_color: pick(d.background_color, s.background_color),
        opacity: pick(d.opacity, s.opacity),
        border_width: pick(d.border_width, s.border_width),
        border_color: pick(d.border_color, s.border_color),
        border_radius: pick(d.border_radius, s.border_radius),
        overflow: pick(d.overflow, s.overflow),
        font_family: pick(d.font_family, s.font_family),
        font_size: pick(d.font_size, s.font_size),
        font_weight: pick(d.font_weight, s.font_weight),
        line_height: pick(d.line_height, s.line_height),
        text_align: pick(d.text_align, s.text_align),
        text_overflow: pick(d.text_overflow, s.text_overflow),
        white_space: pick(d.white_space, s.white_space),
        object_fit: pick(d.object_fit, s.object_fit),
        object_position: pick(d.object_position, s.object_position),
    }
}

/// What was wrong with a stylesheet.
#[derive(Debug, Clone, Copy, PartialEq, Eq, Structural)]
pub enum StyleErrorKind {
    UnterminatedComment,
    ExpectedOpenBrace,
    ExpectedCloseBrace,
    NestedBlock,
    /// The selector, as written.
    UnsupportedSelector,
    /// The identifier after `#`.
    InvalidIdSelector,
    /// The identifier after `.`.
    InvalidClassSelector,
    /// The type name.
    UnknownWidgetType,
    /// The declaration, as written.
    InvalidDeclaration,
    /// The property.
    MissingValue,
    /// The property.
    UnsupportedProperty,
    /// The property (or value kind) and the value.
    InvalidValue,
    /// The property; `auto` is allowed.
    LengthUnits,
    /// The property; `auto` is not allowed.
    LengthUnitsNoAuto,
    /// The property.
    PixelsRequired,
    /// The property.
    MustBePositive,
    /// The property.
    MustBeFiniteNonNegative,
    /// The property.
    MustBeUnitInterval,
    FontFamily,
    /// The property.
    ColorSyntax,
    /// The property and the value.
    InvalidColor,
}

/// A stylesheet error: its kind, the text it is about, and a second text
/// where the kind has one (else empty).
#[derive(Debug)]
pub struct StyleError {
    pub kind: StyleErrorKind,
    pub subject: String,
    pub detail: String,
}

pub struct SpecStyleError {
    pub kind: StyleErrorKind,
    pub subject: Seq<char>,
    pub detail: Seq<char>,
}

impl View for StyleError {
    type V = SpecStyleError;

    open spec fn view(&self) -> SpecStyleError {
        SpecStyleError { kind: self.kind, subject: self.subject@, detail: self.detail@ }
    }
}

pub open spec fn style_error(kind: StyleErrorKind, subject: Seq<char>, detail: Seq<char>) -> SpecStyleError {
    SpecStyleError { kind, subject, detail }
}

pub(crate) fn error(kind: StyleErrorKind, subject: String, detail: String) -> (r: StyleError)
    ensures
        r@ == style_error(kind, subject@, detail@),
{
    StyleError { kind, subject, detail }
}

pub(crate) fn bare_error(kind: StyleErrorKind) -> (r: StyleError)
    ensures
        r@ == style_error(kind, seq![], seq![]),
{
    StyleError { kind, subject: String::new(), detail: String::new() }
}

/// `display`: `flex`, `stack` or `none`.
#[verifier::opaque]
pub open spec fn spec_parse_display(s: Seq<char>, a: int, b: int) -> Result<Display, SpecStyleError> {
    let v = s.subrange(a, b);
    if v == "flex"@ {
        Ok(Display::Flex)
    } else if v == "stack"@ {
        Ok(Display::Stack)
    } else if v == "none"@ {
        Ok(Display::Collapse)
    } else {
        Err(style_error(StyleErrorKind::InvalidValue, "display"@, v))
    }
}

fn parse_display(s: &Vec<char>, a: usize, b: usize) -> (r: Result<Display, StyleError>)
    requires
        a <= b <= s@.len(),
    ensures
        r matches Ok(x) ==> spec_parse_display(s@, a as int, b as int) == Ok::<Display, SpecStyleError>(x),
        r matches Err(e) ==> spec_parse_display(s@, a as int, b as int) == Err::<Display, SpecStyleError>(e@),
{
    reveal(spec_parse_display);
    if window_is(s, a, b, "flex") {
        Ok(Display::Flex)
    } else if window_is(s, a, b, "stack") {
        Ok(Display::Stack)
    } else if window_is(s, a, b, "none") {
        Ok(Display::Collapse)
    } else {
        Err(error(StyleErrorKind::InvalidValue, "display".to_owned(), string_of(s, a, b)))
    }
}

/// `flex-direction`: `row` or `column`.
#[verifier::opaque]
pub open spec fn spec_parse_flex_direction(s: Seq<char>, a: int, b: int) -> Result<FlexDirectionStyle, SpecStyleError> {
    let v = s.subrange(a, b);
    if v == "row"@ {
        Ok(FlexDirectionStyle::Row)
    } else if v == "column"@ {
        Ok(FlexDirectionStyle::Column)
    } else {
        Err(style_error(StyleErrorKind::InvalidValue, "flex-direction"@, v))
    }
}

fn parse_flex_direction(s: &Vec<char>, a: usize, b: usize) -> (r: Result<FlexDirectionStyle, StyleError>)
    requires
        a <= b <= s@.len(),
    ensures
        r matches Ok(x) ==> spec_parse_flex_direction(s@, a as int, b as int) == Ok::<FlexDirectionStyle, SpecStyleError>(x),
        r matches Err(e) ==> spec_parse_flex_direction(s@, a as int, b as int) == Err::<FlexDirectionStyle, SpecStyleError>(e@),
{
    reveal(spec_parse_flex_direction);
    if window_is(s, a, b, "row") {
        Ok(FlexDirectionStyle::Row)
    } else if window_is(s, a, b, "column") {
        Ok(FlexDirectionStyle::Column)
    } else {
        Err(error(StyleErrorKind::InvalidValue, "flex-direction".to_owned(), string_of(s, a, b)))
    }
}

/// `align-items` and `align-self`: `start`/`flex-start`, `end`/`flex-end`, `center`, `stretch`.
#[verifier::opaque]
pub open spec fn spec_parse_align(s: Seq<char>, a: int, b: int) -> Result<Align, SpecStyleError> {
    let v = s.subrange(a, b);
    if v == "start"@ || v == "flex-start"@ {
        Ok(Align::Start)
    } else if v == "end"@ || v == "flex-end"@ {
        Ok(Align::End)
    } else if v == "center"@ {
        Ok(Align::Center)
    } else if v == "stretch"@ {
        Ok(Align::Stretch)
    } else {
        Err(style_error(StyleErrorKind::InvalidValue, "alignment"@, v))
    }
}

fn parse_align(s: &Vec<char>, a: usize, b: usize) -> (r: Result<Align, StyleError>)
    requires
        a <= b <= s@.len(),
    ensures
        r matches Ok(x) ==> spec_parse_align(s@, a as int, b as int) == Ok::<Align, SpecStyleError>(x),
        r matches Err(e) ==> spec_parse_align(s@, a as int, b as int) == Err::<Align, SpecStyleError>(e@),
{
    reveal(spec_parse_align);
    if window_is(s, a, b, "start") || window_is(s, a, b, "flex-start") {
        Ok(Align::Start)
    } else if window_is(s, a, b, "end") || window_is(s, a, b, "flex-end") {
        Ok(Align::End)
    } else if window_is(s, a, b, "center") {
        Ok(Align::Center)
    } else if window_is(s, a, b, "stretch") {
        Ok(Align::Stretch)
    } else {
        Err(error(StyleErrorKind::InvalidValue, "alignment".to_owned(), string_of(s, a, b)))
    }
}

/// `justify-content`: `start`/`flex-start`, `end`/`flex-end`, `center`, `space-between`, `space-around`, `space-evenly`.
#[verifier::opaque]
pub open spec fn spec_parse_justify(s: Seq<char>, a: int, b: int) -> Result<JustifyContent, SpecStyleError> {
    let v = s.subrange(a, b);
    if v == "start"@ || v == "flex-start"@ {
        Ok(JustifyContent::Start)
    } else if v == "end"@ || v == "flex-end"@ {
        Ok(JustifyContent::End)
    } else if v == "center"@ {
        Ok(JustifyContent::Center)
    } else if v == "space-between"@ {
        Ok(JustifyContent::SpaceBetween)
    } else if v == "space-around"@ {
        Ok(JustifyContent::SpaceAround)
    } else if v == "space-evenly"@ {
        Ok(JustifyContent::SpaceEvenly)
    } else {
        Err(style_error(StyleErrorKind::InvalidValue, "justify-content"@, v))
    }
}

fn parse_justify(s: &Vec<char>, a: usize, b: usize) -> (r: Result<JustifyContent, StyleError>)
    requires
        a <= b <= s@.len(),
    ensures
        r matches Ok(x) ==> spec_parse_justify(s@, a as int, b as int) == Ok::<JustifyContent, SpecStyleError>(x),
        r matches Err(e) ==> spec_parse_justify(s@, a as int, b as int) == Err::<JustifyContent, SpecStyleError>(e@),
{
    reveal(spec_parse_justify);
    if window_is(s, a, b, "start") || window_is(s, a, b, "flex-start") {
        Ok(JustifyContent::Start)
    } else if window_is(s, a, b, "end") || window_is(s, a, b, "flex-end") {
        Ok(JustifyContent::End)
    } else if window_is(s, a, b, "center") {
        Ok(JustifyContent::Center)
    } else if window_is(s, a, b, "space-between") {
        Ok(JustifyContent::SpaceBetween)
    } else if window_is(s, a, b, "space-around") {
        Ok(JustifyContent::SpaceAround)
    } else if window_is(s, a, b, "space-evenly") {
        Ok(JustifyContent::SpaceEvenly)
    } else {
        Err(error(StyleErrorKind::InvalidValue, "justify-content".to_owned(), string_of(s, a, b)))
    }
}

/// `overflow`: `visible` or `hidden`.
#[verifier::opaque]
pub open spec fn spec_parse_overflow(s: Seq<char>, a: int, b: int) -> Result<Overflow, SpecStyleError> {
    let v = s.subrange(a, b);
    if v == "visible"@ {
        Ok(Overflow::Visible)
    } else if v == "hidden"@ {
        Ok(Overflow::Hidden)
    } else {
        Err(style_error(StyleErrorKind::InvalidValue, "overflow"@, v))
    }
}

fn parse_overflow(s: &Vec<char>, a: usize, b: usize) -> (r: Result<Overflow, StyleError>)
    requires
        a <= b <= s@.len(),
    ensures
        r matches Ok(x) ==> spec_parse_overflow(s@, a as int, b as int) == Ok::<Overflow, SpecStyleError>(x),
        r matches Err(e) ==> spec_parse_overflow(s@, a as int, b as int) == Err::<Overflow, SpecStyleError>(e@),
{
    reveal(spec_parse_overflow);
    if window_is(s, a, b, "visible") {
        Ok(Overflow::Visible)
    } else if window_is(s, a, b, "hidden") {
        Ok(Overflow::Hidden)
    } else {
        Err(error(StyleErrorKind::InvalidValue, "overflow".to_owned(), string_of(s, a, b)))
    }
}

/// `text-align`: `left`/`start`, `center`, `right`/`end`.
#[verifier::opaque]
pub open spec fn spec_parse_text_align(s: Seq<char>, a: int, b: int) -> Result<TextAlign, SpecStyleError> {
    let v = s.subrange(a, b);
    if v == "left"@ || v == "start"@ {
        Ok(TextAlign::Start)
    } else if v == "center"@ {
        Ok(TextAlign::Center)
    } else if v == "right"@ || v == "end"@ {
        Ok(TextAlign::End)
    } else {
        Err(style_error(StyleErrorKind::InvalidValue, "text-align"@, v))
    }
}

fn parse_text_align(s: &Vec<char>, a: usize, b: usize) -> (r: Result<TextAlign, StyleError>)
    requires
        a <= b <= s@.len(),
    ensures
        r matches Ok(x) ==> spec_parse_text_align(s@, a as int, b as int) == Ok::<TextAlign, SpecStyleError>(x),
        r matches Err(e) ==> spec_parse_text_align(s@, a as int, b as int) == Err::<TextAlign, SpecStyleError>(e@),
{
    reveal(spec_parse_text_align);
    if window_is(s, a, b, "left") || window_is(s, a, b, "start") {
        Ok(TextAlign::Start)
    } else if window_is(s, a, b, "center") {
        Ok(TextAlign::Center)
    } else if window_is(s, a, b, "right") || window_is(s, a, b, "end") {
        Ok(TextAlign::End)
    } else {
        Err(error(StyleErrorKind::InvalidValue, "text-align".to_owned(), string_of(s, a, b)))
    }
}

/// `text-overflow`: `clip` or `ellipsis`.
#[verifier::opaque]
pub open spec fn spec_parse_text_overflow(s: Seq<char>, a: int, b: int) -> Result<TextOverflow, SpecStyleError> {
    let v = s.subrange(a, b);
    if v == "clip"@ {
        Ok(TextOverflow::Clip)
    } else if v == "ellipsis"@ {
        Ok(TextOverflow::Ellipsis)
    } else {
        Err(style_error(StyleErrorKind::InvalidValue, "text-overflow"@, v))
    }
}

fn parse_text_overflow(s: &Vec<char>, a: usize, b: usize) -> (r: Result<TextOverflow, StyleError>)
    requires
        a <= b <= s@.len(),
    ensures
        r matches Ok(x) ==> spec_parse_text_overflow(s@, a as int, b as int) == Ok::<TextOverflow, SpecStyleError>(x),
        r matches Err(e) ==> spec_parse_text_overflow(s@, a as int, b as int) == Err::<TextOverflow, SpecStyleError>(e@),
{
    reveal(spec_parse_text_overflow);
    if window_is(s, a, b, "clip") {
        Ok(TextOverflow::Clip)
    } else if window_is(s, a, b, "ellipsis") {
        Ok(TextOverflow::Ellipsis)
    } else {
        Err(error(StyleErrorKind::InvalidValue, "text-overflow".to_owned(), string_of(s, a, b)))
    }
}

/// `white-space`: `normal` or `nowrap`.
#[verifier::opaque]
pub open spec fn spec_parse_white_space(s: Seq<char>, a: int, b: int) -> Result<WhiteSpace, SpecStyleError> {
    let v = s.subrange(a, b);
    if v == "normal"@ {
        Ok(WhiteSpace::Normal)
    } else if v == "nowrap"@ {
        Ok(WhiteSpace::NoWrap)
    } else {
        Err(style_error(StyleErrorKind::InvalidValue, "white-space"@, v))
    }
}

fn parse_white_space(s: &Vec<char>, a: usize, b: usize) -> (r: Result<WhiteSpace, StyleError>)
    requires
        a <= b <= s@.len(),
    ensures
        r matches Ok(x) ==> spec_parse_white_space(s@, a as int, b as int) == Ok::<WhiteSpace, SpecStyleError>(x),
        r matches Err(e) ==> spec_parse_white_space(s@, a as int, b as int) == Err::<WhiteSpace, SpecStyleError>(e@),
{
    reveal(spec_parse_white_space);
    if window_is(s, a, b, "normal") {
        Ok(WhiteSpace::Normal)
    } else if window_is(s, a, b, "nowrap") {
        Ok(WhiteSpace::NoWrap)
    } else {
        Err(error(StyleErrorKind::InvalidValue, "white-space".to_owned(), string_of(s, a, b)))
    }
}

/// `object-fit`: `fill`, `contain`, `cover` or `none`.
#[verifier::opaque]
pub open spec fn spec_parse_object_fit(s: Seq<char>, a: int, b: int) -> Result<ObjectFit, SpecStyleError> {
    let v = s.subrange(a, b);
    if v == "fill"@ {
        Ok(ObjectFit::Fill)
    } else if v == "contain"@ {
        Ok(ObjectFit::Contain)
    } else if v == "cover"@ {
        Ok(ObjectFit::Cover)
    } else if v == "none"@ {
        Ok(ObjectFit::NaturalSize)
    } else {
        Err(style_error(StyleErrorKind::InvalidValue, "object-fit"@, v))
    }
}

fn parse_object_fit(s: &Vec<char>, a: usize, b: usize) -> (r: Result<ObjectFit, StyleError>)
    requires
        a <= b <= s@.len(),
    ensures
        r matches Ok(x) ==> spec_parse_object_fit(s@, a as int, b as int) == Ok::<ObjectFit, SpecStyleError>(x),
        r matches Err(e) ==> spec_parse_object_fit(s@, a as int, b as int) == Err::<ObjectFit, SpecStyleError>(e@),
{
    reveal(spec_parse_object_fit);
    if window_is(s, a, b, "fill") {
        Ok(ObjectFit::Fill)
    } else if window_is(s, a, b, "contain") {
        Ok(ObjectFit::Contain)
    } else if window_is(s, a, b, "cover") {
        Ok(ObjectFit::Cover)
    } else if window_is(s, a, b, "none") {
        Ok(ObjectFit::NaturalSize)
    } else {
        Err(error(StyleErrorKind::InvalidValue, "object-fit".to_owned(), string_of(s, a, b)))
    }
}

/// `object-position`: `left`/`top`/`start`, `center`, `right`/`bottom`/`end`.
#[verifier::opaque]
pub open spec fn spec_parse_object_position(s: Seq<char>, a: int, b: int) -> Result<ObjectPosition, SpecStyleError> {
    let v = s.subrange(a, b);
    if v == "left"@ || v == "top"@ || v == "start"@ {
        Ok(ObjectPosition::Start)
    } else if v == "center"@ {
        Ok(ObjectPosition::Center)
    } else if v == "right"@ || v == "bottom"@ || v == "end"@ {
        Ok(ObjectPosition::End)
    } else {
        Err(style_error(StyleErrorKind::InvalidValue, "object-position"@, v))
    }
}

fn parse_object_position(s: &Vec<char>, a: usize, b: usize) -> (r: Result<ObjectPosition, StyleError>)
    requires
        a <= b <= s@.len(),
    ensures
        r matches Ok(x) ==> spec_parse_object_position(s@, a as int, b as int) == Ok::<ObjectPosition, SpecStyleError>(x),
        r matches Err(e) ==> spec_parse_object_position(s@, a as int, b as int) == Err::<ObjectPosition, SpecStyleError>(e@),
{
    reveal(spec_parse_object_position);
    if window_is(s, a, b, "left") || window_is(s, a, b, "top") || window_is(s, a, b, "start") {
        Ok(ObjectPosition::Start)
    } else if window_is(s, a, b, "center") {
        Ok(ObjectPosition::Center)
    } else if window_is(s, a, b, "right") || window_is(s, a, b, "bottom") || window_is(s, a, b, "end") {
        Ok(ObjectPosition::End)
    } else {
        Err(error(StyleErrorKind::InvalidValue, "object-position".to_owned(), string_of(s, a, b)))
    }
}

// ---------------------------------------------------------------------------
// The keywords of each enumerated property.

/// The keywords that display values take, each with the value it gives: `flex` Flex, `stack` Stack, `none` Collapse.
pub proof fn law_display_keywords(s: Seq<char>, a: int, b: int)
    requires
        0 <= a <= b <= s.len(),
    ensures
        s.subrange(a, b) == "flex"@ ==> spec_parse_display(s, a, b) == Ok::<Display, SpecStyleError>(Display::Flex),
        s.subrange(a, b) == "stack"@ ==> spec_parse_display(s, a, b) == Ok::<Display, SpecStyleError>(Display::Stack),
        s.subrange(a, b) == "none"@ ==> spec_parse_display(s, a, b) == Ok::<Display, SpecStyleError>(Display::Collapse),
{
    reveal(spec_parse_display);
    reveal_strlit("flex");
    reveal_strlit("stack");
    reveal_strlit("none");
    assert("stack"@.len() != "flex"@.len());
    assert("none"@[0] != "flex"@[0]);
    assert("none"@.len() != "stack"@.len());
}

/// The keywords that flex-direction values take, each with the value it gives: `row` Row, `column` Column.
pub proof fn law_flex_direction_keywords(s: Seq<char>, a: int, b: int)
    requires
        0 <= a <= b <= s.len(),
    ensures
        s.subrange(a, b) == "row"@ ==> spec_parse_flex_direction(s, a, b) == Ok::<FlexDirectionStyle, SpecStyleError>(FlexDirectionStyle::Row),
        s.subrange(a, b) == "column"@ ==> spec_parse_flex_direction(s, a, b) == Ok::<FlexDirectionStyle, SpecStyleError>(FlexDirectionStyle::Column),
{
    reveal(spec_parse_flex_direction);
    reveal_strlit("row");
    reveal_strlit("column");
    assert("column"@.len() != "row"@.len());
}

/// The keywords that align-items and align-self values take, each with the value it gives: `start` Start, `flex-start` Start, `end` End, `flex-end` End, `center` Center, `stretch` Stretch.
pub proof fn law_align_keywords(s: Seq<char>, a: int, b: int)
    requires
        0 <= a <= b <= s.len(),
    ensures
        s.subrange(a, b) == "start"@ ==> spec_parse_align(s, a, b) == Ok::<Align, SpecStyleError>(Align::Start),
        s.subrange(a, b) == "flex-start"@ ==> spec_parse_align(s, a, b) == Ok::<Align, SpecStyleError>(Align::Start),
        s.subrange(a, b) == "end"@ ==> spec_parse_align(s, a, b) == Ok::<Align, SpecStyleError>(Align::End),
        s.subrange(a, b) == "flex-end"@ ==> spec_parse_align(s, a, b) == Ok::<Align, SpecStyleError>(Align::End),
        s.subrange(a, b) == "center"@ ==> spec_parse_align(s, a, b) == Ok::<Align, SpecStyleError>(Align::Center),
        s.subrange(a, b) == "stretch"@ ==> spec_parse_align(s, a, b) == Ok::<Align, SpecStyleError>(Align::Stretch),
{
    reveal(spec_parse_align);
    reveal_strlit("start");
    reveal_strlit("flex-start");
    reveal_strlit("end");
    reveal_strlit("flex-end");
    reveal_strlit("center");
    reveal_strlit("stretch");
    assert("flex-start"@.len() != "start"@.len());
    assert("end"@.len() != "start"@.len());
    assert("end"@.len() != "flex-start"@.len());
    assert("flex-end"@.len() != "start"@.len());
    assert("flex-end"@.len() != "flex-start"@.len());
    assert("flex-end"@.len() != "end"@.len());
    assert("center"@.len() != "start"@.len());
    assert("center"@.len() != "flex-start"@.len());
    assert("center"@.len() != "end"@.len());
    assert("center"@.len() != "flex-end"@.len());
    assert("stretch"@.len() != "start"@.len());
    assert("stretch"@.len() != "flex-start"@.len());
    assert("stretch"@.len() != "end"@.len());
    assert("stretch"@.len() != "flex-end"@.len());
    assert("stretch"@.len() != "center"@.len());
}

/// The keywords that justify-content values take, each with the value it gives: `start` Start, `flex-start` Start, `end` End, `flex-end` End, `center` Center, `space-between` SpaceBetween, `space-around` SpaceAround, `space-evenly` SpaceEvenly.
pub proof fn law_justify_keywords(s: Seq<char>, a: int, b: int)
    requires
        0 <= a <= b <= s.len(),
    ensures
        s.subrange(a, b) == "start"@ ==> spec_parse_justify(s, a, b) == Ok::<JustifyContent, SpecStyleError>(JustifyContent::Start),
        s.subrange(a, b) == "flex-start"@ ==> spec_parse_justify(s, a, b) == Ok::<JustifyContent, SpecStyleError>(JustifyContent::Start),
        s.subrange(a, b) == "end"@ ==> spec_parse_justify(s, a, b) == Ok::<JustifyContent, SpecStyleError>(JustifyContent::End),
        s.subrange(a, b) == "flex-end"@ ==> spec_parse_justify(s, a, b) == Ok::<JustifyContent, SpecStyleError>(JustifyContent::End),
        s.subrange(a, b) == "center"@ ==> spec_parse_justify(s, a, b) == Ok::<JustifyContent, SpecStyleError>(JustifyContent::Center),
        s.subrange(a, b) == "space-between"@ ==> spec_parse_justify(s, a, b) == Ok::<JustifyContent, SpecStyleError>(JustifyContent::SpaceBetween),
        s.subrange(a, b) == "space-around"@ ==> spec_parse_justify(s, a, b) == Ok::<JustifyContent, SpecStyleError>(JustifyContent::SpaceAround),
        s.subrange(a, b) == "space-evenly"@ ==> spec_parse_justify(s, a, b) == Ok::<JustifyContent, SpecStyleError>(JustifyContent::SpaceEvenly),
{
    reveal(spec_parse_justify);
    reveal_strlit("start");
    reveal_strlit("flex-start");
    reveal_strlit("end");
    reveal_strlit("flex-end");
    reveal_strlit("center");
    reveal_strlit("space-between");
    reveal_strlit("space-around");
    reveal_strlit("space-evenly");
    assert("flex-start"@.len() != "start"@.len());
    assert("end"@.len() != "start"@.len());
    assert("end"@.len() != "flex-start"@.len());
    assert("flex-end"@.len() != "start"@.len());
    assert("flex-end"@.len() != "flex-start"@.len());
    assert("flex-end"@.len() != "end"@.len());
    assert("center"@.len() != "start"@.len());
    assert("center"@.len() != "flex-start"@.len());
    assert("center"@.len() != "end"@.len());
    assert("center"@.len() != "flex-end"@.len());
    assert("space-between"@.len() != "start"@.len());
    assert("space-between"@.len() != "flex-start"@.len());
    assert("space-between"@.len() != "end"@.len());
    assert("space-between"@.len() != "flex-end"@.len());
    assert("space-between"@.len() != "center"@.len());
    assert("space-around"@.len() != "start"@.len());
    assert("space-around"@.len() != "flex-start"@.len());
    assert("space-around"@.len() != "end"@.len());
    assert("space-around"@.len() != "flex-end"@.len());
    assert("space-around"@.len() != "center"@.len());
    assert("space-around"@.len() != "space-between"@.len());
    assert("space-evenly"@.len() != "start"@.len());
    assert("space-evenly"@.len() != "flex-start"@.len());
    assert("space-evenly"@.len() != "end"@.len());
    assert("space-evenly"@.len() != "flex-end"@.len());
    assert("space-evenly"@.len() != "center"@.len());
    assert("space-evenly"@.len() != "space-between"@.len());
    assert("space-evenly"@[6] != "space-around"@[6]);
}

/// The keywords that overflow values take, each with the value it gives: `visible` Visible, `hidden` Hidden.
pub proof fn law_overflow_keywords(s: Seq<char>, a: int, b: int)
    requires
        0 <= a <= b <= s.len(),
    ensures
        s.subrange(a, b) == "visible"@ ==> spec_parse_overflow(s, a, b) == Ok::<Overflow, SpecStyleError>(Overflow::Visible),
        s.subrange(a, b) == "hidden"@ ==> spec_parse_overflow(s, a, b) == Ok::<Overflow, SpecStyleError>(Overflow::Hidden),
{
    reveal(spec_parse_overflow);
    reveal_strlit("visible");
    reveal_strlit("hidden");
    assert("hidden"@.len() != "visible"@.len());
}

/// The keywords that text-align values take, each with the value it gives: `left` Start, `start` Start, `center` Center, `right` End, `end` End.
pub proof fn law_text_align_keywords(s: Seq<char>, a: int, b: int)
    requires
        0 <= a <= b <= s.len(),
    ensures
        s.subrange(a, b) == "left"@ ==> spec_parse_text_align(s, a, b) == Ok::<TextAlign, SpecStyleError>(TextAlign::Start),
        s.subrange(a, b) == "start"@ ==> spec_parse_text_align(s, a, b) == Ok::<TextAlign, SpecStyleError>(TextAlign::Start),
        s.subrange(a, b) == "center"@ ==> spec_parse_text_align(s, a, b) == Ok::<TextAlign, SpecStyleError>(TextAlign::Center),
        s.subrange(a, b) == "right"@ ==> spec_parse_text_align(s, a, b) == Ok::<TextAlign, SpecStyleError>(TextAlign::End),
        s.subrange(a, b) == "end"@ ==> spec_parse_text_align(s, a, b) == Ok::<TextAlign, SpecStyleError>(TextAlign::End),
{
    reveal(spec_parse_text_align);
    reveal_strlit("left");
    reveal_strlit("start");
    reveal_strlit("center");
    reveal_strlit("right");
    reveal_strlit("end");
    assert("start"@.len() != "left"@.len());
    assert("center"@.len() != "left"@.len());
    assert("center"@.len() != "start"@.len());
    assert("right"@.len() != "left"@.len());
    assert("right"@[0] != "start"@[0]);
    assert("right"@.len() != "center"@.len());
    assert("end"@.len() != "left"@.len());
    assert("end"@.len() != "start"@.len());
    assert("end"@.len() != "center"@.len());
    assert("end"@.len() != "right"@.len());
}

/// The keywords that text-overflow values take, each with the value it gives: `clip` Clip, `ellipsis` Ellipsis.
pub proof fn law_text_overflow_keywords(s: Seq<char>, a: int, b: int)
    requires
        0 <= a <= b <= s.len(),
    ensures
        s.subrange(a, b) == "clip"@ ==> spec_parse_text_overflow(s, a, b) == Ok::<TextOverflow, SpecStyleError>(TextOverflow::Clip),
        s.subrange(a, b) == "ellipsis"@ ==> spec_parse_text_overflow(s, a, b) == Ok::<TextOverflow, SpecStyleError>(TextOverflow::Ellipsis),
{
    reveal(spec_parse_text_overflow);
    reveal_strlit("clip");
    reveal_strlit("ellipsis");
    assert("ellipsis"@.len() != "clip"@.len());
}

/// The keywords that white-space values take, each with the value it gives: `normal` Normal, `nowrap` NoWrap.
pub proof fn law_white_space_keywords(s: Seq<char>, a: int, b: int)
    requires
        0 <= a <= b <= s.len(),
    ensures
        s.subrange(a, b) == "normal"@ ==> spec_parse_white_space(s, a, b) == Ok::<WhiteSpace, SpecStyleError>(WhiteSpace::Normal),
        s.subrange(a, b) == "nowrap"@ ==> spec_parse_white_space(s, a, b) == Ok::<WhiteSpace, SpecStyleError>(WhiteSpace::NoWrap),
{
    reveal(spec_parse_white_space);
    reveal_strlit("normal");
    reveal_strlit("nowrap");
    assert("nowrap"@[2] != "normal"@[2]);
}

/// The keywords that object-fit values take, each with the value it gives: `fill` Fill, `contain` Contain, `cover` Cover, `none` NaturalSize.
pub proof fn law_object_fit_keywords(s: Seq<char>, a: int, b: int)
    requires
        0 <= a <= b <= s.len(),
    ensures
        s.subrange(a, b) == "fill"@ ==> spec_parse_object_fit(s, a, b) == Ok::<ObjectFit, SpecStyleError>(ObjectFit::Fill),
        s.subrange(a, b) == "contain"@ ==> spec_parse_object_fit(s, a, b) == Ok::<ObjectFit, SpecStyleError>(ObjectFit::Contain),
        s.subrange(a, b) == "cover"@ ==> spec_parse_object_fit(s, a, b) == Ok::<ObjectFit, SpecStyleError>(ObjectFit::Cover),
        s.subrange(a, b) == "none"@ ==> spec_parse_object_fit(s, a, b) == Ok::<ObjectFit, SpecStyleError>(ObjectFit::NaturalSize),
{
    reveal(spec_parse_object_fit);
    reveal_strlit("fill");
    reveal_strlit("contain");
    reveal_strlit("cover");
    reveal_strlit("none");
    assert("contain"@.len() != "fill"@.len());
    assert("cover"@.len() != "fill"@.len());
    assert("cover"@.len() != "contain"@.len());
    assert("none"@[0] != "fill"@[0]);
    assert("none"@.len() != "contain"@.len());
    assert("none"@.len() != "cover"@.len());
}

/// The keywords that object-position values take, each with the value it gives: `left` Start, `top` Start, `start` Start, `center` Center, `right` End, `bottom` End, `end` End.
pub proof fn law_object_position_keywords(s: Seq<char>, a: int, b: int)
    requires
        0 <= a <= b <= s.len(),
    ensures
        s.subrange(a, b) == "left"@ ==> spec_parse_object_position(s, a, b) == Ok::<ObjectPosition, SpecStyleError>(ObjectPosition::Start),
        s.subrange(a, b) == "top"@ ==> spec_parse_object_position(s, a, b) == Ok::<ObjectPosition, SpecStyleError>(ObjectPosition::Start),
        s.subrange(a, b) == "start"@ ==> spec_parse_object_position(s, a, b) == Ok::<ObjectPosition, SpecStyleError>(ObjectPosition::Start),
        s.subrange(a, b) == "center"@ ==> spec_parse_object_position(s, a, b) == Ok::<ObjectPosition, SpecStyleError>(ObjectPosition::Center),
        s.subrange(a, b) == "right"@ ==> spec_parse_object_position(s, a, b) == Ok::<ObjectPosition, SpecStyleError>(ObjectPosition::End),
        s.subrange(a, b) == "bottom"@ ==> spec_parse_object_position(s, a, b) == Ok::<ObjectPosition, SpecStyleError>(ObjectPosition::End),
        s.subrange(a, b) == "end"@ ==> spec_parse_object_position(s, a, b) == Ok::<ObjectPosition, SpecStyleError>(ObjectPosition::End),
{
    reveal(spec_parse_object_position);
    reveal_strlit("left");
    reveal_strlit("top");
    reveal_strlit("start");
    reveal_strlit("center");
    reveal_strlit("right");
    reveal_strlit("bottom");
    reveal_strlit("end");
    assert("top"@.len() != "left"@.len());
    assert("start"@.len() != "left"@.len());
    assert("start"@.len() != "top"@.len());
    assert("center"@.len() != "left"@.len());
    assert("center"@.len() != "top"@.len());
    assert("center"@.len() != "start"@.len());
    assert("right"@.len() != "left"@.len());
    assert("right"@.len() != "top"@.len());
    assert("right"@[0] != "start"@[0]);
    assert("right"@.len() != "center"@.len());
    assert("bottom"@.len() != "left"@.len());
    assert("bottom"@.len() != "top"@.len());
    assert("bottom"@.len() != "start"@.len());
    assert("bottom"@[0] != "center"@[0]);
    assert("bottom"@.len() != "right"@.len());
    assert("end"@.len() != "left"@.len());
    assert("end"@[0] != "top"@[0]);
    assert("end"@.len() != "start"@.len());
    assert("end"@.len() != "center"@.len());
    assert("end"@.len() != "right"@.len());
    assert("end"@.len() != "bottom"@.len());
}

// ---------------------------------------------------------------------------
// Values.

/// A number of at least zero, as `f32` reads it (negative zero included).
#[verifier::opaque]
pub open spec fn spec_non_negative(s: Seq<char>, a: int, b: int, prop: Seq<char>) -> Result<
    SpecDecimal,
    SpecStyleError,
> {
    let (x, y) = trimmed(s, a, b);
    match spec_number_token(s, x, y) {
        None => Err(style_error(StyleErrorKind::InvalidValue, prop, s.subrange(a, b))),
        Some(SpecNumberToken::Finite(d)) => if rounds_finite(d) && rounds_non_negative(d) {
            Ok(d)
        } else {
            Err(style_error(StyleErrorKind::MustBeFiniteNonNegative, prop, seq![]))
        },
        Some(_) => Err(style_error(StyleErrorKind::MustBeFiniteNonNegative, prop, seq![])),
    }
}

fn non_negative(s: &Vec<char>, a: usize, b: usize, prop: &String) -> (r: Result<Decimal, StyleError>)
    requires
        a <= b <= s@.len(),
    ensures
        r matches Ok(d) ==> spec_non_negative(s@, a as int, b as int, prop@) == Ok::<
            SpecDecimal,
            SpecStyleError,
        >(d@),
        r matches Err(e) ==> spec_non_negative(s@, a as int, b as int, prop@) == Err::<
            SpecDecimal,
            SpecStyleError,
        >(e@),
{
    reveal(spec_non_negative);
    let (x, y) = trim_window(s, a, b);
    match parse_number_token(s, x, y) {
        None => Err(error(StyleErrorKind::InvalidValue, prop.clone(), string_of(s, a, b))),
        Some(NumberToken::Finite(d)) => if d.rounds_finite() && d.rounds_non_negative() {
            Ok(d)
        } else {
            Err(error(StyleErrorKind::MustBeFiniteNonNegative, prop.clone(), String::new()))
        },
        Some(_) => Err(error(StyleErrorKind::MustBeFiniteNonNegative, prop.clone(), String::new())),
    }
}

/// `auto` (where allowed), `0`, a number with `px`, or a percentage.
#[verifier::opaque]
pub open spec fn spec_parse_length(
    s: Seq<char>,
    a: int,
    b: int,
    prop: Seq<char>,
    allow_auto: bool,
) -> Result<SpecLength, SpecStyleError> {
    let v = s.subrange(a, b);
    if allow_auto && v == "auto"@ {
        Ok(SpecLength::Auto)
    } else if v == "0"@ {
        Ok(SpecLength::Px(spec_zero()))
    } else if b - a >= 2 && s[b - 2] == 'p' && s[b - 1] == 'x' {
        match spec_non_negative(s, a, b - 2, prop) {
            Ok(d) => Ok(SpecLength::Px(d)),
            Err(e) => Err(e),
        }
    } else if b - a >= 1 && s[b - 1] == '%' {
        match spec_non_negative(s, a, b - 1, prop) {
            Ok(d) => Ok(SpecLength::Percent(d)),
            Err(e) => Err(e),
        }
    } else if allow_auto {
        Err(style_error(StyleErrorKind::LengthUnits, prop, seq![]))
    } else {
        Err(style_error(StyleErrorKind::LengthUnitsNoAuto, prop, seq![]))
    }
}

fn parse_length(s: &Vec<char>, a: usize, b: usize, prop: &String, allow_auto: bool) -> (r: Result<
    Length,
    StyleError,
>)
    requires
        a <= b <= s@.len(),
    ensures
        r matches Ok(l) ==> spec_parse_length(s@, a as int, b as int, prop@, allow_auto) == Ok::<
            SpecLength,
            SpecStyleError,
        >(l@),
        r matches Err(e) ==> spec_parse_length(s@, a as int, b as int, prop@, allow_auto) == Err::<
            SpecLength,
            SpecStyleError,
        >(e@),
{
    reveal(spec_parse_length);
    if allow_auto && window_is(s, a, b, "auto") {
        return Ok(Length::Auto);
    }
    if window_is(s, a, b, "0") {
        return Ok(Length::Px(Decimal::zero()));
    }
    if b - a >= 2 && s[b - 2] == 'p' && s[b - 1] == 'x' {
        return match non_negative(s, a, b - 2, prop) {
            Ok(d) => Ok(Length::Px(d)),
            Err(e) => Err(e),
        };
    }
    if b - a >= 1 && s[b - 1] == '%' {
        return match non_negative(s, a, b - 1, prop) {
            Ok(d) => Ok(Length::Percent(d)),
            Err(e) => Err(e),
        };
    }
    if allow_auto {
        Err(error(StyleErrorKind::LengthUnits, prop.clone(), String::new()))
    } else {
        Err(error(StyleErrorKind::LengthUnitsNoAuto, prop.clone(), String::new()))
    }
}

/// A length in pixels.
#[verifier::opaque]
pub open spec fn spec_parse_px(s: Seq<char>, a: int, b: int, prop: Seq<char>) -> Result<
    SpecDecimal,
    SpecStyleError,
> {
    match spec_parse_length(s, a, b, prop, false) {
        Ok(SpecLength::Px(d)) => Ok(d),
        Ok(_) => Err(style_error(StyleErrorKind::PixelsRequired, prop, seq![])),
        Err(e) => Err(e),
    }
}

fn parse_px(s: &Vec<char>, a: usize, b: usize, prop: &String) -> (r: Result<Decimal, StyleError>)
    requires
        a <= b <= s@.len(),
    ensures
        r matches Ok(d) ==> spec_parse_px(s@, a as int, b as int, prop@) == Ok::<
            SpecDecimal,
            SpecStyleError,
        >(d@),
        r matches Err(e) ==> spec_parse_px(s@, a as int, b as int, prop@) == Err::<
            SpecDecimal,
            SpecStyleError,
        >(e@),
{
    reveal(spec_parse_px);
    match parse_length(s, a, b, prop, false) {
        Ok(Length::Px(d)) => Ok(d),
        Ok(_) => Err(error(StyleErrorKind::PixelsRequired, prop.clone(), String::new())),
        Err(e) => Err(e),
    }
}

/// A length in pixels above zero.
#[verifier::opaque]
pub open spec fn spec_positive_px(s: Seq<char>, a: int, b: int, prop: Seq<char>) -> Result<
    SpecDecimal,
    SpecStyleError,
> {
    match spec_parse_px(s, a, b, prop) {
        Ok(d) => if rounds_positive(d) {
            Ok(d)
        } else {
            Err(style_error(StyleErrorKind::MustBePositive, prop, seq![]))
        },
        Err(e) => Err(e),
    }
}

fn positive_px(s: &Vec<char>, a: usize, b: usize, prop: &String) -> (r: Result<Decimal, StyleError>)
    requires
        a <= b <= s@.len(),
    ensures
        r matches Ok(d) ==> spec_positive_px(s@, a as int, b as int, prop@) == Ok::<
            SpecDecimal,
            SpecStyleError,
        >(d@),
        r matches Err(e) ==> spec_positive_px(s@, a as int, b as int, prop@) == Err::<
            SpecDecimal,
            SpecStyleError,
        >(e@),
{
    reveal(spec_positive_px);
    match parse_px(s, a, b, prop) {
        Ok(d) => if d.rounds_positive() {
            Ok(d)
        } else {
            Err(error(StyleErrorKind::MustBePositive, prop.clone(), String::new()))
        },
        Err(e) => Err(e),
    }
}

/// A number above zero.
#[verifier::opaque]
pub open spec fn spec_positive_number(s: Seq<char>, a: int, b: int, prop: Seq<char>) -> Result<
    SpecDecimal,
    SpecStyleError,
> {
    match spec_non_negative(s, a, b, prop) {
        Ok(d) => if rounds_positive(d) {
            Ok(d)
        } else {
            Err(style_error(StyleErrorKind::MustBePositive, prop, seq![]))
        },
        Err(e) => Err(e),
    }
}

fn positive_number(s: &Vec<char>, a: usize, b: usize, prop: &String) -> (r: Result<
    Decimal,
    StyleError,
>)
    requires
        a <= b <= s@.len(),
    ensures
        r matches Ok(d) ==> spec_positive_number(s@, a as int, b as int, prop@) == Ok::<
            SpecDecimal,
            SpecStyleError,
        >(d@),
        r matches Err(e) ==> spec_positive_number(s@, a as int, b as int, prop@) == Err::<
            SpecDecimal,
            SpecStyleError,
        >(e@),
{
    reveal(spec_positive_number);
    match non_negative(s, a, b, prop) {
        Ok(d) => if d.rounds_positive() {
            Ok(d)
        } else {
            Err(error(StyleErrorKind::MustBePositive, prop.clone(), String::new()))
        },
        Err(e) => Err(e),
    }
}

/// A number from zero to one.
#[verifier::opaque]
pub open spec fn spec_unit_interval(s: Seq<char>, a: int, b: int, prop: Seq<char>) -> Result<
    SpecDecimal,
    SpecStyleError,
> {
    match spec_non_negative(s, a, b, prop) {
        Ok(d) => if rounds_at_most_one(d) {
            Ok(d)
        } else {
            Err(style_error(StyleErrorKind::MustBeUnitInterval, prop, seq![]))
        },
        Err(e) => Err(e),
    }
}

fn unit_interval(s: &Vec<char>, a: usize, b: usize, prop: &String) -> (r: Result<
    Decimal,
    StyleError,
>)
    requires
        a <= b <= s@.len(),
    ensures
        r matches Ok(d) ==> spec_unit_interval(s@, a as int, b as int, prop@) == Ok::<
            SpecDecimal,
            SpecStyleError,
        >(d@),
        r matches Err(e) ==> spec_unit_interval(s@, a as int, b as int, prop@) == Err::<
            SpecDecimal,
            SpecStyleError,
        >(e@),
{
    reveal(spec_unit_interval);
    match non_negative(s, a, b, prop) {
        Ok(d) => if d.rounds_at_most_one() {
            Ok(d)
        } else {
            Err(error(StyleErrorKind::MustBeUnitInterval, prop.clone(), String::new()))
        },
        Err(e) => Err(e),
    }
}

/// Value of a hexadecimal digit.
pub open spec fn hex_value(c: char) -> int {
    if '0' <= c && c <= '9' {
        (c as int) - 48
    } else if 'a' <= c && c <= 'f' {
        (c as int) - 87
    } else {
        (c as int) - 55
    }
}

pub open spec fn hex_byte(s: Seq<char>, i: int) -> u8 {
    (hex_value(s[i]) * 16 + hex_value(s[i + 1])) as u8
}

pub open spec fn all_hex(s: Seq<char>, a: int, b: int) -> bool {
    forall|k: int| a <= k < b ==> is_ascii_hexdigit(#[trigger] s[k])
}

fn hex_digit_value(c: char) -> (r: u8)
    requires
        is_ascii_hexdigit(c),
    ensures
        r as int == hex_value(c),
        r < 16,
{
    if '0' <= c && c <= '9' {
        (c as u32 - 48) as u8
    } else if 'a' <= c && c <= 'f' {
        (c as u32 - 87) as u8
    } else {
        (c as u32 - 55) as u8
    }
}

fn hex_byte_exec(s: &Vec<char>, i: usize) -> (r: u8)
    requires
        i + 1 < s@.len(),
        is_ascii_hexdigit(s@[i as int]),
        is_ascii_hexdigit(s@[i + 1]),
    ensures
        r == hex_byte(s@, i as int),
{
    let n = s.len();
    let high = hex_digit_value(s[i]);
    let low = hex_digit_value(s[i + 1]);
    high * 16 + low
}

fn all_hex_exec(s: &Vec<char>, a: usize, b: usize) -> (r: bool)
    requires
        a <= b <= s@.len(),
    ensures
        r == all_hex(s@, a as int, b as int),
{
    let mut k = a;
    while k < b
        invariant
            a <= k <= b <= s@.len(),
            all_hex(s@, a as int, k as int),
        decreases b - k,
    {
        if !is_hexdigit_char(s[k]) {
            return false;
        }
        k += 1;
    }
    true
}

/// `transparent`, `#RRGGBB` or `#RRGGBBAA`.
#[verifier::opaque]
pub open spec fn spec_parse_color(s: Seq<char>, a: int, b: int, prop: Seq<char>) -> Result<
    Color,
    SpecStyleError,
> {
    let v = s.subrange(a, b);
    if v == "transparent"@ {
        Ok(transparent())
    } else if !(a < b && s[a] == '#') {
        Err(style_error(StyleErrorKind::ColorSyntax, prop, seq![]))
    } else if !((b - a - 1 == 6 || b - a - 1 == 8) && all_hex(s, a + 1, b)) {
        Err(style_error(StyleErrorKind::InvalidColor, prop, v))
    } else {
        Ok(
            Color {
                red: hex_byte(s, a + 1),
                green: hex_byte(s, a + 3),
                blue: hex_byte(s, a + 5),
                alpha: if b - a - 1 == 8 {
                    hex_byte(s, a + 7)
                } else {
                    255
                },
            },
        )
    }
}

fn parse_color(s: &Vec<char>, a: usize, b: usize, prop: &String) -> (r: Result<Color, StyleError>)
    requires
        a <= b <= s@.len(),
    ensures
        r matches Ok(c) ==> spec_parse_color(s@, a as int, b as int, prop@) == Ok::<
            Color,
            SpecStyleError,
        >(c),
        r matches Err(e) ==> spec_parse_color(s@, a as int, b as int, prop@) == Err::<
            Color,
            SpecStyleError,
        >(e@),
{
    reveal(spec_parse_color);
    if window_is(s, a, b, "transparent") {
        return Ok(Color::transparent());
    }
    if !(a < b && s[a] == '#') {
        return Err(error(StyleErrorKind::ColorSyntax, prop.clone(), String::new()));
    }
    if !((b - a - 1 == 6 || b - a - 1 == 8) && all_hex_exec(s, a + 1, b)) {
        return Err(error(StyleErrorKind::InvalidColor, prop.clone(), string_of(s, a, b)));
    }
    assert(is_ascii_hexdigit(s@[a + 1]) && is_ascii_hexdigit(s@[a + 2]));
    assert(is_ascii_hexdigit(s@[a + 3]) && is_ascii_hexdigit(s@[a + 4]));
    assert(is_ascii_hexdigit(s@[a + 5]) && is_ascii_hexdigit(s@[a + 6]));
    let red = hex_byte_exec(s, a + 1);
    let green = hex_byte_exec(s, a + 3);
    let blue = hex_byte_exec(s, a + 5);
    let alpha = if b - a - 1 == 8 {
        assert(is_ascii_hexdigit(s@[a + 7]) && is_ascii_hexdigit(s@[a + 8]));
        hex_byte_exec(s, a + 7)
    } else {
        255
    };
    Ok(Color { red, green, blue, alpha })
}

/// One family name, optionally quoted, without commas.
#[verifier::opaque]
pub open spec fn spec_parse_font_family(s: Seq<char>, a: int, b: int) -> Result<
    Seq<char>,
    SpecStyleError,
> {
    let (x, y) = trimmed(s, a, b);
    let quoted = y - x >= 2 && ((s[x] == '"' && s[y - 1] == '"') || (s[x] == '\'' && s[y - 1]
        == '\''));
    let u0 = if quoted {
        x + 1
    } else {
        x
    };
    let u1 = if quoted {
        y - 1
    } else {
        y
    };
    if u0 >= u1 || (exists|k: int| u0 <= k < u1 && s[k] == ',') {
        Err(style_error(StyleErrorKind::FontFamily, seq![], seq![]))
    } else {
        Ok(s.subrange(u0, u1))
    }
}

fn parse_font_family(s: &Vec<char>, a: usize, b: usize) -> (r: Result<String, StyleError>)
    requires
        a <= b <= s@.len(),
    ensures
        r matches Ok(f) ==> spec_parse_font_family(s@, a as int, b as int) == Ok::<
            Seq<char>,
            SpecStyleError,
        >(f@),
        r matches Err(e) ==> spec_parse_font_family(s@, a as int, b as int) == Err::<
            Seq<char>,
            SpecStyleError,
        >(e@),
{
    reveal(spec_parse_font_family);
    let (x, y) = trim_window(s, a, b);
    let quoted = y - x >= 2 && ((s[x] == '"' && s[y - 1] == '"') || (s[x] == '\'' && s[y - 1]
        == '\''));
    let u0 = if quoted {
        x + 1
    } else {
        x
    };
    let u1 = if quoted {
        y - 1
    } else {
        y
    };
    if u0 >= u1 || window_has(s, u0, u1, ',') {
        return Err(bare_error(StyleErrorKind::FontFamily));
    }
    Ok(string_of(s, u0, u1))
}

/// `normal`, `bold`, or a multiple of 100 from 100 to 900.
#[verifier::opaque]
pub open spec fn spec_parse_font_weight(s: Seq<char>, a: int, b: int) -> Result<
    u16,
    SpecStyleError,
> {
    let v = s.subrange(a, b);
    let weight = if v == "normal"@ {
        Some(400nat)
    } else if v == "bold"@ {
        Some(700nat)
    } else {
        parse_unsigned(s, a, b, 65535)
    };
    match weight {
        Some(x) => if 100 <= x <= 900 && x % 100 == 0 {
            Ok(x as u16)
        } else {
            Err(style_error(StyleErrorKind::InvalidValue, "font-weight"@, v))
        },
        None => Err(style_error(StyleErrorKind::InvalidValue, "font-weight"@, v)),
    }
}

fn parse_font_weight(s: &Vec<char>, a: usize, b: usize) -> (r: Result<u16, StyleError>)
    requires
        a <= b <= s@.len(),
    ensures
        r matches Ok(x) ==> spec_parse_font_weight(s@, a as int, b as int) == Ok::<
            u16,
            SpecStyleError,
        >(x),
        r matches Err(e) ==> spec_parse_font_weight(s@, a as int, b as int) == Err::<
            u16,
            SpecStyleError,
        >(e@),
{
    reveal(spec_parse_font_weight);
    let weight: Option<usize> = if window_is(s, a, b, "normal") {
        Some(400)
    } else if window_is(s, a, b, "bold") {
        Some(700)
    } else {
        match parse_usize(s, a, b) {
            Some(x) => if x <= 65535 {
                Some(x)
            } else {
                None
            },
            None => None,
        }
    };
    match weight {
        Some(x) => if 100 <= x && x <= 900 && x % 100 == 0 {
            Ok(x as u16)
        } else {
            Err(error(StyleErrorKind::InvalidValue, "font-weight".to_owned(), string_of(s, a, b)))
        },
        None => Err(error(StyleErrorKind::InvalidValue, "font-weight".to_owned(), string_of(s, a, b))),
    }
}

// ---------------------------------------------------------------------------
// Declarations.

/// One declaration: a property and its parsed value.
#[derive(Debug)]
pub enum Assignment {
    Display(Display),
    FlexDirection(FlexDirectionStyle),
    FlexGrow(Decimal),
    FlexShrink(Decimal),
    Width(Length),
    Height(Length),
    MinWidth(Length),
    MinHeight(Length),
    MaxWidth(Length),
    MaxHeight(Length),
    Gap(Length),
    Margin(Edges),
    Padding(Edges),
    AlignItems(Align),
    AlignSelf(Align),
    JustifyContent(JustifyContent),
    Color(Color),
    BackgroundColor(Color),
    Opacity(Decimal),
    BorderWidth(Decimal),
    BorderColor(Color),
    BorderRadius(Decimal),
    Overflow(Overflow),
    FontFamily(String),
    FontSize(Decimal),
    FontWeight(u16),
    LineHeight(Decimal),
    TextAlign(TextAlign),
    TextOverflow(TextOverflow),
    WhiteSpace(WhiteSpace),
    ObjectFit(ObjectFit),
    ObjectPosition(ObjectPosition),
}

pub enum SpecAssignment {
    Display(Display),
    FlexDirection(FlexDirectionStyle),
    FlexGrow(SpecDecimal),
    FlexShrink(SpecDecimal),
    Width(SpecLength),
    Height(SpecLength),
    MinWidth(SpecLength),
    MinHeight(SpecLength),
    MaxWidth(SpecLength),
    MaxHeight(SpecLength),
    Gap(SpecLength),
    Margin(SpecEdges),
    Padding(SpecEdges),
    AlignItems(Align),
    AlignSelf(Align),
    JustifyContent(JustifyContent),
    Color(Color),
    BackgroundColor(Color),
    Opacity(SpecDecimal),
    BorderWidth(SpecDecimal),
    BorderColor(Color),
    BorderRadius(SpecDecimal),
    Overflow(Overflow),
    FontFamily(Seq<char>),
    FontSize(SpecDecimal),
    FontWeight(u16),
    LineHeight(SpecDecimal),
    TextAlign(TextAlign),
    TextOverflow(TextOverflow),
    WhiteSpace(WhiteSpace),
    ObjectFit(ObjectFit),
    ObjectPosition(ObjectPosition),
}

impl View for Assignment {
    type V = SpecAssignment;

    open spec fn view(&self) -> SpecAssignment {
        match self {
            Assignment::Display(v) => SpecAssignment::Display(*v),
            Assignment::FlexDirection(v) => SpecAssignment::FlexDirection(*v),
            Assignment::FlexGrow(v) => SpecAssignment::FlexGrow(v@),
            Assignment::FlexShrink(v) => SpecAssignment::FlexShrink(v@),
            Assignment::Width(v) => SpecAssignment::Width(v@),
            Assignment::Height(v) => SpecAssignment::Height(v@),
            Assignment::MinWidth(v) => SpecAssignment::MinWidth(v@),
            Assignment::MinHeight(v) => SpecAssignment::MinHeight(v@),
            Assignment::MaxWidth(v) => SpecAssignment::MaxWidth(v@),
            Assignment::MaxHeight(v) => SpecAssignment::MaxHeight(v@),
            Assignment::Gap(v) => SpecAssignment::Gap(v@),
            Assignment::Margin(v) => SpecAssignment::Margin(v@),
            Assignment::Padding(v) => SpecAssignment::Padding(v@),
            Assignment::AlignItems(v) => SpecAssignment::AlignItems(*v),
            Assignment::AlignSelf(v) => SpecAssignment::AlignSelf(*v),
            Assignment::JustifyContent(v) => SpecAssignment::JustifyContent(*v),
            Assignment::Color(v) => SpecAssignment::Color(*v),
            Assignment::BackgroundColor(v) => SpecAssignment::BackgroundColor(*v),
            Assignment::Opacity(v) => SpecAssignment::Opacity(v@),
            Assignment::BorderWidth(v) => SpecAssignment::BorderWidth(v@),
            Assignment::BorderColor(v) => SpecAssignment::BorderColor(*v),
            Assignment::BorderRadius(v) => SpecAssignment::BorderRadius(v@),
            Assignment::Overflow(v) => SpecAssignment::Overflow(*v),
            Assignment::FontFamily(v) => SpecAssignment::FontFamily(v@),
            Assignment::FontSize(v) => SpecAssignment::FontSize(v@),
            Assignment::FontWeight(v) => SpecAssignment::FontWeight(*v),
            Assignment::LineHeight(v) => SpecAssignment::LineHeight(v@),
            Assignment::TextAlign(v) => SpecAssignment::TextAlign(*v),
            Assignment::TextOverflow(v) => SpecAssignment::TextOverflow(*v),
            Assignment::WhiteSpace(v) => SpecAssignment::WhiteSpace(*v),
            Assignment::ObjectFit(v) => SpecAssignment::ObjectFit(*v),
            Assignment::ObjectPosition(v) => SpecAssignment::ObjectPosition(*v),
        }
    }
}

/// The declarations with the assigned property set.
pub open spec fn spec_assign(d: SpecDeclarations, a: SpecAssignment) -> SpecDeclarations {
    match a {
        SpecAssignment::Display(v) => SpecDeclarations { display: Some(v), ..d },
        SpecAssignment::FlexDirection(v) => SpecDeclarations { flex_direction: Some(v), ..d },
        SpecAssignment::FlexGrow(v) => SpecDeclarations { flex_grow: Some(v), ..d },
        SpecAssignment::FlexShrink(v) => SpecDeclarations { flex_shrink: Some(v), ..d },
        SpecAssignment::Width(v) => SpecDeclarations { width: Some(v), ..d },
        SpecAssignment::Height(v) => SpecDeclarations { height: Some(v), ..d },
        SpecAssignment::MinWidth(v) => SpecDeclarations { min_width: Some(v), ..d },
        SpecAssignment::MinHeight(v) => SpecDeclarations { min_height: Some(v), ..d },
        SpecAssignment::MaxWidth(v) => SpecDeclarations { max_width: Some(v), ..d },
        SpecAssignment::MaxHeight(v) => SpecDeclarations { max_height: Some(v), ..d },
        SpecAssignment::Gap(v) => SpecDeclarations { gap: Some(v), ..d },
        SpecAssignment::Margin(v) => SpecDeclarations { margin: Some(v), ..d },
        SpecAssignment::Padding(v) => SpecDeclarations { padding: Some(v), ..d },
        SpecAssignment::AlignItems(v) => SpecDeclarations { align_items: Some(v), ..d },
        SpecAssignment::AlignSelf(v) => SpecDeclarations { align_self: Some(v), ..d },
        SpecAssignment::JustifyContent(v) => SpecDeclarations { justify_content: Some(v), ..d },
        SpecAssignment::Color(v) => SpecDeclarations { color: Some(v), ..d },
        SpecAssignment::BackgroundColor(v) => SpecDeclarations { background_color: Some(v), ..d },
        SpecAssignment::Opacity(v) => SpecDeclarations { opacity: Some(v), ..d },
        SpecAssignment::BorderWidth(v) => SpecDeclarations { border_width: Some(v), ..d },
        SpecAssignment::BorderColor(v) => SpecDeclarations { border_color: Some(v), ..d },
        SpecAssignment::BorderRadius(v) => SpecDeclarations { border_radius: Some(v), ..d },
        SpecAssignment::Overflow(v) => SpecDeclarations { overflow: Some(v), ..d },
        SpecAssignment::FontFamily(v) => SpecDeclarations { font_family: Some(v), ..d },
        SpecAssignment::FontSize(v) => SpecDeclarations { font_size: Some(v), ..d },
        SpecAssignment::FontWeight(v) => SpecDeclarations { font_weight: Some(v), ..d },
        SpecAssignment::LineHeight(v) => SpecDeclarations { line_height: Some(v), ..d },
        SpecAssignment::TextAlign(v) => SpecDeclarations { text_align: Some(v), ..d },
        SpecAssignment::TextOverflow(v) => SpecDeclarations { text_overflow: Some(v), ..d },
        SpecAssignment::WhiteSpace(v) => SpecDeclarations { white_space: Some(v), ..d },
        SpecAssignment::ObjectFit(v) => SpecDeclarations { object_fit: Some(v), ..d },
        SpecAssignment::ObjectPosition(v) => SpecDeclarations { object_position: Some(v), ..d },
    }
}

impl Declarations {
    /// Sets the assigned property, replacing an earlier value.
    pub fn assign(&mut self, a: Assignment)
        ensures
            final(self)@ == spec_assign(old(self)@, a@),
    {
        match a {
            Assignment::Display(v) => {
                self.display = Some(v);
            },
            Assignment::FlexDirection(v) => {
                self.flex_direction = Some(v);
            },
            Assignment::FlexGrow(v) => {
                self.flex_grow = Some(v);
            },
            Assignment::FlexShrink(v) => {
                self.flex_shrink = Some(v);
            },
            Assignment::Width(v) => {
                self.width = Some(v);
            },
            Assignment::Height(v) => {
                self.height = Some(v);
            },
            Assignment::MinWidth(v) => {
                self.min_width = Some(v);
            },
            Assignment::MinHeight(v) => {
                self.min_height = Some(v);
            },
            Assignment::MaxWidth(v) => {
                self.max_width = Some(v);
            },
            Assignment::MaxHeight(v) => {
                self.max_height = Some(v);
            },
            Assignment::Gap(v) => {
                self.gap = Some(v);
            },
            Assignment::Margin(v) => {
                self.margin = Some(v);
            },
            Assignment::Padding(v) => {
                self.padding = Some(v);
            },
            Assignment::AlignItems(v) => {
                self.align_items = Some(v);
            },
            Assignment::AlignSelf(v) => {
                self.align_self = Some(v);
            },
            Assignment::JustifyContent(v) => {
                self.justify_content = Some(v);
            },
            Assignment::Color(v) => {
                self.color = Some(v);
            },
            Assignment::BackgroundColor(v) => {
                self.background_color = Some(v);
            },
            Assignment::Opacity(v) => {
                self.opacity = Some(v);
            },
            Assignment::BorderWidth(v) => {
                self.border_width = Some(v);
            },
            Assignment::BorderColor(v) => {
                self.border_color = Some(v);
            },
            Assignment::BorderRadius(v) => {
                self.border_radius = Some(v);
            },
            Assignment::Overflow(v) => {
                self.overflow = Some(v);
            },
            Assignment::FontFamily(v) => {
                self.font_family = Some(v);
            },
            Assignment::FontSize(v) => {
                self.font_size = Some(v);
            },
            Assignment::FontWeight(v) => {
                self.font_weight = Some(v);
            },
            Assignment::LineHeight(v) => {
                self.line_height = Some(v);
            },
            Assignment::TextAlign(v) => {
                self.text_align = Some(v);
            },
            Assignment::TextOverflow(v) => {
                self.text_overflow = Some(v);
            },
            Assignment::WhiteSpace(v) => {
                self.white_space = Some(v);
            },
            Assignment::ObjectFit(v) => {
                self.object_fit = Some(v);
            },
            Assignment::ObjectPosition(v) => {
                self.object_position = Some(v);
            },
        }
    }
}

/// The declaration of the property in `p0..p1` with the value in `v0..v1`.
pub open spec fn spec_parse_assignment(s: Seq<char>, p0: int, p1: int, v0: int, v1: int) -> Result<
    SpecAssignment,
    SpecStyleError,
> {
    let prop = s.subrange(p0, p1);
    if prop == "display"@ {
        match spec_parse_display(s, v0, v1) {
            Ok(x) => Ok(SpecAssignment::Display(x)),
            Err(e) => Err(e),
        }
    } else if prop == "flex-direction"@ {
        match spec_parse_flex_direction(s, v0, v1) {
            Ok(x) => Ok(SpecAssignment::FlexDirection(x)),
            Err(e) => Err(e),
        }
    } else if prop == "flex-grow"@ {
        match spec_non_negative(s, v0, v1, prop) {
            Ok(x) => Ok(SpecAssignment::FlexGrow(x)),
            Err(e) => Err(e),
        }
    } else if prop == "flex-shrink"@ {
        match spec_non_negative(s, v0, v1, prop) {
            Ok(x) => Ok(SpecAssignment::FlexShrink(x)),
            Err(e) => Err(e),
        }
    } else if prop == "width"@ {
        match spec_parse_length(s, v0, v1, prop, true) {
            Ok(x) => Ok(SpecAssignment::Width(x)),
            Err(e) => Err(e),
        }
    } else if prop == "height"@ {
        match spec_parse_length(s, v0, v1, prop, true) {
            Ok(x) => Ok(SpecAssignment::Height(x)),
            Err(e) => Err(e),
        }
    } else if prop == "min-width"@ {
        match spec_parse_length(s, v0, v1, prop, true) {
            Ok(x) => Ok(SpecAssignment::MinWidth(x)),
            Err(e) => Err(e),
        }
    } else if prop == "min-height"@ {
        match spec_parse_length(s, v0, v1, prop, true) {
            Ok(x) => Ok(SpecAssignment::MinHeight(x)),
            Err(e) => Err(e),
        }
    } else {
        spec_parse_assignment_1(s, p0, p1, v0, v1)
    }
}

pub(crate) fn parse_assignment(s: &Vec<char>, p0: usize, p1: usize, v0: usize, v1: usize) -> (r: Result<
    Assignment,
    StyleError,
>)
    requires
        p0 <= p1 <= s@.len(),
        v0 <= v1 <= s@.len(),
    ensures
        r matches Ok(x) ==> spec_parse_assignment(s@, p0 as int, p1 as int, v0 as int, v1 as int) == Ok::<
            SpecAssignment,
            SpecStyleError,
        >(x@),
        r matches Err(e) ==> spec_parse_assignment(s@, p0 as int, p1 as int, v0 as int, v1 as int) == Err::<
            SpecAssignment,
            SpecStyleError,
        >(e@),
{
    if window_is(s, p0, p1, "display") {
        return match parse_display(s, v0, v1) {
            Ok(x) => Ok(Assignment::Display(x)),
            Err(e) => Err(e),
        };
    }
    if window_is(s, p0, p1, "flex-direction") {
        return match parse_flex_direction(s, v0, v1) {
            Ok(x) => Ok(Assignment::FlexDirection(x)),
            Err(e) => Err(e),
        };
    }
    if window_is(s, p0, p1, "flex-grow") {
        let prop = string_of(s, p0, p1);
        return match non_negative(s, v0, v1, &prop) {
            Ok(x) => Ok(Assignment::FlexGrow(x)),
            Err(e) => Err(e),
        };
    }
    if window_is(s, p0, p1, "flex-shrink") {
        let prop = string_of(s, p0, p1);
        return match non_negative(s, v0, v1, &prop) {
            Ok(x) => Ok(Assignment::FlexShrink(x)),
            Err(e) => Err(e),
        };
    }
    if window_is(s, p0, p1, "width") {
        let prop = string_of(s, p0, p1);
        return match parse_length(s, v0, v1, &prop, true) {
            Ok(x) => Ok(Assignment::Width(x)),
            Err(e) => Err(e),
        };
    }
    if window_is(s, p0, p1, "height") {
        let prop = string_of(s, p0, p1);
        return match parse_length(s, v0, v1, &prop, true) {
            Ok(x) => Ok(Assignment::Height(x)),
            Err(e) => Err(e),
        };
    }
    if window_is(s, p0, p1, "min-width") {
        let prop = string_of(s, p0, p1);
        return match parse_length(s, v0, v1, &prop, true) {
            Ok(x) => Ok(Assignment::MinWidth(x)),
            Err(e) => Err(e),
        };
    }
    if window_is(s, p0, p1, "min-height") {
        let prop = string_of(s, p0, p1);
        return match parse_length(s, v0, v1, &prop, true) {
            Ok(x) => Ok(Assignment::MinHeight(x)),
            Err(e) => Err(e),
        };
    }
    parse_assignment_1(s, p0, p1, v0, v1)
}

/// The declaration of the property in `p0..p1` with the value in `v0..v1` (continued).
pub open spec fn spec_parse_assignment_1(s: Seq<char>, p0: int, p1: int, v0: int, v1: int) -> Result<
    SpecAssignment,
    SpecStyleError,
> {
    let prop = s.subrange(p0, p1);
    if prop == "max-width"@ {
        match spec_parse_length(s, v0, v1, prop, true) {
            Ok(x) => Ok(SpecAssignment::MaxWidth(x)),
            Err(e) => Err(e),
        }
    } else if prop == "max-height"@ {
        match spec_parse_length(s, v0, v1, prop, true) {
            Ok(x) => Ok(SpecAssignment::MaxHeight(x)),
            Err(e) => Err(e),
        }
    } else if prop == "gap"@ {
        match spec_parse_length(s, v0, v1, prop, false) {
            Ok(x) => Ok(SpecAssignment::Gap(x)),
            Err(e) => Err(e),
        }
    } else if prop == "margin"@ {
        match spec_parse_length(s, v0, v1, prop, true) {
            Ok(x) => Ok(SpecAssignment::Margin(edges_all(x))),
            Err(e) => Err(e),
        }
    } else if prop == "padding"@ {
        match spec_parse_length(s, v0, v1, prop, false) {
            Ok(x) => Ok(SpecAssignment::Padding(edges_all(x))),
            Err(e) => Err(e),
        }
    } else if prop == "align-items"@ {
        match spec_parse_align(s, v0, v1) {
            Ok(x) => Ok(SpecAssignment::AlignItems(x)),
            Err(e) => Err(e),
        }
    } else if prop == "align-self"@ {
        match spec_parse_align(s, v0, v1) {
            Ok(x) => Ok(SpecAssignment::AlignSelf(x)),
            Err(e) => Err(e),
        }
    } else if prop == "justify-content"@ {
        match spec_parse_justify(s, v0, v1) {
            Ok(x) => Ok(SpecAssignment::JustifyContent(x)),
            Err(e) => Err(e),
        }
    } else {
        spec_parse_assignment_2(s, p0, p1, v0, v1)
    }
}

fn parse_assignment_1(s: &Vec<char>, p0: usize, p1: usize, v0: usize, v1: usize) -> (r: Result<
    Assignment,
    StyleError,
>)
    requires
        p0 <= p1 <= s@.len(),
        v0 <= v1 <= s@.len(),
    ensures
        r matches Ok(x) ==> spec_parse_assignment_1(s@, p0 as int, p1 as int, v0 as int, v1 as int) == Ok::<
            SpecAssignment,
            SpecStyleError,
        >(x@),
        r matches Err(e) ==> spec_parse_assignment_1(s@, p0 as int, p1 as int, v0 as int, v1 as int) == Err::<
            SpecAssignment,
            SpecStyleError,
        >(e@),
{
    if window_is(s, p0, p1, "max-width") {
        let prop = string_of(s, p0, p1);
        return match parse_length(s, v0, v1, &prop, true) {
            Ok(x) => Ok(Assignment::MaxWidth(x)),
            Err(e) => Err(e),
        };
    }
    if window_is(s, p0, p1, "max-height") {
        let prop = string_of(s, p0, p1);
        return match parse_length(s, v0, v1, &prop, true) {
            Ok(x) => Ok(Assignment::MaxHeight(x)),
            Err(e) => Err(e),
        };
    }
    if window_is(s, p0, p1, "gap") {
        let prop = string_of(s, p0, p1);
        return match parse_length(s, v0, v1, &prop, false) {
            Ok(x) => Ok(Assignment::Gap(x)),
            Err(e) => Err(e),
        };
    }
    if window_is(s, p0, p1, "margin") {
        let prop = string_of(s, p0, p1);
        return match parse_length(s, v0, v1, &prop, true) {
            Ok(x) => Ok(Assignment::Margin(Edges::all(x))),
            Err(e) => Err(e),
        };
    }
    if window_is(s, p0, p1, "padding") {
        let prop = string_of(s, p0, p1);
        return match parse_length(s, v0, v1, &prop, false) {
            Ok(x) => Ok(Assignment::Padding(Edges::all(x))),
            Err(e) => Err(e),
        };
    }
    if window_is(s, p0, p1, "align-items") {
        return match parse_align(s, v0, v1) {
            Ok(x) => Ok(Assignment::AlignItems(x)),
            Err(e) => Err(e),
        };
    }
    if window_is(s, p0, p1, "align-self") {
        return match parse_align(s, v0, v1) {
            Ok(x) => Ok(Assignment::AlignSelf(x)),
            Err(e) => Err(e),
        };
    }
    if window_is(s, p0, p1, "justify-content") {
        return match parse_justify(s, v0, v1) {
            Ok(x) => Ok(Assignment::JustifyContent(x)),
            Err(e) => Err(e),
        };
    }
    parse_assignment_2(s, p0, p1, v0, v1)
}

/// The declaration of the property in `p0..p1` with the value in `v0..v1` (continued).
pub open spec fn spec_parse_assignment_2(s: Seq<char>, p0: int, p1: int, v0: int, v1: int) -> Result<
    SpecAssignment,
    SpecStyleError,
> {
    let prop = s.subrange(p0, p1);
    if prop == "color"@ {
        match spec_parse_color(s, v0, v1, prop) {
            Ok(x) => Ok(SpecAssignment::Color(x)),
            Err(e) => Err(e),
        }
    } else if prop == "background-color"@ {
        match spec_parse_color(s, v0, v1, prop) {
            Ok(x) => Ok(SpecAssignment::BackgroundColor(x)),
            Err(e) => Err(e),
        }
    } else if prop == "opacity"@ {
        match spec_unit_interval(s, v0, v1, prop) {
            Ok(x) => Ok(SpecAssignment::Opacity(x)),
            Err(e) => Err(e),
        }
    } else if prop == "border-width"@ {
        match spec_parse_px(s, v0, v1, prop) {
            Ok(x) => Ok(SpecAssignment::BorderWidth(x)),
            Err(e) => Err(e),
        }
    } else if prop == "border-color"@ {
        match spec_parse_color(s, v0, v1, prop) {
            Ok(x) => Ok(SpecAssignment::BorderColor(x)),
            Err(e) => Err(e),
        }
    } else if prop == "border-radius"@ {
        match spec_parse_px(s, v0, v1, prop) {
            Ok(x) => Ok(SpecAssignment::BorderRadius(x)),
            Err(e) => Err(e),
        }
    } else if prop == "overflow"@ {
        match spec_parse_overflow(s, v0, v1) {
            Ok(x) => Ok(SpecAssignment::Overflow(x)),
            Err(e) => Err(e),
        }
    } else if prop == "font-family"@ {
        match spec_parse_font_family(s, v0, v1) {
            Ok(x) => Ok(SpecAssignment::FontFamily(x)),
            Err(e) => Err(e),
        }
    } else {
        spec_parse_assignment_3(s, p0, p1, v0, v1)
    }
}

fn parse_assignment_2(s: &Vec<char>, p0: usize, p1: usize, v0: usize, v1: usize) -> (r: Result<
    Assignment,
    StyleError,
>)
    requires
        p0 <= p1 <= s@.len(),
        v0 <= v1 <= s@.len(),
    ensures
        r matches Ok(x) ==> spec_parse_assignment_2(s@, p0 as int, p1 as int, v0 as int, v1 as int) == Ok::<
            SpecAssignment,
            SpecStyleError,
        >(x@),
        r matches Err(e) ==> spec_parse_assignment_2(s@, p0 as int, p1 as int, v0 as int, v1 as int) == Err::<
            SpecAssignment,
            SpecStyleError,
        >(e@),
{
    if window_is(s, p0, p1, "color") {
        let prop = string_of(s, p0, p1);
        return match parse_color(s, v0, v1, &prop) {
            Ok(x) => Ok(Assignment::Color(x)),
            Err(e) => Err(e),
        };
    }
    if window_is(s, p0, p1, "background-color") {
        let prop = string_of(s, p0, p1);
        return match parse_color(s, v0, v1, &prop) {
            Ok(x) => Ok(Assignment::BackgroundColor(x)),
            Err(e) => Err(e),
        };
    }
    if window_is(s, p0, p1, "opacity") {
        let prop = string_of(s, p0, p1);
        return match unit_interval(s, v0, v1, &prop) {
            Ok(x) => Ok(Assignment::Opacity(x)),
            Err(e) => Err(e),
        };
    }
    if window_is(s, p0, p1, "border-width") {
        let prop = string_of(s, p0, p1);
        return match parse_px(s, v0, v1, &prop) {
            Ok(x) => Ok(Assignment::BorderWidth(x)),
            Err(e) => Err(e),
        };
    }
    if window_is(s, p0, p1, "border-color") {
        let prop = string_of(s, p0, p1);
        return match parse_color(s, v0, v1, &prop) {
            Ok(x) => Ok(Assignment::BorderColor(x)),
            Err(e) => Err(e),
        };
    }
    if window_is(s, p0, p1, "border-radius") {
        let prop = string_of(s, p0, p1);
        return match parse_px(s, v0, v1, &prop) {
            Ok(x) => Ok(Assignment::BorderRadius(x)),
            Err(e) => Err(e),
        };
    }
    if window_is(s, p0, p1, "overflow") {
        return match parse_overflow(s, v0, v1) {
            Ok(x) => Ok(Assignment::Overflow(x)),
            Err(e) => Err(e),
        };
    }
    if window_is(s, p0, p1, "font-family") {
        return match parse_font_family(s, v0, v1) {
            Ok(x) => Ok(Assignment::FontFamily(x)),
            Err(e) => Err(e),
        };
    }
    parse_assignment_3(s, p0, p1, v0, v1)
}

/// The declaration of the property in `p0..p1` with the value in `v0..v1` (continued).
pub open spec fn spec_parse_assignment_3(s: Seq<char>, p0: int, p1: int, v0: int, v1: int) -> Result<
    SpecAssignment,
    SpecStyleError,
> {
    let prop = s.subrange(p0, p1);
    if prop == "font-size"@ {
        match spec_positive_px(s, v0, v1, prop) {
            Ok(x) => Ok(SpecAssignment::FontSize(x)),
            Err(e) => Err(e),
        }
    } else if prop == "font-weight"@ {
        match spec_parse_font_weight(s, v0, v1) {
            Ok(x) => Ok(SpecAssignment::FontWeight(x)),
            Err(e) => Err(e),
        }
    } else if prop == "line-height"@ {
        match spec_positive_number(s, v0, v1, prop) {
            Ok(x) => Ok(SpecAssignment::LineHeight(x)),
            Err(e) => Err(e),
        }
    } else if prop == "text-align"@ {
        match spec_parse_text_align(s, v0, v1) {
            Ok(x) => Ok(SpecAssignment::TextAlign(x)),
            Err(e) => Err(e),
        }
    } else if prop == "text-overflow"@ {
        match spec_parse_text_overflow(s, v0, v1) {
            Ok(x) => Ok(SpecAssignment::TextOverflow(x)),
            Err(e) => Err(e),
        }
    } else if prop == "white-space"@ {
        match spec_parse_white_space(s, v0, v1) {
            Ok(x) => Ok(SpecAssignment::WhiteSpace(x)),
            Err(e) => Err(e),
        }
    } else if prop == "object-fit"@ {
        match spec_parse_object_fit(s, v0, v1) {
            Ok(x) => Ok(SpecAssignment::ObjectFit(x)),
            Err(e) => Err(e),
        }
    } else if prop == "object-position"@ {
        match spec_parse_object_position(s, v0, v1) {
            Ok(x) => Ok(SpecAssignment::ObjectPosition(x)),
            Err(e) => Err(e),
        }
    } else {
        Err(style_error(StyleErrorKind::UnsupportedProperty, prop, seq![]))
    }
}

fn parse_assignment_3(s: &Vec<char>, p0: usize, p1: usize, v0: usize, v1: usize) -> (r: Result<
    Assignment,
    StyleError,
>)
    requires
        p0 <= p1 <= s@.len(),
        v0 <= v1 <= s@.len(),
    ensures
        r matches Ok(x) ==> spec_parse_assignment_3(s@, p0 as int, p1 as int, v0 as int, v1 as int) == Ok::<
            SpecAssignment,
            SpecStyleError,
        >(x@),
        r matches Err(e) ==> spec_parse_assignment_3(s@, p0 as int, p1 as int, v0 as int, v1 as int) == Err::<
            SpecAssignment,
            SpecStyleError,
        >(e@),
{
    if window_is(s, p0, p1, "font-size") {
        let prop = string_of(s, p0, p1);
        return match positive_px(s, v0, v1, &prop) {
            Ok(x) => Ok(Assignment::FontSize(x)),
            Err(e) => Err(e),
        };
    }
    if window_is(s, p0, p1, "font-weight") {
        return match parse_font_weight(s, v0, v1) {
            Ok(x) => Ok(Assignment::FontWeight(x)),
            Err(e) => Err(e),
        };
    }
    if window_is(s, p0, p1, "line-height") {
        let prop = string_of(s, p0, p1);
        return match positive_number(s, v0, v1, &prop) {
            Ok(x) => Ok(Assignment::LineHeight(x)),
            Err(e) => Err(e),
        };
    }
    if window_is(s, p0, p1, "text-align") {
        return match parse_text_align(s, v0, v1) {
            Ok(x) => Ok(Assignment::TextAlign(x)),
            Err(e) => Err(e),
        };
    }
    if window_is(s, p0, p1, "text-overflow") {
        return match parse_text_overflow(s, v0, v1) {
            Ok(x) => Ok(Assignment::TextOverflow(x)),
            Err(e) => Err(e),
        };
    }
    if window_is(s, p0, p1, "white-space") {
        return match parse_white_space(s, v0, v1) {
            Ok(x) => Ok(Assignment::WhiteSpace(x)),
            Err(e) => Err(e),
        };
    }
    if window_is(s, p0, p1, "object-fit") {
        return match parse_object_fit(s, v0, v1) {
            Ok(x) => Ok(Assignment::ObjectFit(x)),
            Err(e) => Err(e),
        };
    }
    if window_is(s, p0, p1, "object-position") {
        return match parse_object_position(s, v0, v1) {
            Ok(x) => Ok(Assignment::ObjectPosition(x)),
            Err(e) => Err(e),
        };
    }
    Err(error(StyleErrorKind::UnsupportedProperty, string_of(s, p0, p1), String::new()))
}

/// `font-weight` keywords: `normal` is 400 and `bold` is 700.
pub proof fn law_font_weight_keywords(s: Seq<char>, a: int, b: int)
    requires
        0 <= a <= b <= s.len(),
    ensures
        s.subrange(a, b) == "normal"@ ==> spec_parse_font_weight(s, a, b) == Ok::<u16, SpecStyleError>(400),
        s.subrange(a, b) == "bold"@ ==> spec_parse_font_weight(s, a, b) == Ok::<u16, SpecStyleError>(700),
{
    reveal(spec_parse_font_weight);
    reveal_strlit("normal");
    reveal_strlit("bold");
    assert("bold"@.len() != "normal"@.len());
}

// ---------------------------------------------------------------------------
// Which property a declaration sets.

/// A declaration of `display`, `flex-direction`, `flex-grow`, `flex-shrink`, `width`, `height`, `min-width`, `min-height`, `max-width`, `max-height`, `gap` is read by that property's value parser and
/// sets that property.
pub proof fn law_declared_property_1(s: Seq<char>, p0: int, p1: int, v0: int, v1: int)
    requires
        0 <= p0 <= p1 <= s.len(),
        0 <= v0 <= v1 <= s.len(),
    ensures
        s.subrange(p0, p1) == "display"@ ==> spec_parse_assignment(s, p0, p1, v0, v1) == match spec_parse_display(s, v0, v1) {
            Ok(x) => Ok::<SpecAssignment, SpecStyleError>(SpecAssignment::Display(x)),
            Err(e) => Err(e),
        },
        s.subrange(p0, p1) == "flex-direction"@ ==> spec_parse_assignment(s, p0, p1, v0, v1) == match spec_parse_flex_direction(s, v0, v1) {
            Ok(x) => Ok::<SpecAssignment, SpecStyleError>(SpecAssignment::FlexDirection(x)),
            Err(e) => Err(e),
        },
        s.subrange(p0, p1) == "flex-grow"@ ==> spec_parse_assignment(s, p0, p1, v0, v1) == match spec_non_negative(s, v0, v1, "flex-grow"@) {
            Ok(x) => Ok::<SpecAssignment, SpecStyleError>(SpecAssignment::FlexGrow(x)),
            Err(e) => Err(e),
        },
        s.subrange(p0, p1) == "flex-shrink"@ ==> spec_parse_assignment(s, p0, p1, v0, v1) == match spec_non_negative(s, v0, v1, "flex-shrink"@) {
            Ok(x) => Ok::<SpecAssignment, SpecStyleError>(SpecAssignment::FlexShrink(x)),
            Err(e) => Err(e),
        },
        s.subrange(p0, p1) == "width"@ ==> spec_parse_assignment(s, p0, p1, v0, v1) == match spec_parse_length(s, v0, v1, "width"@, true) {
            Ok(x) => Ok::<SpecAssignment, SpecStyleError>(SpecAssignment::Width(x)),
            Err(e) => Err(e),
        },
        s.subrange(p0, p1) == "height"@ ==> spec_parse_assignment(s, p0, p1, v0, v1) == match spec_parse_length(s, v0, v1, "height"@, true) {
            Ok(x) => Ok::<SpecAssignment, SpecStyleError>(SpecAssignment::Height(x)),
            Err(e) => Err(e),
        },
        s.subrange(p0, p1) == "min-width"@ ==> spec_parse_assignment(s, p0, p1, v0, v1) == match spec_parse_length(s, v0, v1, "min-width"@, true) {
            Ok(x) => Ok::<SpecAssignment, SpecStyleError>(SpecAssignment::MinWidth(x)),
            Err(e) => Err(e),
        },
        s.subrange(p0, p1) == "min-height"@ ==> spec_parse_assignment(s, p0, p1, v0, v1) == match spec_parse_length(s, v0, v1, "min-height"@, true) {
            Ok(x) => Ok::<SpecAssignment, SpecStyleError>(SpecAssignment::MinHeight(x)),
            Err(e) => Err(e),
        },
        s.subrange(p0, p1) == "max-width"@ ==> spec_parse_assignment(s, p0, p1, v0, v1) == match spec_parse_length(s, v0, v1, "max-width"@, true) {
            Ok(x) => Ok::<SpecAssignment, SpecStyleError>(SpecAssignment::MaxWidth(x)),
            Err(e) => Err(e),
        },
        s.subrange(p0, p1) == "max-height"@ ==> spec_parse_assignment(s, p0, p1, v0, v1) == match spec_parse_length(s, v0, v1, "max-height"@, true) {
            Ok(x) => Ok::<SpecAssignment, SpecStyleError>(SpecAssignment::MaxHeight(x)),
            Err(e) => Err(e),
        },
        s.subrange(p0, p1) == "gap"@ ==> spec_parse_assignment(s, p0, p1, v0, v1) == match spec_parse_length(s, v0, v1, "gap"@, false) {
            Ok(x) => Ok::<SpecAssignment, SpecStyleError>(SpecAssignment::Gap(x)),
            Err(e) => Err(e),
        },
{
    reveal_strlit("display");
    reveal_strlit("flex-direction");
    reveal_strlit("flex-grow");
    reveal_strlit("flex-shrink");
    reveal_strlit("width");
    reveal_strlit("height");
    reveal_strlit("min-width");
    reveal_strlit("min-height");
    reveal_strlit("max-width");
    reveal_strlit("max-height");
    reveal_strlit("gap");
    reveal_strlit("margin");
    reveal_strlit("padding");
    reveal_strlit("align-items");
    reveal_strlit("align-self");
    reveal_strlit("justify-content");
    reveal_strlit("color");
    reveal_strlit("background-color");
    reveal_strlit("opacity");
    reveal_strlit("border-width");
    reveal_strlit("border-color");
    reveal_strlit("border-radius");
    reveal_strlit("overflow");
    reveal_strlit("font-family");
    reveal_strlit("font-size");
    reveal_strlit("font-weight");
    reveal_strlit("line-height");
    reveal_strlit("text-align");
    reveal_strlit("text-overflow");
    reveal_strlit("white-space");
    reveal_strlit("object-fit");
    reveal_strlit("object-position");
    assert("flex-direction"@.len() != "display"@.len());
    assert("flex-grow"@.len() != "display"@.len());
    assert("flex-grow"@.len() != "flex-direction"@.len());
    assert("flex-shrink"@.len() != "display"@.len());
    assert("flex-shrink"@.len() != "flex-direction"@.len());
    assert("flex-shrink"@.len() != "flex-grow"@.len());
    assert("width"@.len() != "display"@.len());
    assert("width"@.len() != "flex-direction"@.len());
    assert("width"@.len() != "flex-grow"@.len());
    assert("width"@.len() != "flex-shrink"@.len());
    assert("height"@.len() != "display"@.len());
    assert("height"@.len() != "flex-direction"@.len());
    assert("height"@.len() != "flex-grow"@.len());
    assert("height"@.len() != "flex-shrink"@.len());
    assert("height"@.len() != "width"@.len());
    assert("min-width"@.len() != "display"@.len());
    assert("min-width"@.len() != "flex-direction"@.len());
    assert("min-width"@[0] != "flex-grow"@[0]);
    assert("min-width"@.len() != "flex-shrink"@.len());
    assert("min-width"@.len() != "width"@.len());
    assert("min-width"@.len() != "height"@.len());
    assert("min-height"@.len() != "display"@.len());
    assert("min-height"@.len() != "flex-direction"@.len());
    assert("min-height"@.len() != "flex-grow"@.len());
    assert("min-height"@.len() != "flex-shrink"@.len());
    assert("min-height"@.len() != "width"@.len());
    assert("min-height"@.len() != "height"@.len());
    assert("min-height"@.len() != "min-width"@.len());
    assert("max-width"@.len() != "display"@.len());
    assert("max-width"@.len() != "flex-direction"@.len());
    assert("max-width"@[0] != "flex-grow"@[0]);
    assert("max-width"@.len() != "flex-shrink"@.len());
    assert("max-width"@.len() != "width"@.len());
    assert("max-width"@.len() != "height"@.len());
    assert("max-width"@[1] != "min-width"@[1]);
    assert("max-width"@.len() != "min-height"@.len());
    assert("max-height"@.len() != "display"@.len());
    assert("max-height"@.len() != "flex-direction"@.len());
    assert("max-height"@.len() != "flex-grow"@.len());
    assert("max-height"@.len() != "flex-shrink"@.len());
    assert("max-height"@.len() != "width"@.len());
    assert("max-height"@.len() != "height"@.len());
    assert("max-height"@.len() != "min-width"@.len());
    assert("max-height"@[1] != "min-height"@[1]);
    assert("max-height"@.len() != "max-width"@.len());
    assert("gap"@.len() != "display"@.len());
    assert("gap"@.len() != "flex-direction"@.len());
    assert("gap"@.len() != "flex-grow"@.len());
    assert("gap"@.len() != "flex-shrink"@.len());
    assert("gap"@.len() != "width"@.len());
    assert("gap"@.len() != "height"@.len());
    assert("gap"@.len() != "min-width"@.len());
    assert("gap"@.len() != "min-height"@.len());
    assert("gap"@.len() != "max-width"@.len());
    assert("gap"@.len() != "max-height"@.len());
}

/// A declaration of `margin`, `padding`, `align-items`, `align-self`, `justify-content`, `color`, `background-color`, `opacity`, `border-width`, `border-color`, `border-radius` is read by that property's value parser and
/// sets that property.
pub proof fn law_declared_property_2(s: Seq<char>, p0: int, p1: int, v0: int, v1: int)
    requires
        0 <= p0 <= p1 <= s.len(),
        0 <= v0 <= v1 <= s.len(),
    ensures
        s.subrange(p0, p1) == "margin"@ ==> spec_parse_assignment(s, p0, p1, v0, v1) == match spec_parse_length(s, v0, v1, "margin"@, true) {
            Ok(x) => Ok::<SpecAssignment, SpecStyleError>(SpecAssignment::Margin(edges_all(x))),
            Err(e) => Err(e),
        },
        s.subrange(p0, p1) == "padding"@ ==> spec_parse_assignment(s, p0, p1, v0, v1) == match spec_parse_length(s, v0, v1, "padding"@, false) {
            Ok(x) => Ok::<SpecAssignment, SpecStyleError>(SpecAssignment::Padding(edges_all(x))),
            Err(e) => Err(e),
        },
        s.subrange(p0, p1) == "align-items"@ ==> spec_parse_assignment(s, p0, p1, v0, v1) == match spec_parse_align(s, v0, v1) {
            Ok(x) => Ok::<SpecAssignment, SpecStyleError>(SpecAssignment::AlignItems(x)),
            Err(e) => Err(e),
        },
        s.subrange(p0, p1) == "align-self"@ ==> spec_parse_assignment(s, p0, p1, v0, v1) == match spec_parse_align(s, v0, v1) {
            Ok(x) => Ok::<SpecAssignment, SpecStyleError>(SpecAssignment::AlignSelf(x)),
            Err(e) => Err(e),
        },
        s.subrange(p0, p1) == "justify-content"@ ==> spec_parse_assignment(s, p0, p1, v0, v1) == match spec_parse_justify(s, v0, v1) {
            Ok(x) => Ok::<SpecAssignment, SpecStyleError>(SpecAssignment::JustifyContent(x)),
            Err(e) => Err(e),
        },
        s.subrange(p0, p1) == "color"@ ==> spec_parse_assignment(s, p0, p1, v0, v1) == match spec_parse_color(s, v0, v1, "color"@) {
            Ok(x) => Ok::<SpecAssignment, SpecStyleError>(SpecAssignment::Color(x)),
            Err(e) => Err(e),
        },
        s.subrange(p0, p1) == "background-color"@ ==> spec_parse_assignment(s, p0, p1, v0, v1) == match spec_parse_color(s, v0, v1, "background-color"@) {
            Ok(x) => Ok::<SpecAssignment, SpecStyleError>(SpecAssignment::BackgroundColor(x)),
            Err(e) => Err(e),
        },
        s.subrange(p0, p1) == "opacity"@ ==> spec_parse_assignment(s, p0, p1, v0, v1) == match spec_unit_interval(s, v0, v1, "opacity"@) {
            Ok(x) => Ok::<SpecAssignment, SpecStyleError>(SpecAssignment::Opacity(x)),
            Err(e) => Err(e),
        },
        s.subrange(p0, p1) == "border-width"@ ==> spec_parse_assignment(s, p0, p1, v0, v1) == match spec_parse_px(s, v0, v1, "border-width"@) {
            Ok(x) => Ok::<SpecAssignment, SpecStyleError>(SpecAssignment::BorderWidth(x)),
            Err(e) => Err(e),
        },
        s.subrange(p0, p1) == "border-color"@ ==> spec_parse_assignment(s, p0, p1, v0, v1) == match spec_parse_color(s, v0, v1, "border-color"@) {
            Ok(x) => Ok::<SpecAssignment, SpecStyleError>(SpecAssignment::BorderColor(x)),
            Err(e) => Err(e),
        },
        s.subrange(p0, p1) == "border-radius"@ ==> spec_parse_assignment(s, p0, p1, v0, v1) == match spec_parse_px(s, v0, v1, "border-radius"@) {
            Ok(x) => Ok::<SpecAssignment, SpecStyleError>(SpecAssignment::BorderRadius(x)),
            Err(e) => Err(e),
        },
{
    reveal_strlit("display");
    reveal_strlit("flex-direction");
    reveal_strlit("flex-grow");
    reveal_strlit("flex-shrink");
    reveal_strlit("width");
    reveal_strlit("height");
    reveal_strlit("min-width");
    reveal_strlit("min-height");
    reveal_strlit("max-width");
    reveal_strlit("max-height");
    reveal_strlit("gap");
    reveal_strlit("margin");
    reveal_strlit("padding");
    reveal_strlit("align-items");
    reveal_strlit("align-self");
    reveal_strlit("justify-content");
    reveal_strlit("color");
    reveal_strlit("background-color");
    reveal_strlit("opacity");
    reveal_strlit("border-width");
    reveal_strlit("border-color");
    reveal_strlit("border-radius");
    reveal_strlit("overflow");
    reveal_strlit("font-family");
    reveal_strlit("font-size");
    reveal_strlit("font-weight");
    reveal_strlit("line-height");
    reveal_strlit("text-align");
    reveal_strlit("text-overflow");
    reveal_strlit("white-space");
    reveal_strlit("object-fit");
    reveal_strlit("object-position");
    assert("margin"@.len() != "display"@.len());
    assert("margin"@.len() != "flex-direction"@.len());
    assert("margin"@.len() != "flex-grow"@.len());
    assert("margin"@.len() != "flex-shrink"@.len());
    assert("margin"@.len() != "width"@.len());
    assert("margin"@[0] != "height"@[0]);
    assert("margin"@.len() != "min-width"@.len());
    assert("margin"@.len() != "min-height"@.len());
    assert("margin"@.len() != "max-width"@.len());
    assert("margin"@.len() != "max-height"@.len());
    assert("margin"@.len() != "gap"@.len());
    assert("padding"@[0] != "display"@[0]);
    assert("padding"@.len() != "flex-direction"@.len());
    assert("padding"@.len() != "flex-grow"@.len());
    assert("padding"@.len() != "flex-shrink"@.len());
    assert("padding"@.len() != "width"@.len());
    assert("padding"@.len() != "height"@.len());
    assert("padding"@.len() != "min-width"@.len());
    assert("padding"@.len() != "min-height"@.len());
    assert("padding"@.len() != "max-width"@.len());
    assert("padding"@.len() != "max-height"@.len());
    assert("padding"@.len() != "gap"@.len());
    assert("padding"@.len() != "margin"@.len());
    assert("align-items"@.len() != "display"@.len());
    assert("align-items"@.len() != "flex-direction"@.len());
    assert("align-items"@.len() != "flex-grow"@.len());
    assert("align-items"@[0] != "flex-shrink"@[0]);
    assert("align-items"@.len() != "width"@.len());
    assert("align-items"@.len() != "height"@.len());
    assert("align-items"@.len() != "min-width"@.len());
    assert("align-items"@.len() != "min-height"@.len());
    assert("align-items"@.len() != "max-width"@.len());
    assert("align-items"@.len() != "max-height"@.len());
    assert("align-items"@.len() != "gap"@.len());
    assert("align-items"@.len() != "margin"@.len());
    assert("align-items"@.len() != "padding"@.len());
    assert("align-self"@.len() != "display"@.len());
    assert("align-self"@.len() != "flex-direction"@.len());
    assert("align-self"@.len() != "flex-grow"@.len());
    assert("align-self"@.len() != "flex-shrink"@.len());
    assert("align-self"@.len() != "width"@.len());
    assert("align-self"@.len() != "height"@.len());
    assert("align-self"@.len() != "min-width"@.len());
    assert("align-self"@[0] != "min-height"@[0]);
    assert("align-self"@.len() != "max-width"@.len());
    assert("align-self"@[0] != "max-height"@[0]);
    assert("align-self"@.len() != "gap"@.len());
    assert("align-self"@.len() != "margin"@.len());
    assert("align-self"@.len() != "padding"@.len());
    assert("align-self"@.len() != "align-items"@.len());
    assert("justify-content"@.len() != "display"@.len());
    assert("justify-content"@.len() != "flex-direction"@.len());
    assert("justify-content"@.len() != "flex-grow"@.len());
    assert("justify-content"@.len() != "flex-shrink"@.len());
    assert("justify-content"@.len() != "width"@.len());
    assert("justify-content"@.len() != "height"@.len());
    assert("justify-content"@.len() != "min-width"@.len());
    assert("justify-content"@.len() != "min-height"@.len());
    assert("justify-content"@.len() != "max-width"@.len());
    assert("justify-content"@.len() != "max-height"@.len());
    assert("justify-content"@.len() != "gap"@.len());
    assert("justify-content"@.len() != "margin"@.len());
    assert("justify-content"@.len() != "padding"@.len());
    assert("justify-content"@.len() != "align-items"@.len());
    assert("justify-content"@.len() != "align-self"@.len());
    assert("color"@.len() != "display"@.len());
    assert("color"@.len() != "flex-direction"@.len());
    assert("color"@.len() != "flex-grow"@.len());
    assert("color"@.len() != "flex-shrink"@.len());
    assert("color"@[0] != "width"@[0]);
    assert("color"@.len() != "height"@.len());
    assert("color"@.len() != "min-width"@.len());
    assert("color"@.len() != "min-height"@.len());
    assert("color"@.len() != "max-width"@.len());
    assert("color"@.len() != "max-height"@.len());
    assert("color"@.len() != "gap"@.len());
    assert("color"@.len() != "margin"@.len());
    assert("color"@.len() != "padding"@.len());
    assert("color"@.len() != "align-items"@.len());
    assert("color"@.len() != "align-self"@.len());
    assert("color"@.len() != "justify-content"@.len());
    assert("background-color"@.len() != "display"@.len());
    assert("background-color"@.len() != "flex-direction"@.len());
    assert("background-color"@.len() != "flex-grow"@.len());
    assert("background-color"@.len() != "flex-shrink"@.len());
    assert("background-color"@.len() != "width"@.len());
    assert("background-color"@.len() != "height"@.len());
    assert("background-color"@.len() != "min-width"@.len());
    assert("background-color"@.len() != "min-height"@.len());
    assert("background-color"@.len() != "max-width"@.len());
    assert("background-color"@.len() != "max-height"@.len());
    assert("background-color"@.len() != "gap"@.len());
    assert("background-color"@.len() != "margin"@.len());
    assert("background-color"@.len() != "padding"@.len());
    assert("background-color"@.len() != "align-items"@.len());
    assert("background-color"@.len() != "align-self"@.len());
    assert("background-color"@.len() != "justify-content"@.len());
    assert("background-color"@.len() != "color"@.len());
    assert("opacity"@[0] != "display"@[0]);
    assert("opacity"@.len() != "flex-direction"@.len());
    assert("opacity"@.len() != "flex-grow"@.len());
    assert("opacity"@.len() != "flex-shrink"@.len());
    assert("opacity"@.len() != "width"@.len());
    assert("opacity"@.len() != "height"@.len());
    assert("opacity"@.len() != "min-width"@.len());
    assert("opacity"@.len() != "min-height"@.len());
    assert("opacity"@.len() != "max-width"@.len());
    assert("opacity"@.len() != "max-height"@.len());
    assert("opacity"@.len() != "gap"@.len());
    assert("opacity"@.len() != "margin"@.len());
    assert("opacity"@[0] != "padding"@[0]);
    assert("opacity"@.len() != "align-items"@.len());
    assert("opacity"@.len() != "align-self"@.len());
    assert("opacity"@.len() != "justify-content"@.len());
    assert("opacity"@.len() != "color"@.len());
    assert("opacity"@.len() != "background-color"@.len());
    assert("border-width"@.len() != "display"@.len());
    assert("border-width"@.len() != "flex-direction"@.len());
    assert("border-width"@.len() != "flex-grow"@.len());
    assert("border-width"@.len() != "flex-shrink"@.len());
    assert("border-width"@.len() != "width"@.len());
    assert("border-width"@.len() != "height"@.len());
    assert("border-width"@.len() != "min-width"@.len());
    assert("border-width"@.len() != "min-height"@.len());
    assert("border-width"@.len() != "max-width"@.len());
    assert("border-width"@.len() != "max-height"@.len());
    assert("border-width"@.len() != "gap"@.len());
    assert("border-width"@.len() != "margin"@.len());
    assert("border-width"@.len() != "padding"@.len());
    assert("border-width"@.len() != "align-items"@.len());
    assert("border-width"@.len() != "align-self"@.len());
    assert("border-width"@.len() != "justify-content"@.len());
    assert("border-width"@.len() != "color"@.len());
    assert("border-width"@.len() != "background-color"@.len());
    assert("border-width"@.len() != "opacity"@.len());
    assert("border-color"@.len() != "display"@.len());
    assert("border-color"@.len() != "flex-direction"@.len());
    assert("border-color"@.len() != "flex-grow"@.len());
    assert("border-color"@.len() != "flex-shrink"@.len());
    assert("border-color"@.len() != "width"@.len());
    assert("border-color"@.len() != "height"@.len());
    assert("border-color"@.len() != "min-width"@.len());
    assert("border-color"@.len() != "min-height"@.len());
    assert("border-color"@.len() != "max-width"@.len());
    assert("border-color"@.len() != "max-height"@.len());
    assert("border-color"@.len() != "gap"@.len());
    assert("border-color"@.len() != "margin"@.len());
    assert("border-color"@.len() != "padding"@.len());
    assert("border-color"@.len() != "align-items"@.len());
    assert("border-color"@.len() != "align-self"@.len());
    assert("border-color"@.len() != "justify-content"@.len());
    assert("border-color"@.len() != "color"@.len());
    assert("border-color"@.len() != "background-color"@.len());
    assert("border-color"@.len() != "opacity"@.len());
    assert("border-color"@[7] != "border-width"@[7]);
    assert("border-radius"@.len() != "display"@.len());
    assert("border-radius"@.len() != "flex-direction"@.len());
    assert("border-radius"@.len() != "flex-grow"@.len());
    assert("border-radius"@.len() != "flex-shrink"@.len());
    assert("border-radius"@.len() != "width"@.len());
    assert("border-radius"@.len() != "height"@.len());
    assert("border-radius"@.len() != "min-width"@.len());
    assert("border-radius"@.len() != "min-height"@.len());
    assert("border-radius"@.len() != "max-width"@.len());
    assert("border-radius"@.len() != "max-height"@.len());
    assert("border-radius"@.len() != "gap"@.len());
    assert("border-radius"@.len() != "margin"@.len());
    assert("border-radius"@.len() != "padding"@.len());
    assert("border-radius"@.len() != "align-items"@.len());
    assert("border-radius"@.len() != "align-self"@.len());
    assert("border-radius"@.len() != "justify-content"@.len());
    assert("border-radius"@.len() != "color"@.len());
    assert("border-radius"@.len() != "background-color"@.len());
    assert("border-radius"@.len() != "opacity"@.len());
    assert("border-radius"@.len() != "border-width"@.len());
    assert("border-radius"@.len() != "border-color"@.len());
}

/// A declaration of `overflow`, `font-family`, `font-size`, `font-weight`, `line-height`, `text-align`, `text-overflow`, `white-space`, `object-fit`, `object-position` is read by that property's value parser and
/// sets that property.
pub proof fn law_declared_property_3(s: Seq<char>, p0: int, p1: int, v0: int, v1: int)
    requires
        0 <= p0 <= p1 <= s.len(),
        0 <= v0 <= v1 <= s.len(),
    ensures
        s.subrange(p0, p1) == "overflow"@ ==> spec_parse_assignment(s, p0, p1, v0, v1) == match spec_parse_overflow(s, v0, v1) {
            Ok(x) => Ok::<SpecAssignment, SpecStyleError>(SpecAssignment::Overflow(x)),
            Err(e) => Err(e),
        },
        s.subrange(p0, p1) == "font-family"@ ==> spec_parse_assignment(s, p0, p1, v0, v1) == match spec_parse_font_family(s, v0, v1) {
            Ok(x) => Ok::<SpecAssignment, SpecStyleError>(SpecAssignment::FontFamily(x)),
            Err(e) => Err(e),
        },
        s.subrange(p0, p1) == "font-size"@ ==> spec_parse_assignment(s, p0, p1, v0, v1) == match spec_positive_px(s, v0, v1, "font-size"@) {
            Ok(x) => Ok::<SpecAssignment, SpecStyleError>(SpecAssignment::FontSize(x)),
            Err(e) => Err(e),
        },
        s.subrange(p0, p1) == "font-weight"@ ==> spec_parse_assignment(s, p0, p1, v0, v1) == match spec_parse_font_weight(s, v0, v1) {
            Ok(x) => Ok::<SpecAssignment, SpecStyleError>(SpecAssignment::FontWeight(x)),
            Err(e) => Err(e),
        },
        s.subrange(p0, p1) == "line-height"@ ==> spec_parse_assignment(s, p0, p1, v0, v1) == match spec_positive_number(s, v0, v1, "line-height"@) {
            Ok(x) => Ok::<SpecAssignment, SpecStyleError>(SpecAssignment::LineHeight(x)),
            Err(e) => Err(e),
        },
        s.subrange(p0, p1) == "text-align"@ ==> spec_parse_assignment(s, p0, p1, v0, v1) == match spec_parse_text_align(s, v0, v1) {
            Ok(x) => Ok::<SpecAssignment, SpecStyleError>(SpecAssignment::TextAlign(x)),
            Err(e) => Err(e),
        },
        s.subrange(p0, p1) == "text-overflow"@ ==> spec_parse_assignment(s, p0, p1, v0, v1) == match spec_parse_text_overflow(s, v0, v1) {
            Ok(x) => Ok::<SpecAssignment, SpecStyleError>(SpecAssignment::TextOverflow(x)),
            Err(e) => Err(e),
        },
        s.subrange(p0, p1) == "white-space"@ ==> spec_parse_assignment(s, p0, p1, v0, v1) == match spec_parse_white_space(s, v0, v1) {
            Ok(x) => Ok::<SpecAssignment, SpecStyleError>(SpecAssignment::WhiteSpace(x)),
            Err(e) => Err(e),
        },
        s.subrange(p0, p1) == "object-fit"@ ==> spec_parse_assignment(s, p0, p1, v0, v1) == match spec_parse_object_fit(s, v0, v1) {
            Ok(x) => Ok::<SpecAssignment, SpecStyleError>(SpecAssignment::ObjectFit(x)),
            Err(e) => Err(e),
        },
        s.subrange(p0, p1) == "object-position"@ ==> spec_parse_assignment(s, p0, p1, v0, v1) == match spec_parse_object_position(s, v0, v1) {
            Ok(x) => Ok::<SpecAssignment, SpecStyleError>(SpecAssignment::ObjectPosition(x)),
            Err(e) => Err(e),
        },
{
    reveal_strlit("display");
    reveal_strlit("flex-direction");
    reveal_strlit("flex-grow");
    reveal_strlit("flex-shrink");
    reveal_strlit("width");
    reveal_strlit("height");
    reveal_strlit("min-width");
    reveal_strlit("min-height");
    reveal_strlit("max-width");
    reveal_strlit("max-height");
    reveal_strlit("gap");
    reveal_strlit("margin");
    reveal_strlit("padding");
    reveal_strlit("align-items");
    reveal_strlit("align-self");
    reveal_strlit("justify-content");
    reveal_strlit("color");
    reveal_strlit("background-color");
    reveal_strlit("opacity");
    reveal_strlit("border-width");
    reveal_strlit("border-color");
    reveal_strlit("border-radius");
    reveal_strlit("overflow");
    reveal_strlit("font-family");
    reveal_strlit("font-size");
    reveal_strlit("font-weight");
    reveal_strlit("line-height");
    reveal_strlit("text-align");
    reveal_strlit("text-overflow");
    reveal_strlit("white-space");
    reveal_strlit("object-fit");
    reveal_strlit("object-position");
    assert("overflow"@.len() != "display"@.len());
    assert("overflow"@.len() != "flex-direction"@.len());
    assert("overflow"@.len() != "flex-grow"@.len());
    assert("overflow"@.len() != "flex-shrink"@.len());
    assert("overflow"@.len() != "width"@.len());
    assert("overflow"@.len() != "height"@.len());
    assert("overflow"@.len() != "min-width"@.len());
    assert("overflow"@.len() != "min-height"@.len());
    assert("overflow"@.len() != "max-width"@.len());
    assert("overflow"@.len() != "max-height"@.len());
    assert("overflow"@.len() != "gap"@.len());
    assert("overflow"@.len() != "margin"@.len());
    assert("overflow"@.len() != "padding"@.len());
    assert("overflow"@.len() != "align-items"@.len());
    assert("overflow"@.len() != "align-self"@.len());
    assert("overflow"@.len() != "justify-content"@.len());
    assert("overflow"@.len() != "color"@.len());
    assert("overflow"@.len() != "background-color"@.len());
    assert("overflow"@.len() != "opacity"@.len());
    assert("overflow"@.len() != "border-width"@.len());
    assert("overflow"@.len() != "border-color"@.len());
    assert("overflow"@.len() != "border-radius"@.len());
    assert("font-family"@.len() != "display"@.len());
    assert("font-family"@.len() != "flex-direction"@.len());
    assert("font-family"@.len() != "flex-grow"@.len());
    assert("font-family"@[1] != "flex-shrink"@[1]);
    assert("font-family"@.len() != "width"@.len());
    assert("font-family"@.len() != "height"@.len());
    assert("font-family"@.len() != "min-width"@.len());
    assert("font-family"@.len() != "min-height"@.len());
    assert("font-family"@.len() != "max-width"@.len());
    assert("font-family"@.len() != "max-height"@.len());
    assert("font-family"@.len() != "gap"@.len());
    assert("font-family"@.len() != "margin"@.len());
    assert("font-family"@.len() != "padding"@.len());
    assert("font-family"@[0] != "align-items"@[0]);
    assert("font-family"@.len() != "align-self"@.len());
    assert("font-family"@.len() != "justify-content"@.len());
    assert("font-family"@.len() != "color"@.len());
    assert("font-family"@.len() != "background-color"@.len());
    assert("font-family"@.len() != "opacity"@.len());
    assert("font-family"@.len() != "border-width"@.len());
    assert("font-family"@.len() != "border-color"@.len());
    assert("font-family"@.len() != "border-radius"@.len());
    assert("font-family"@.len() != "overflow"@.len());
    assert("font-size"@.len() != "display"@.len());
    assert("font-size"@.len() != "flex-direction"@.len());
    assert("font-size"@[1] != "flex-grow"@[1]);
    assert("font-size"@.len() != "flex-shrink"@.len());
    assert("font-size"@.len() != "width"@.len());
    assert("font-size"@.len() != "height"@.len());
    assert("font-size"@[0] != "min-width"@[0]);
    assert("font-size"@.len() != "min-height"@.len());
    assert("font-size"@[0] != "max-width"@[0]);
    assert("font-size"@.len() != "max-height"@.len());
    assert("font-size"@.len() != "gap"@.len());
    assert("font-size"@.len() != "margin"@.len());
    assert("font-size"@.len() != "padding"@.len());
    assert("font-size"@.len() != "align-items"@.len());
    assert("font-size"@.len() != "align-self"@.len());
    assert("font-size"@.len() != "justify-content"@.len());
    assert("font-size"@.len() != "color"@.len());
    assert("font-size"@.len() != "background-color"@.len());
    assert("font-size"@.len() != "opacity"@.len());
    assert("font-size"@.len() != "border-width"@.len());
    assert("font-size"@.len() != "border-color"@.len());
    assert("font-size"@.len() != "border-radius"@.len());
    assert("font-size"@.len() != "overflow"@.len());
    assert("font-size"@.len() != "font-family"@.len());
    assert("font-weight"@.len() != "display"@.len());
    assert("font-weight"@.len() != "flex-direction"@.len());
    assert("font-weight"@.len() != "flex-grow"@.len());
    assert("font-weight"@[1] != "flex-shrink"@[1]);
    assert("font-weight"@.len() != "width"@.len());
    assert("font-weight"@.len() != "height"@.len());
    assert("font-weight"@.len() != "min-width"@.len());
    assert("font-weight"@.len() != "min-height"@.len());
    assert("font-weight"@.len() != "max-width"@.len());
    assert("font-weight"@.len() != "max-height"@.len());
    assert("font-weight"@.len() != "gap"@.len());
    assert("font-weight"@.len() != "margin"@.len());
    assert("font-weight"@.len() != "padding"@.len());
    assert("font-weight"@[0] != "align-items"@[0]);
    assert("font-weight"@.len() != "align-self"@.len());
    assert("font-weight"@.len() != "justify-content"@.len());
    assert("font-weight"@.len() != "color"@.len());
    assert("font-weight"@.len() != "background-color"@.len());
    assert("font-weight"@.len() != "opacity"@.len());
    assert("font-weight"@.len() != "border-width"@.len());
    assert("font-weight"@.len() != "border-color"@.len());
    assert("font-weight"@.len() != "border-radius"@.len());
    assert("font-weight"@.len() != "overflow"@.len());
    assert("font-weight"@[5] != "font-family"@[5]);
    assert("font-weight"@.len() != "font-size"@.len());
    assert("line-height"@.len() != "display"@.len());
    assert("line-height"@.len() != "flex-direction"@.len());
    assert("line-height"@.len() != "flex-grow"@.len());
    assert("line-height"@[0] != "flex-shrink"@[0]);
    assert("line-height"@.len() != "width"@.len());
    assert("line-height"@.len() != "height"@.len());
    assert("line-height"@.len() != "min-width"@.len());
    assert("line-height"@.len() != "min-height"@.len());
    assert("line-height"@.len() != "max-width"@.len());
    assert("line-height"@.len() != "max-height"@.len());
    assert("line-height"@.len() != "gap"@.len());
    assert("line-height"@.len() != "margin"@.len());
    assert("line-height"@.len() != "padding"@.len());
    assert("line-height"@[0] != "align-items"@[0]);
    assert("line-height"@.len() != "align-self"@.len());
    assert("line-height"@.len() != "justify-content"@.len());
    assert("line-height"@.len() != "color"@.len());
    assert("line-height"@.len() != "background-color"@.len());
    assert("line-height"@.len() != "opacity"@.len());
    assert("line-height"@.len() != "border-width"@.len());
    assert("line-height"@.len() != "border-color"@.len());
    assert("line-height"@.len() != "border-radius"@.len());
    assert("line-height"@.len() != "overflow"@.len());
    assert("line-height"@[0] != "font-family"@[0]);
    assert("line-height"@.len() != "font-size"@.len());
    assert("line-height"@[0] != "font-weight"@[0]);
    assert("text-align"@.len() != "display"@.len());
    assert("text-align"@.len() != "flex-direction"@.len());
    assert("text-align"@.len() != "flex-grow"@.len());
    assert("text-align"@.len() != "flex-shrink"@.len());
    assert("text-align"@.len() != "width"@.len());
    assert("text-align"@.len() != "height"@.len());
    assert("text-align"@.len() != "min-width"@.len());
    assert("text-align"@[0] != "min-height"@[0]);
    assert("text-align"@.len() != "max-width"@.len());
    assert("text-align"@[0] != "max-height"@[0]);
    assert("text-align"@.len() != "gap"@.len());
    assert("text-align"@.len() != "margin"@.len());
    assert("text-align"@.len() != "padding"@.len());
    assert("text-align"@.len() != "align-items"@.len());
    assert("text-align"@[0] != "align-self"@[0]);
    assert("text-align"@.len() != "justify-content"@.len());
    assert("text-align"@.len() != "color"@.len());
    assert("text-align"@.len() != "background-color"@.len());
    assert("text-align"@.len() != "opacity"@.len());
    assert("text-align"@.len() != "border-width"@.len());
    assert("text-align"@.len() != "border-color"@.len());
    assert("text-align"@.len() != "border-radius"@.len());
    assert("text-align"@.len() != "overflow"@.len());
    assert("text-align"@.len() != "font-family"@.len());
    assert("text-align"@.len() != "font-size"@.len());
    assert("text-align"@.len() != "font-weight"@.len());
    assert("text-align"@.len() != "line-height"@.len());
    assert("text-overflow"@.len() != "display"@.len());
    assert("text-overflow"@.len() != "flex-direction"@.len());
    assert("text-overflow"@.len() != "flex-grow"@.len());
    assert("text-overflow"@.len() != "flex-shrink"@.len());
    assert("text-overflow"@.len() != "width"@.len());
    assert("text-overflow"@.len() != "height"@.len());
    assert("text-overflow"@.len() != "min-width"@.len());
    assert("text-overflow"@.len() != "min-height"@.len());
    assert("text-overflow"@.len() != "max-width"@.len());
    assert("text-overflow"@.len() != "max-height"@.len());
    assert("text-overflow"@.len() != "gap"@.len());
    assert("text-overflow"@.len() != "margin"@.len());
    assert("text-overflow"@.len() != "padding"@.len());
    assert("text-overflow"@.len() != "align-items"@.len());
    assert("text-overflow"@.len() != "align-self"@.len());
    assert("text-overflow"@.len() != "justify-content"@.len());
    assert("text-overflow"@.len() != "color"@.len());
    assert("text-overflow"@.len() != "background-color"@.len());
    assert("text-overflow"@.len() != "opacity"@.len());
    assert("text-overflow"@.len() != "border-width"@.len());
    assert("text-overflow"@.len() != "border-color"@.len());
    assert("text-overflow"@[0] != "border-radius"@[0]);
    assert("text-overflow"@.len() != "overflow"@.len());
    assert("text-overflow"@.len() != "font-family"@.len());
    assert("text-overflow"@.len() != "font-size"@.len());
    assert("text-overflow"@.len() != "font-weight"@.len());
    assert("text-overflow"@.len() != "line-height"@.len());
    assert("text-overflow"@.len() != "text-align"@.len());
    assert("white-space"@.len() != "display"@.len());
    assert("white-space"@.len() != "flex-direction"@.len());
    assert("white-space"@.len() != "flex-grow"@.len());
    assert("white-space"@[0] != "flex-shrink"@[0]);
    assert("white-space"@.len() != "width"@.len());
    assert("white-space"@.len() != "height"@.len());
    assert("white-space"@.len() != "min-width"@.len());
    assert("white-space"@.len() != "min-height"@.len());
    assert("white-space"@.len() != "max-width"@.len());
    assert("white-space"@.len() != "max-height"@.len());
    assert("white-space"@.len() != "gap"@.len());
    assert("white-space"@.len() != "margin"@.len());
    assert("white-space"@.len() != "padding"@.len());
    assert("white-space"@[0] != "align-items"@[0]);
    assert("white-space"@.len() != "align-self"@.len());
    assert("white-space"@.len() != "justify-content"@.len());
    assert("white-space"@.len() != "color"@.len());
    assert("white-space"@.len() != "background-color"@.len());
    assert("white-space"@.len() != "opacity"@.len());
    assert("white-space"@.len() != "border-width"@.len());
    assert("white-space"@.len() != "border-color"@.len());
    assert("white-space"@.len() != "border-radius"@.len());
    assert("white-space"@.len() != "overflow"@.len());
    assert("white-space"@[0] != "font-family"@[0]);
    assert("white-space"@.len() != "font-size"@.len());
    assert("white-space"@[0] != "font-weight"@[0]);
    assert("white-space"@[0] != "line-height"@[0]);
    assert("white-space"@.len() != "text-align"@.len());
    assert("white-space"@.len() != "text-overflow"@.len());
    assert("object-fit"@.len() != "display"@.len());
    assert("object-fit"@.len() != "flex-direction"@.len());
    assert("object-fit"@.len() != "flex-grow"@.len());
    assert("object-fit"@.len() != "flex-shrink"@.len());
    assert("object-fit"@.len() != "width"@.len());
    assert("object-fit"@.len() != "height"@.len());
    assert("object-fit"@.len() != "min-width"@.len());
    assert("object-fit"@[0] != "min-height"@[0]);
    assert("object-fit"@.len() != "max-width"@.len());
    assert("object-fit"@[0] != "max-height"@[0]);
    assert("object-fit"@.len() != "gap"@.len());
    assert("object-fit"@.len() != "margin"@.len());
    assert("object-fit"@.len() != "padding"@.len());
    assert("object-fit"@.len() != "align-items"@.len());
    assert("object-fit"@[0] != "align-self"@[0]);
    assert("object-fit"@.len() != "justify-content"@.len());
    assert("object-fit"@.len() != "color"@.len());
    assert("object-fit"@.len() != "background-color"@.len());
    assert("object-fit"@.len() != "opacity"@.len());
    assert("object-fit"@.len() != "border-width"@.len());
    assert("object-fit"@.len() != "border-color"@.len());
    assert("object-fit"@.len() != "border-radius"@.len());
    assert("object-fit"@.len() != "overflow"@.len());
    assert("object-fit"@.len() != "font-family"@.len());
    assert("object-fit"@.len() != "font-size"@.len());
    assert("object-fit"@.len() != "font-weight"@.len());
    assert("object-fit"@.len() != "line-height"@.len());
    assert("object-fit"@[0] != "text-align"@[0]);
    assert("object-fit"@.len() != "text-overflow"@.len());
    assert("object-fit"@.len() != "white-space"@.len());
    assert("object-position"@.len() != "display"@.len());
    assert("object-position"@.len() != "flex-direction"@.len());
    assert("object-position"@.len() != "flex-grow"@.len());
    assert("object-position"@.len() != "flex-shrink"@.len());
    assert("object-position"@.len() != "width"@.len());
    assert("object-position"@.len() != "height"@.len());
    assert("object-position"@.len() != "min-width"@.len());
    assert("object-position"@.len() != "min-height"@.len());
    assert("object-position"@.len() != "max-width"@.len());
    assert("object-position"@.len() != "max-height"@.len());
    assert("object-position"@.len() != "gap"@.len());
    assert("object-position"@.len() != "margin"@.len());
    assert("object-position"@.len() != "padding"@.len());
    assert("object-position"@.len() != "align-items"@.len());
    assert("object-position"@.len() != "align-self"@.len());
    assert("object-position"@[0] != "justify-content"@[0]);
    assert("object-position"@.len() != "color"@.len());
    assert("object-position"@.len() != "background-color"@.len());
    assert("object-position"@.len() != "opacity"@.len());
    assert("object-position"@.len() != "border-width"@.len());
    assert("object-position"@.len() != "border-color"@.len());
    assert("object-position"@.len() != "border-radius"@.len());
    assert("object-position"@.len() != "overflow"@.len());
    assert("object-position"@.len() != "font-family"@.len());
    assert("object-position"@.len() != "font-size"@.len());
    assert("object-position"@.len() != "font-weight"@.len());
    assert("object-position"@.len() != "line-height"@.len());
    assert("object-position"@.len() != "text-align"@.len());
    assert("object-position"@.len() != "text-overflow"@.len());
    assert("object-position"@.len() != "white-space"@.len());
    assert("object-position"@.len() != "object-fit"@.len());
}

/// A declaration sets its own property of the computed style: applying
/// declarations in which one property was assigned gives that property the
/// value assigned (part 1 of the properties).
pub proof fn law_declaration_sets_its_property_1(d: SpecDeclarations, st: SpecComputedStyle)
    ensures
        forall|v: Display| #[trigger] spec_apply(spec_assign(d, SpecAssignment::Display(v)), st).display == v,
        forall|v: FlexDirectionStyle| #[trigger] spec_apply(spec_assign(d, SpecAssignment::FlexDirection(v)), st).flex_direction == v,
        forall|v: SpecDecimal| #[trigger] spec_apply(spec_assign(d, SpecAssignment::FlexGrow(v)), st).flex_grow == v,
        forall|v: SpecDecimal| #[trigger] spec_apply(spec_assign(d, SpecAssignment::FlexShrink(v)), st).flex_shrink == v,
        forall|v: SpecLength| #[trigger] spec_apply(spec_assign(d, SpecAssignment::Width(v)), st).width == v,
        forall|v: SpecLength| #[trigger] spec_apply(spec_assign(d, SpecAssignment::Height(v)), st).height == v,
        forall|v: SpecLength| #[trigger] spec_apply(spec_assign(d, SpecAssignment::MinWidth(v)), st).min_width == v,
        forall|v: SpecLength| #[trigger] spec_apply(spec_assign(d, SpecAssignment::MinHeight(v)), st).min_height == v,
{
}

/// A declaration sets its own property of the computed style: applying
/// declarations in which one property was assigned gives that property the
/// value assigned (part 2 of the properties).
pub proof fn law_declaration_sets_its_property_2(d: SpecDeclarations, st: SpecComputedStyle)
    ensures
        forall|v: SpecLength| #[trigger] spec_apply(spec_assign(d, SpecAssignment::MaxWidth(v)), st).max_width == v,
        forall|v: SpecLength| #[trigger] spec_apply(spec_assign(d, SpecAssignment::MaxHeight(v)), st).max_height == v,
        forall|v: SpecLength| #[trigger] spec_apply(spec_assign(d, SpecAssignment::Gap(v)), st).gap == v,
        forall|v: SpecEdges| #[trigger] spec_apply(spec_assign(d, SpecAssignment::Margin(v)), st).margin == v,
        forall|v: SpecEdges| #[trigger] spec_apply(spec_assign(d, SpecAssignment::Padding(v)), st).padding == v,
        forall|v: Align| #[trigger] spec_apply(spec_assign(d, SpecAssignment::AlignItems(v)), st).align_items == v,
        forall|v: Align| #[trigger] spec_apply(spec_assign(d, SpecAssignment::AlignSelf(v)), st).align_self == Some(v),
        forall|v: JustifyContent| #[trigger] spec_apply(spec_assign(d, SpecAssignment::JustifyContent(v)), st).justify_content == v,
{
}

/// A declaration sets its own property of the computed style: applying
/// declarations in which one property was assigned gives that property the
/// value assigned (part 3 of the properties).
pub proof fn law_declaration_sets_its_property_3(d: SpecDeclarations, st: SpecComputedStyle)
    ensures
        forall|v: Color| #[trigger] spec_apply(spec_assign(d, SpecAssignment::Color(v)), st).color == v,
        forall|v: Color| #[trigger] spec_apply(spec_assign(d, SpecAssignment::BackgroundColor(v)), st).background_color == v,
        forall|v: SpecDecimal| #[trigger] spec_apply(spec_assign(d, SpecAssignment::Opacity(v)), st).opacity == v,
        forall|v: SpecDecimal| #[trigger] spec_apply(spec_assign(d, SpecAssignment::BorderWidth(v)), st).border_width == v,
        forall|v: Color| #[trigger] spec_apply(spec_assign(d, SpecAssignment::BorderColor(v)), st).border_color == v,
        forall|v: SpecDecimal| #[trigger] spec_apply(spec_assign(d, SpecAssignment::BorderRadius(v)), st).border_radius == v,
        forall|v: Overflow| #[trigger] spec_apply(spec_assign(d, SpecAssignment::Overflow(v)), st).overflow == v,
        forall|v: Seq<char>| #[trigger] spec_apply(spec_assign(d, SpecAssignment::FontFamily(v)), st).font_family == v,
{
}

/// A declaration sets its own property of the computed style: applying
/// declarations in which one property was assigned gives that property the
/// value assigned (part 4 of the properties).
pub proof fn law_declaration_sets_its_property_4(d: SpecDeclarations, st: SpecComputedStyle)
    ensures
        forall|v: SpecDecimal| #[trigger] spec_apply(spec_assign(d, SpecAssignment::FontSize(v)), st).font_size == v,
        forall|v: u16| #[trigger] spec_apply(spec_assign(d, SpecAssignment::FontWeight(v)), st).font_weight == v,
        forall|v: SpecDecimal| #[trigger] spec_apply(spec_assign(d, SpecAssignment::LineHeight(v)), st).line_height == v,
        forall|v: TextAlign| #[trigger] spec_apply(spec_assign(d, SpecAssignment::TextAlign(v)), st).text_align == v,
        forall|v: TextOverflow| #[trigger] spec_apply(spec_assign(d, SpecAssignment::TextOverflow(v)), st).text_overflow == v,
        forall|v: WhiteSpace| #[trigger] spec_apply(spec_assign(d, SpecAssignment::WhiteSpace(v)), st).white_space == v,
        forall|v: ObjectFit| #[trigger] spec_apply(spec_assign(d, SpecAssignment::ObjectFit(v)), st).object_fit == v,
        forall|v: ObjectPosition| #[trigger] spec_apply(spec_assign(d, SpecAssignment::ObjectPosition(v)), st).object_position == v,
{
}


} // verus!
