//! The typed theme that the menu is drawn with, and how CSS rules select
//! and set its properties.
//!
//! Every property not mentioned by the CSS keeps its default value. Sizes
//! are kept as the decimal text the CSS wrote (the renderer reads them as
//! numbers); colors are kept as 8-bit channels when the CSS gave them in
//! hex or by name, and as the function arguments for `rgb()`/`hsl()`.
use vstd::prelude::*;
use crate::text::{join_words, lemma_join_push, eq_fold, str_eq, str_eq_fold, string_of_range, chars_of};
use crate::css::{Tok, TokV, Rule, RuleV, toks_view, rules_view, rules, tokens, tokenize, parse_rules};

verus! {

broadcast use vstd::string::group_string_axioms;

/// The drawn element a rule styles.
#[derive(Clone, Copy, Debug, PartialEq, Eq, Structural)]
pub enum Element {
    Pill,
    Item,
    Stroke,
    Icon,
    Label,
}

/// The interaction state a rule styles.
#[derive(Clone, Copy, Debug, PartialEq, Eq, Structural)]
pub enum State {
    Base,
    Hover,
    Active,
    Selected,
}

#[derive(Clone, Copy, Debug, PartialEq, Eq, Structural)]
pub struct Target {
    pub element: Element,
    pub state: State,
}

/// One argument of a color function: its decimal text and whether it was
/// written as a percentage.
#[derive(Clone, Debug, PartialEq)]
pub struct Component {
    pub text: String,
    pub percent: bool,
}

/// A color as the CSS wrote it.
#[derive(Clone, Debug, PartialEq)]
pub enum Color {
    /// 8-bit red, green, blue, alpha (hex notation, a color name,
    /// `transparent`); the channel value is the byte over 255.
    Rgba8(u8, u8, u8, u8),
    /// `rgb(..)` / `rgba(..)`: all numeric arguments, in order (at least three).
    Rgb(Vec<Component>),
    /// `hsl(..)` / `hsla(..)`: all numeric arguments, in order (at least three).
    Hsl(Vec<Component>),
}

/// A font weight: a keyword's value, or the decimal text of a number.
#[derive(Clone, Debug, PartialEq)]
pub enum FontWeight {
    Fixed(i32),
    Numeric(String),
}

pub enum ColorV {
    Rgba8(u8, u8, u8, u8),
    Rgb(Seq<(Seq<char>, bool)>),
    Hsl(Seq<(Seq<char>, bool)>),
}

pub enum WeightV {
    Fixed(i32),
    Numeric(Seq<char>),
}

pub open spec fn components_view(v: Seq<Component>) -> Seq<(Seq<char>, bool)> {
    v.map_values(|c: Component| (c.text@, c.percent))
}

impl View for Color {
    type V = ColorV;

    open spec fn view(&self) -> ColorV {
        match self {
            Color::Rgba8(r, g, b, a) => ColorV::Rgba8(*r, *g, *b, *a),
            Color::Rgb(v) => ColorV::Rgb(components_view(v@)),
            Color::Hsl(v) => ColorV::Hsl(components_view(v@)),
        }
    }
}

impl View for FontWeight {
    type V = WeightV;

    open spec fn view(&self) -> WeightV {
        match self {
            FontWeight::Fixed(w) => WeightV::Fixed(*w),
            FontWeight::Numeric(s) => WeightV::Numeric(s@),
        }
    }
}

/// Every visual property of the radial menu and its top pill.
#[derive(Clone, Debug, PartialEq)]
pub struct Theme {
    pub pill_bg: Color,
    pub pill_fg: Color,
    pub pill_font: String,
    /// Point size of the pill text (decimal text).
    pub pill_font_size: String,
    pub pill_font_weight: FontWeight,
    pub pill_height: String,
    pub pill_padding_x: String,
    /// Distance from the menu ring to the pill's bottom edge.
    pub pill_offset_y: String,
    pub pill_corner: String,
    /// Horizontal gap between pill modules.
    pub pill_gap: String,
    pub item_default: Color,
    pub item_hover: Color,
    pub item_active: Color,
    pub item_selected: Color,
    pub item_stroke: Color,
    pub item_stroke_width: String,
    pub item_corner: String,
    pub icon_color: Color,
    pub icon_font: String,
    pub icon_font_size: String,
    pub icon_font_weight: FontWeight,
    pub label_color: Color,
    pub label_font: String,
    pub label_font_size: String,
    pub label_font_weight: FontWeight,
    /// False when the CSS hides labels (`.label { display: none; }`).
    pub label_visible: bool,
}

pub struct ThemeV {
    pub pill_bg: ColorV,
    pub pill_fg: ColorV,
    pub pill_font: Seq<char>,
    pub pill_font_size: Seq<char>,
    pub pill_font_weight: WeightV,
    pub pill_height: Seq<char>,
    pub pill_padding_x: Seq<char>,
    pub pill_offset_y: Seq<char>,
    pub pill_corner: Seq<char>,
    pub pill_gap: Seq<char>,
    pub item_default: ColorV,
    pub item_hover: ColorV,
    pub item_active: ColorV,
    pub item_selected: ColorV,
    pub item_stroke: ColorV,
    pub item_stroke_width: Seq<char>,
    pub item_corner: Seq<char>,
    pub icon_color: ColorV,
    pub icon_font: Seq<char>,
    pub icon_font_size: Seq<char>,
    pub icon_font_weight: WeightV,
    pub label_color: ColorV,
    pub label_font: Seq<char>,
    pub label_font_size: Seq<char>,
    pub label_font_weight: WeightV,
    pub label_visible: bool,
}

impl View for Theme {
    type V = ThemeV;

    open spec fn view(&self) -> ThemeV {
        ThemeV {
            pill_bg: self.pill_bg@,
            pill_fg: self.pill_fg@,
            pill_font: self.pill_font@,
            pill_font_size: self.pill_font_size@,
            pill_font_weight: self.pill_font_weight@,
            pill_height: self.pill_height@,
            pill_padding_x: self.pill_padding_x@,
            pill_offset_y: self.pill_offset_y@,
            pill_corner: self.pill_corner@,
            pill_gap: self.pill_gap@,
            item_default: self.item_default@,
            item_hover: self.item_hover@,
            item_active: self.item_active@,
            item_selected: self.item_selected@,
            item_stroke: self.item_stroke@,
            item_stroke_width: self.item_stroke_width@,
            item_corner: self.item_corner@,
            icon_color: self.icon_color@,
            icon_font: self.icon_font@,
            icon_font_size: self.icon_font_size@,
            icon_font_weight: self.icon_font_weight@,
            label_color: self.label_color@,
            label_font: self.label_font@,
            label_font_size: self.label_font_size@,
            label_font_weight: self.label_font_weight@,
            label_visible: self.label_visible,
        }
    }
}

// ---------------------------------------------------------------------
// Selectors
// ---------------------------------------------------------------------

/// `name` is a class of the selector: `#name`, or `.name`.
pub open spec fn has_class(sel: Seq<TokV>, name: Seq<char>) -> bool {
    exists|k: int|
        0 <= k < sel.len() && (#[trigger] sel[k] == TokV::Hash(name) || (sel[k] == TokV::Ident(
            name) && k > 0 && sel[k - 1] is Dot))
}

/// `name` is a pseudo-class of the selector: `:name`.
pub open spec fn has_pseudo(sel: Seq<TokV>, name: Seq<char>) -> bool {
    exists|k: int| 0 < k < sel.len() && #[trigger] sel[k] == TokV::Ident(name) && sel[k - 1] is Colon
}

/// The element and state a selector styles, if it names one of the menu's
/// classes. The more specific class wins: `item-stroke`, then `pill`,
/// `icon`, `label`, `item`. Other selectors (`window`, `body`, ...) select
/// nothing here.
pub open spec fn selector_target(sel: Seq<TokV>) -> Option<Target> {
    let element = if has_class(sel, "item-stroke"@) {
        Some(Element::Stroke)
    } else if has_class(sel, "pill"@) {
        Some(Element::Pill)
    } else if has_class(sel, "icon"@) {
        Some(Element::Icon)
    } else if has_class(sel, "label"@) {
        Some(Element::Label)
    } else if has_class(sel, "item"@) {
        Some(Element::Item)
    } else {
        None
    };
    let state = if has_pseudo(sel, "hover"@) || has_pseudo(sel, "focus"@) {
        State::Hover
    } else if has_pseudo(sel, "active"@) {
        State::Active
    } else if has_pseudo(sel, "selected"@) {
        State::Selected
    } else {
        State::Base
    };
    match element {
        Some(e) => Some(Target { element: e, state }),
        None => None,
    }
}

// ---------------------------------------------------------------------
// Values
// ---------------------------------------------------------------------

/// Decimal text of the first numeric token from `i` on.
pub open spec fn number_from(v: Seq<TokV>, i: int) -> Option<Seq<char>>
    decreases v.len() - i,
{
    if i < 0 || i >= v.len() {
        None
    } else {
        match v[i] {
            TokV::Number(x) => Some(x),
            TokV::Dimension(x, _) => Some(x),
            TokV::Percentage(x) => Some(x),
            _ => number_from(v, i + 1),
        }
    }
}

/// Decimal text of a declaration's first numeric value (px, pt, em and
/// bare numbers alike).
pub open spec fn number_value(v: Seq<TokV>) -> Option<Seq<char>> {
    number_from(v, 0)
}

/// The first font family from `i` on, given the unquoted words read so far.
pub open spec fn family_from(v: Seq<TokV>, i: int, words: Seq<Seq<char>>) -> Option<Seq<char>>
    decreases v.len() - i,
{
    if i < 0 || i >= v.len() || v[i] is Comma || v[i] is Number || v[i] is Dimension
        || v[i] is Percentage {
        if words.len() > 0 {
            Some(join_words(words))
        } else {
            None
        }
    } else {
        match v[i] {
            TokV::Str(s) => Some(s),
            TokV::Ident(s) => family_from(v, i + 1, words.push(s)),
            _ => family_from(v, i + 1, words),
        }
    }
}

/// First font family of a declaration: a quoted string verbatim, or the
/// unquoted words up to the next comma (or number) joined by spaces.
pub open spec fn family_value(v: Seq<TokV>) -> Option<Seq<char>> {
    family_from(v, 0, Seq::empty())
}

/// The weight a keyword stands for, in any letter case.
pub open spec fn weight_keyword(s: Seq<char>) -> Option<i32> {
    if eq_fold(s, "normal"@) {
        Some(400)
    } else if eq_fold(s, "bold"@) {
        Some(700)
    } else if eq_fold(s, "bolder"@) {
        Some(800)
    } else if eq_fold(s, "lighter"@) {
        Some(300)
    } else {
        None
    }
}

pub open spec fn weight_from(v: Seq<TokV>, i: int) -> Option<WeightV>
    decreases v.len() - i,
{
    if i < 0 || i >= v.len() {
        None
    } else {
        match v[i] {
            TokV::Number(x) => Some(WeightV::Numeric(x)),
            TokV::Ident(s) => match weight_keyword(s) {
                Some(w) => Some(WeightV::Fixed(w)),
                None => weight_from(v, i + 1),
            },
            _ => weight_from(v, i + 1),
        }
    }
}

/// Font weight of a declaration: the first bare number or weight keyword.
pub open spec fn weight_value(v: Seq<TokV>) -> Option<WeightV> {
    weight_from(v, 0)
}

/// The declaration says `none` (in any letter case).
pub open spec fn says_none(v: Seq<TokV>) -> bool {
    exists|k: int| 0 <= k < v.len() && (#[trigger] v[k]) is Ident && eq_fold(v[k]->Ident_0, "none"@)
}

/// Value of a hex digit.
pub open spec fn hex_value(c: char) -> Option<u8> {
    if '0' <= c && c <= '9' {
        Some((c as u32 - '0' as u32) as u8)
    } else if 'a' <= c && c <= 'f' {
        Some((c as u32 - 'a' as u32 + 10) as u8)
    } else if 'A' <= c && c <= 'F' {
        Some((c as u32 - 'A' as u32 + 10) as u8)
    } else {
        None
    }
}

pub open spec fn all_hex(h: Seq<char>) -> bool {
    forall|k: int| 0 <= k < h.len() ==> (#[trigger] hex_value(h[k])) is Some
}

/// A one-digit channel: the digit repeated (`f` is `ff`).
pub open spec fn short_channel(h: Seq<char>, k: int) -> u8 {
    (hex_value(h[k])->0 * 17) as u8
}

/// A two-digit channel.
pub open spec fn long_channel(h: Seq<char>, k: int) -> u8 {
    (hex_value(h[k])->0 * 16 + hex_value(h[k + 1])->0) as u8
}

/// A hex color of 3, 4, 6 or 8 digits (`rgb`, `rgba`, `rrggbb`,
/// `rrggbbaa`), as 8-bit channels; alpha is opaque when not given.
pub open spec fn hex_color(h: Seq<char>) -> Option<(u8, u8, u8, u8)> {
    if !all_hex(h) {
        None
    } else if h.len() == 3 {
        Some((short_channel(h, 0), short_channel(h, 1), short_channel(h, 2), 255))
    } else if h.len() == 4 {
        Some((short_channel(h, 0), short_channel(h, 1), short_channel(h, 2), short_channel(h, 3)))
    } else if h.len() == 6 {
        Some((long_channel(h, 0), long_channel(h, 2), long_channel(h, 4), 255))
    } else if h.len() == 8 {
        Some((long_channel(h, 0), long_channel(h, 2), long_channel(h, 4), long_channel(h, 6)))
    } else {
        None
    }
}

/// An ASCII hex digit, in either letter case.
pub open spec fn hex_char(c: char) -> bool {
    ('0' <= c && c <= '9') || ('a' <= c && c <= 'f') || ('A' <= c && c <= 'F')
}

/// The number an ASCII hex digit stands for: `0`..`9`, then `a`/`A`..`f`/`F`
/// for 10..15.
pub open spec fn hex_number(c: char) -> int {
    if c <= '9' {
        c as int - '0' as int
    } else if c <= 'F' {
        c as int - 'A' as int + 10
    } else {
        c as int - 'a' as int + 10
    }
}

/// A hex color text parses exactly when it has 3, 4, 6 or 8 characters,
/// each an ASCII hex digit in either letter case; its channels are the
/// base-16 numbers its digits write (a one-digit channel `x` reads as `xx`,
/// a missing alpha as opaque).
pub proof fn lemma_hex_colors(h: Seq<char>)
    ensures
        hex_color(h) is Some <==> ((h.len() == 3 || h.len() == 4 || h.len() == 6 || h.len() == 8)
            && forall|k: int| 0 <= k < h.len() ==> hex_char(#[trigger] h[k])),
        (forall|k: int| 0 <= k < h.len() ==> hex_char(#[trigger] h[k])) ==> {
            &&& h.len() == 3 ==> hex_color(h) == Some((
                (17 * hex_number(h[0])) as u8,
                (17 * hex_number(h[1])) as u8,
                (17 * hex_number(h[2])) as u8,
                255u8,
            ))
            &&& h.len() == 4 ==> hex_color(h) == Some((
                (17 * hex_number(h[0])) as u8,
                (17 * hex_number(h[1])) as u8,
                (17 * hex_number(h[2])) as u8,
                (17 * hex_number(h[3])) as u8,
            ))
            &&& h.len() == 6 ==> hex_color(h) == Some((
                (16 * hex_number(h[0]) + hex_number(h[1])) as u8,
                (16 * hex_number(h[2]) + hex_number(h[3])) as u8,
                (16 * hex_number(h[4]) + hex_number(h[5])) as u8,
                255u8,
            ))
            &&& h.len() == 8 ==> hex_color(h) == Some((
                (16 * hex_number(h[0]) + hex_number(h[1])) as u8,
                (16 * hex_number(h[2]) + hex_number(h[3])) as u8,
                (16 * hex_number(h[4]) + hex_number(h[5])) as u8,
                (16 * hex_number(h[6]) + hex_number(h[7])) as u8,
            ))
        },
{
    assert forall|k: int| 0 <= k < h.len() implies (hex_value(#[trigger] h[k]) is Some <==> hex_char(h[k]))
        && (hex_char(h[k]) ==> hex_value(h[k]) == Some(hex_number(h[k]) as u8) && 0 <= hex_number(h[k]) < 16) by {
    }
    if all_hex(h) {
        assert(forall|k: int| 0 <= k < h.len() ==> hex_char(#[trigger] h[k]));
    }
    if forall|k: int| 0 <= k < h.len() ==> hex_char(#[trigger] h[k]) {
        assert(all_hex(h));
    }
}

/// The CSS color names the theme knows, in any letter case.
pub open spec fn named_rgb(n: Seq<char>) -> Option<(u8, u8, u8)> {
    if eq_fold(n, "black"@) {
        Some((0, 0, 0))
    } else if eq_fold(n, "white"@) {
        Some((255, 255, 255))
    } else if eq_fold(n, "red"@) {
        Some((255, 0, 0))
    } else if eq_fold(n, "green"@) {
        Some((0, 128, 0))
    } else if eq_fold(n, "blue"@) {
        Some((0, 0, 255))
    } else if eq_fold(n, "yellow"@) {
        Some((255, 255, 0))
    } else if eq_fold(n, "cyan"@) || eq_fold(n, "aqua"@) {
        Some((0, 255, 255))
    } else if eq_fold(n, "magenta"@) || eq_fold(n, "fuchsia"@) {
        Some((255, 0, 255))
    } else if eq_fold(n, "orange"@) {
        Some((255, 165, 0))
    } else if eq_fold(n, "purple"@) {
        Some((128, 0, 128))
    } else if eq_fold(n, "pink"@) {
        Some((255, 192, 203))
    } else if eq_fold(n, "gray"@) || eq_fold(n, "grey"@) {
        Some((128, 128, 128))
    } else if eq_fold(n, "brown"@) {
        Some((165, 42, 42))
    } else if eq_fold(n, "lime"@) {
        Some((0, 255, 0))
    } else if eq_fold(n, "olive"@) {
        Some((128, 128, 0))
    } else if eq_fold(n, "navy"@) {
        Some((0, 0, 128))
    } else if eq_fold(n, "teal"@) {
        Some((0, 128, 128))
    } else if eq_fold(n, "maroon"@) {
        Some((128, 0, 0))
    } else if eq_fold(n, "silver"@) {
        Some((192, 192, 192))
    } else if eq_fold(n, "gold"@) {
        Some((255, 215, 0))
    } else {
        None
    }
}

/// The numeric arguments from `i` on, each with whether it is a percentage.
pub open spec fn components_from(v: Seq<TokV>, i: int) -> Seq<(Seq<char>, bool)>
    decreases v.len() - i,
{
    if i < 0 || i >= v.len() {
        Seq::empty()
    } else {
        match v[i] {
            TokV::Number(x) => seq![(x, false)] + components_from(v, i + 1),
            TokV::Dimension(x, _) => seq![(x, false)] + components_from(v, i + 1),
            TokV::Percentage(x) => seq![(x, true)] + components_from(v, i + 1),
            _ => components_from(v, i + 1),
        }
    }
}

/// The color a declaration's tokens name from `i` on: the first hex token,
/// known color name, `transparent`, or color function decides it.
pub open spec fn color_from(v: Seq<TokV>, i: int) -> Option<ColorV>
    decreases v.len() - i,
{
    if i < 0 || i >= v.len() {
        None
    } else {
        match v[i] {
            TokV::Hash(h) => match hex_color(h) {
                Some(c) => Some(ColorV::Rgba8(c.0, c.1, c.2, c.3)),
                None => None,
            },
            TokV::Ident(n) => if eq_fold(n, "transparent"@) {
                Some(ColorV::Rgba8(0, 0, 0, 0))
            } else {
                match named_rgb(n) {
                    Some(c) => Some(ColorV::Rgba8(c.0, c.1, c.2, 255)),
                    None => color_from(v, i + 1),
                }
            },
            TokV::Function(n) => {
                let args = components_from(v, 0);
                if (eq_fold(n, "rgb"@) || eq_fold(n, "rgba"@)) && args.len() >= 3 {
                    Some(ColorV::Rgb(args))
                } else if (eq_fold(n, "hsl"@) || eq_fold(n, "hsla"@)) && args.len() >= 3 {
                    Some(ColorV::Hsl(args))
                } else {
                    None
                }
            },
            _ => color_from(v, i + 1),
        }
    }
}

/// The color of a declaration's tokens.
pub open spec fn color_value(v: Seq<TokV>) -> Option<ColorV> {
    color_from(v, 0)
}


// ---------------------------------------------------------------------
// Declarations
// ---------------------------------------------------------------------

/// The theme after one declaration `prop: vals` of a rule that selects
/// `target`. A declaration whose value does not parse for its property, or
/// whose property the element does not have, changes nothing.
pub open spec fn apply_decl(t: ThemeV, target: Target, prop: Seq<char>, vals: Seq<TokV>) -> ThemeV {
    let color = color_value(vals);
    let number = number_value(vals);
    let family = family_value(vals);
    let weight = weight_value(vals);
    match target.element {
        Element::Pill => if prop == "background-color"@ || prop == "background"@ {
            match color {
                Some(c) => ThemeV { pill_bg: c, ..t },
                None => t,
            }
        } else if prop == "color"@ {
            match color {
                Some(c) => ThemeV { pill_fg: c, ..t },
                None => t,
            }
        } else if prop == "font-family"@ {
            match family {
                Some(f) => ThemeV { pill_font: f, ..t },
                None => t,
            }
        } else if prop == "font-size"@ {
            match number {
                Some(n) => ThemeV { pill_font_size: n, ..t },
                None => t,
            }
        } else if prop == "font-weight"@ {
            match weight {
                Some(w) => ThemeV { pill_font_weight: w, ..t },
                None => t,
            }
        } else if prop == "height"@ {
            match number {
                Some(n) => ThemeV { pill_height: n, ..t },
                None => t,
            }
        } else if prop == "padding"@ || prop == "padding-x"@ {
            match number {
                Some(n) => ThemeV { pill_padding_x: n, ..t },
                None => t,
            }
        } else if prop == "margin-top"@ || prop == "offset-y"@ {
            match number {
                Some(n) => ThemeV { pill_offset_y: n, ..t },
                None => t,
            }
        } else if prop == "border-radius"@ {
            match number {
                Some(n) => ThemeV { pill_corner: n, ..t },
                None => t,
            }
        } else if prop == "--module-gap"@ || prop == "gap"@ {
            match number {
                Some(n) => ThemeV { pill_gap: n, ..t },
                None => t,
            }
        } else {
            t
        },
        Element::Item => if prop == "background-color"@ || prop == "background"@ {
            match color {
                Some(c) => match target.state {
                    State::Base => ThemeV { item_default: c, ..t },
                    State::Hover => ThemeV { item_hover: c, ..t },
                    State::Active => ThemeV { item_active: c, ..t },
                    State::Selected => ThemeV { item_selected: c, ..t },
                },
                None => t,
            }
        } else if prop == "border-radius"@ && target.state == State::Base {
            match number {
                Some(n) => ThemeV { item_corner: n, ..t },
                None => t,
            }
        } else {
            t
        },
        Element::Stroke => if prop == "border-color"@ || prop == "color"@ {
            match color {
                Some(c) => ThemeV { item_stroke: c, ..t },
                None => t,
            }
        } else if prop == "border-width"@ {
            match number {
                Some(n) => ThemeV { item_stroke_width: n, ..t },
                None => t,
            }
        } else {
            t
        },
        Element::Icon => if prop == "color"@ {
            match color {
                Some(c) => ThemeV { icon_color: c, ..t },
                None => t,
            }
        } else if prop == "font-family"@ {
            match family {
                Some(f) => ThemeV { icon_font: f, ..t },
                None => t,
            }
        } else if prop == "font-size"@ {
            match number {
                Some(n) => ThemeV { icon_font_size: n, ..t },
                None => t,
            }
        } else if prop == "font-weight"@ {
            match weight {
                Some(w) => ThemeV { icon_font_weight: w, ..t },
                None => t,
            }
        } else {
            t
        },
        Element::Label => if prop == "color"@ {
            match color {
                Some(c) => ThemeV { label_color: c, ..t },
                None => t,
            }
        } else if prop == "font-family"@ {
            match family {
                Some(f) => ThemeV { label_font: f, ..t },
                None => t,
            }
        } else if prop == "font-size"@ {
            match number {
                Some(n) => ThemeV { label_font_size: n, ..t },
                None => t,
            }
        } else if prop == "font-weight"@ {
            match weight {
                Some(w) => ThemeV { label_font_weight: w, ..t },
                None => t,
            }
        } else if prop == "display"@ && says_none(vals) {
            ThemeV { label_visible: false, ..t }
        } else {
            t
        },
    }
}

/// The theme after the first `n` declarations of a rule selecting `target`.
pub open spec fn apply_decls(
    t: ThemeV,
    target: Target,
    d: Seq<(Seq<char>, Seq<TokV>)>,
    n: int,
) -> ThemeV
    decreases n,
{
    if n <= 0 {
        t
    } else {
        apply_decl(apply_decls(t, target, d, n - 1), target, d[n - 1].0, d[n - 1].1)
    }
}

/// The theme after one rule: its declarations in order, when its
/// selector styles one of the menu's elements.
pub open spec fn apply_rule(t: ThemeV, r: RuleV) -> ThemeV {
    match selector_target(r.selectors) {
        Some(target) => apply_decls(t, target, r.decls, r.decls.len() as int),
        None => t,
    }
}

/// The theme after the first `n` rules, in order.
pub open spec fn apply_rules(t: ThemeV, rs: Seq<RuleV>, n: int) -> ThemeV
    decreases n,
{
    if n <= 0 {
        t
    } else {
        apply_rule(apply_rules(t, rs, n - 1), rs[n - 1])
    }
}

/// `t` with the CSS text `css` laid over it.
pub open spec fn merged(t: ThemeV, css: Seq<char>) -> ThemeV {
    let rs = rules(tokens(css));
    apply_rules(t, rs, rs.len() as int)
}


// ---------------------------------------------------------------------
// Executable selector matching and value reading
// ---------------------------------------------------------------------

/// `name` is a class of the selector among its first `n` tokens.
pub open spec fn class_before(sel: Seq<TokV>, name: Seq<char>, n: int) -> bool {
    exists|k: int|
        0 <= k < n && (#[trigger] sel[k] == TokV::Hash(name) || (sel[k] == TokV::Ident(name) && k
            > 0 && sel[k - 1] is Dot))
}

/// `name` is a pseudo-class of the selector among its first `n` tokens.
pub open spec fn pseudo_before(sel: Seq<TokV>, name: Seq<char>, n: int) -> bool {
    exists|k: int| 0 < k < n && #[trigger] sel[k] == TokV::Ident(name) && sel[k - 1] is Colon
}

fn class_at(sel: &Vec<Tok>, k: usize, name: &str) -> (r: bool)
    requires
        k < sel@.len(),
    ensures
        r == (toks_view(sel@)[k as int] == TokV::Hash(name@) || (toks_view(sel@)[k as int]
            == TokV::Ident(name@) && k > 0 && toks_view(sel@)[k - 1] is Dot)),
{
    assert(toks_view(sel@)[k as int] == sel@[k as int]@);
    match &sel[k] {
        Tok::Hash(n) => str_eq(n.as_str(), name),
        Tok::Ident(n) => {
            if k > 0 {
                assert(toks_view(sel@)[k - 1] == sel@[k - 1]@);
                match &sel[k - 1] {
                    Tok::Dot => str_eq(n.as_str(), name),
                    _ => false,
                }
            } else {
                false
            }
        },
        _ => false,
    }
}

fn pseudo_at(sel: &Vec<Tok>, k: usize, name: &str) -> (r: bool)
    requires
        k < sel@.len(),
    ensures
        r == (k > 0 && toks_view(sel@)[k as int] == TokV::Ident(name@) && toks_view(sel@)[k - 1] is Colon),
{
    assert(toks_view(sel@)[k as int] == sel@[k as int]@);
    if k == 0 {
        return false;
    }
    assert(toks_view(sel@)[k - 1] == sel@[k - 1]@);
    match (&sel[k], &sel[k - 1]) {
        (Tok::Ident(n), Tok::Colon) => str_eq(n.as_str(), name),
        _ => false,
    }
}

/// The element and state a selector styles (`None`: not a menu element).
pub fn match_selector(sel: &Vec<Tok>) -> (r: Option<Target>)
    ensures
        r == selector_target(toks_view(sel@)),
{
    let ghost t = toks_view(sel@);
    let mut stroke = false;
    let mut pill = false;
    let mut icon = false;
    let mut label = false;
    let mut item = false;
    let mut hover = false;
    let mut focus = false;
    let mut active = false;
    let mut selected = false;
    let mut i: usize = 0;
    while i < sel.len()
        invariant
            t == toks_view(sel@),
            i <= sel@.len(),
            stroke == class_before(t, "item-stroke"@, i as int),
            pill == class_before(t, "pill"@, i as int),
            icon == class_before(t, "icon"@, i as int),
            label == class_before(t, "label"@, i as int),
            item == class_before(t, "item"@, i as int),
            hover == pseudo_before(t, "hover"@, i as int),
            focus == pseudo_before(t, "focus"@, i as int),
            active == pseudo_before(t, "active"@, i as int),
            selected == pseudo_before(t, "selected"@, i as int),
        decreases sel@.len() - i,
    {
        stroke = stroke || class_at(sel, i, "item-stroke");
        pill = pill || class_at(sel, i, "pill");
        icon = icon || class_at(sel, i, "icon");
        label = label || class_at(sel, i, "label");
        item = item || class_at(sel, i, "item");
        hover = hover || pseudo_at(sel, i, "hover");
        focus = focus || pseudo_at(sel, i, "focus");
        active = active || pseudo_at(sel, i, "active");
        selected = selected || pseudo_at(sel, i, "selected");
        i = i + 1;
    }
    assert(has_class(t, "item-stroke"@) == stroke);
    assert(has_class(t, "pill"@) == pill);
    assert(has_class(t, "icon"@) == icon);
    assert(has_class(t, "label"@) == label);
    assert(has_class(t, "item"@) == item);
    assert(has_pseudo(t, "hover"@) == hover);
    assert(has_pseudo(t, "focus"@) == focus);
    assert(has_pseudo(t, "active"@) == active);
    assert(has_pseudo(t, "selected"@) == selected);
    let element = if stroke {
        Element::Stroke
    } else if pill {
        Element::Pill
    } else if icon {
        Element::Icon
    } else if label {
        Element::Label
    } else if item {
        Element::Item
    } else {
        return None;
    };
    let state = if hover || focus {
        State::Hover
    } else if active {
        State::Active
    } else if selected {
        State::Selected
    } else {
        State::Base
    };
    Some(Target { element, state })
}


/// Decimal text of the first numeric token of a declaration.
pub fn number(vals: &Vec<Tok>) -> (r: Option<String>)
    ensures
        opt_text(r) == number_value(toks_view(vals@)),
{
    let ghost v = toks_view(vals@);
    let mut i: usize = 0;
    while i < vals.len()
        invariant
            v == toks_view(vals@),
            i <= vals@.len(),
            number_from(v, i as int) == number_value(v),
        decreases vals@.len() - i,
    {
        assert(v[i as int] == vals@[i as int]@);
        match &vals[i] {
            Tok::Number(x) => return Some(x.clone()),
            Tok::Dimension(x, _) => return Some(x.clone()),
            Tok::Percentage(x) => return Some(x.clone()),
            _ => {},
        }
        i = i + 1;
    }
    None
}

pub open spec fn opt_text(r: Option<String>) -> Option<Seq<char>> {
    match r {
        Some(s) => Some(s@),
        None => None,
    }
}

fn words_result(joined: &Vec<char>, count: usize) -> (r: Option<String>)
    ensures
        opt_text(r) == if count > 0 {
            Some(joined@)
        } else {
            None::<Seq<char>>
        },
{
    if count > 0 {
        assert(joined@.subrange(0, joined@.len() as int) =~= joined@);
        Some(string_of_range(joined, 0, joined.len()))
    } else {
        None
    }
}

/// First font family of a declaration.
pub fn font_family(vals: &Vec<Tok>) -> (r: Option<String>)
    ensures
        opt_text(r) == family_value(toks_view(vals@)),
{
    let ghost v = toks_view(vals@);
    let ghost mut words: Seq<Seq<char>> = Seq::empty();
    let mut joined: Vec<char> = Vec::new();
    let mut count: usize = 0;
    let mut i: usize = 0;
    while i < vals.len()
        invariant
            v == toks_view(vals@),
            i <= vals@.len(),
            count <= i,
            family_from(v, i as int, words) == family_value(v),
            words.len() == count,
            count > 0 ==> joined@ == join_words(words),
            count == 0 ==> joined@.len() == 0,
        decreases vals@.len() - i,
    {
        assert(v[i as int] == vals@[i as int]@);
        match &vals[i] {
            Tok::Str(s) => return Some(s.clone()),
            Tok::Ident(s) => {
                let mut w = chars_of(s.as_str());
                proof {
                    lemma_join_push(words, s@);
                }
                if count > 0 {
                    joined.push(' ');
                }
                joined.append(&mut w);
                proof {
                    if count > 0 {
                        assert(joined@ =~= join_words(words) + seq![' '] + s@);
                    } else {
                        assert(joined@ =~= s@);
                    }
                    words = words.push(s@);
                }
                count = count + 1;
            },
            Tok::Comma => {
                return words_result(&joined, count);
            },
            Tok::Number(_) => {
                return words_result(&joined, count);
            },
            Tok::Dimension(..) => {
                return words_result(&joined, count);
            },
            Tok::Percentage(_) => {
                return words_result(&joined, count);
            },
            _ => {},
        }
        i = i + 1;
    }
    words_result(&joined, count)
}


pub open spec fn opt_weight_view(r: Option<FontWeight>) -> Option<WeightV> {
    match r {
        Some(w) => Some(w@),
        None => None,
    }
}

fn keyword_weight(s: &str) -> (r: Option<i32>)
    ensures
        r == weight_keyword(s@),
{
    if str_eq_fold(s, "normal") {
        Some(400)
    } else if str_eq_fold(s, "bold") {
        Some(700)
    } else if str_eq_fold(s, "bolder") {
        Some(800)
    } else if str_eq_fold(s, "lighter") {
        Some(300)
    } else {
        None
    }
}

/// Font weight of a declaration: the first bare number or weight keyword.
pub fn weight(vals: &Vec<Tok>) -> (r: Option<FontWeight>)
    ensures
        opt_weight_view(r) == weight_value(toks_view(vals@)),
{
    let ghost v = toks_view(vals@);
    let mut i: usize = 0;
    while i < vals.len()
        invariant
            v == toks_view(vals@),
            i <= vals@.len(),
            weight_from(v, i as int) == weight_value(v),
        decreases vals@.len() - i,
    {
        assert(v[i as int] == vals@[i as int]@);
        match &vals[i] {
            Tok::Number(x) => return Some(FontWeight::Numeric(x.clone())),
            Tok::Ident(s) => match keyword_weight(s.as_str()) {
                Some(w) => return Some(FontWeight::Fixed(w)),
                None => {},
            },
            _ => {},
        }
        i = i + 1;
    }
    None
}

/// The declaration says `none`.
pub fn display_none(vals: &Vec<Tok>) -> (r: bool)
    ensures
        r == says_none(toks_view(vals@)),
{
    let ghost v = toks_view(vals@);
    let mut i: usize = 0;
    while i < vals.len()
        invariant
            v == toks_view(vals@),
            i <= vals@.len(),
            forall|k: int| 0 <= k < i ==> !((#[trigger] v[k]) is Ident && eq_fold(v[k]->Ident_0, "none"@)),
        decreases vals@.len() - i,
    {
        assert(v[i as int] == vals@[i as int]@);
        match &vals[i] {
            Tok::Ident(s) => {
                if str_eq_fold(s.as_str(), "none") {
                    return true;
                }
            },
            _ => {},
        }
        i = i + 1;
    }
    false
}

fn hex_digit(c: char) -> (r: Option<u8>)
    ensures
        r == hex_value(c),
        r matches Some(d) ==> d < 16,
{
    if '0' <= c && c <= '9' {
        Some((c as u32 - '0' as u32) as u8)
    } else if 'a' <= c && c <= 'f' {
        Some((c as u32 - 'a' as u32 + 10) as u8)
    } else if 'A' <= c && c <= 'F' {
        Some((c as u32 - 'A' as u32 + 10) as u8)
    } else {
        None
    }
}

/// A hex color (`fff`, `f008`, `ff0000`, `ff000080`, without the `#`) as
/// 8-bit red, green, blue, alpha; `None` for other lengths or non-hex
/// digits.
pub fn parse_hex(h: &str) -> (r: Option<(u8, u8, u8, u8)>)
    ensures
        r == hex_color(h@),
{
    let cs = chars_of(h);
    let n = cs.len();
    if n != 3 && n != 4 && n != 6 && n != 8 {
        return None;
    }
    let mut d: Vec<u8> = Vec::new();
    let mut i: usize = 0;
    while i < n
        invariant
            cs@ == h@,
            n == cs@.len(),
            i <= n,
            d@.len() == i,
            forall|k: int| 0 <= k < i ==> hex_value(#[trigger] cs@[k]) == Some(d@[k]),
            forall|k: int| 0 <= k < i ==> #[trigger] d@[k] < 16,
        decreases n - i,
    {
        match hex_digit(cs[i]) {
            Some(x) => d.push(x),
            None => {
                assert(!all_hex(h@)) by {
                    assert(hex_value(h@[i as int]) is None);
                }
                return None;
            },
        }
        i = i + 1;
    }
    assert(all_hex(h@));
    if n == 3 {
        Some((d[0] * 17, d[1] * 17, d[2] * 17, 255))
    } else if n == 4 {
        Some((d[0] * 17, d[1] * 17, d[2] * 17, d[3] * 17))
    } else if n == 6 {
        Some((d[0] * 16 + d[1], d[2] * 16 + d[3], d[4] * 16 + d[5], 255))
    } else {
        Some((d[0] * 16 + d[1], d[2] * 16 + d[3], d[4] * 16 + d[5], d[6] * 16 + d[7]))
    }
}

/// A CSS color name (in any letter case) as 8-bit channels, opaque.
pub fn named_color(name: &str) -> (r: Option<(u8, u8, u8, u8)>)
    ensures
        r == (match named_rgb(name@) {
            Some(c) => Some((c.0, c.1, c.2, 255u8)),
            None => None,
        }),
{
    let rgb: (u8, u8, u8) = if str_eq_fold(name, "black") {
        (0, 0, 0)
    } else if str_eq_fold(name, "white") {
        (255, 255, 255)
    } else if str_eq_fold(name, "red") {
        (255, 0, 0)
    } else if str_eq_fold(name, "green") {
        (0, 128, 0)
    } else if str_eq_fold(name, "blue") {
        (0, 0, 255)
    } else if str_eq_fold(name, "yellow") {
        (255, 255, 0)
    } else if str_eq_fold(name, "cyan") || str_eq_fold(name, "aqua") {
        (0, 255, 255)
    } else if str_eq_fold(name, "magenta") || str_eq_fold(name, "fuchsia") {
        (255, 0, 255)
    } else if str_eq_fold(name, "orange") {
        (255, 165, 0)
    } else if str_eq_fold(name, "purple") {
        (128, 0, 128)
    } else if str_eq_fold(name, "pink") {
        (255, 192, 203)
    } else if str_eq_fold(name, "gray") || str_eq_fold(name, "grey") {
        (128, 128, 128)
    } else if str_eq_fold(name, "brown") {
        (165, 42, 42)
    } else if str_eq_fold(name, "lime") {
        (0, 255, 0)
    } else if str_eq_fold(name, "olive") {
        (128, 128, 0)
    } else if str_eq_fold(name, "navy") {
        (0, 0, 128)
    } else if str_eq_fold(name, "teal") {
        (0, 128, 128)
    } else if str_eq_fold(name, "maroon") {
        (128, 0, 0)
    } else if str_eq_fold(name, "silver") {
        (192, 192, 192)
    } else if str_eq_fold(name, "gold") {
        (255, 215, 0)
    } else {
        return None;
    };
    Some((rgb.0, rgb.1, rgb.2, 255))
}

/// Every numeric value of a declaration, with whether it is a percentage.
pub fn value_components(vals: &Vec<Tok>) -> (r: Vec<Component>)
    ensures
        components_view(r@) == components_from(toks_view(vals@), 0),
{
    let ghost v = toks_view(vals@);
    let mut out: Vec<Component> = Vec::new();
    let mut i: usize = 0;
    assert(components_view(out@) =~= Seq::empty());
    while i < vals.len()
        invariant
            v == toks_view(vals@),
            i <= vals@.len(),
            components_view(out@) + components_from(v, i as int) == components_from(v, 0),
        decreases vals@.len() - i,
    {
        assert(v[i as int] == vals@[i as int]@);
        let ghost before = components_view(out@);
        let ghost rest = components_from(v, i + 1);
        let c = match &vals[i] {
            Tok::Number(x) => Some(Component { text: x.clone(), percent: false }),
            Tok::Dimension(x, _) => Some(Component { text: x.clone(), percent: false }),
            Tok::Percentage(x) => Some(Component { text: x.clone(), percent: true }),
            _ => None,
        };
        match c {
            Some(c) => {
                let ghost cv = (c.text@, c.percent);
                out.push(c);
                assert(components_view(out@) =~= before.push(cv));
                assert(before.push(cv) + rest =~= before + (seq![cv] + rest));
            },
            None => {},
        }
        i = i + 1;
    }
    assert(components_view(out@) + Seq::<(Seq<char>, bool)>::empty() =~= components_view(out@));
    out
}

pub open spec fn opt_color_view(r: Option<Color>) -> Option<ColorV> {
    match r {
        Some(c) => Some(c@),
        None => None,
    }
}

/// The color a declaration's tokens give: hex, `rgb()`/`rgba()`,
/// `hsl()`/`hsla()`, a color name, or `transparent`.
pub fn parse_color(vals: &Vec<Tok>) -> (r: Option<Color>)
    ensures
        opt_color_view(r) == color_value(toks_view(vals@)),
{
    let ghost v = toks_view(vals@);
    let mut i: usize = 0;
    while i < vals.len()
        invariant
            v == toks_view(vals@),
            i <= vals@.len(),
            color_from(v, i as int) == color_value(v),
        decreases vals@.len() - i,
    {
        assert(v[i as int] == vals@[i as int]@);
        match &vals[i] {
            Tok::Hash(h) => {
                return match parse_hex(h.as_str()) {
                    Some(c) => Some(Color::Rgba8(c.0, c.1, c.2, c.3)),
                    None => None,
                };
            },
            Tok::Ident(n) => {
                if str_eq_fold(n.as_str(), "transparent") {
                    return Some(Color::Rgba8(0, 0, 0, 0));
                }
                match named_color(n.as_str()) {
                    Some(c) => return Some(Color::Rgba8(c.0, c.1, c.2, c.3)),
                    None => {},
                }
            },
            Tok::Function(n) => {
                let args = value_components(vals);
                if (str_eq_fold(n.as_str(), "rgb") || str_eq_fold(n.as_str(), "rgba")) && args.len()
                    >= 3 {
                    return Some(Color::Rgb(args));
                } else if (str_eq_fold(n.as_str(), "hsl") || str_eq_fold(n.as_str(), "hsla"))
                    && args.len() >= 3 {
                    return Some(Color::Hsl(args));
                } else {
                    return None;
                }
            },
            _ => {},
        }
        i = i + 1;
    }
    None
}


// ---------------------------------------------------------------------
// Defaults
// ---------------------------------------------------------------------

/// Default font family for all menu text (a Nerd Font, for icon glyphs).
pub const DEFAULT_FONT: &'static str = "JetBrainsMono Nerd Font";

/// An `rgba(r, g, b, a)` color of plain 0..1 decimal channels.
pub open spec fn rgba_text(r: Seq<char>, g: Seq<char>, b: Seq<char>, a: Seq<char>) -> ColorV {
    ColorV::Rgb(seq![(r, false), (g, false), (b, false), (a, false)])
}

/// The theme an empty CSS text gives.
pub open spec fn default_theme() -> ThemeV {
    ThemeV {
        pill_bg: rgba_text("0.15"@, "0.15"@, "0.2"@, "0.9"@),
        pill_fg: rgba_text("0.9"@, "0.9"@, "0.95"@, "1.0"@),
        pill_font: DEFAULT_FONT@,
        pill_font_size: "13.0"@,
        pill_font_weight: WeightV::Fixed(700),
        pill_height: "28.0"@,
        pill_padding_x: "14.0"@,
        pill_offset_y: "24.0"@,
        pill_corner: "14.0"@,
        pill_gap: "18.0"@,
        item_default: rgba_text("0.85"@, "0.85"@, "0.88"@, "0.9"@),
        item_hover: rgba_text("0.48"@, "0.63"@, "0.96"@, "0.95"@),
        item_active: rgba_text("0.85"@, "0.85"@, "0.88"@, "0.9"@),
        item_selected: rgba_text("0.88"@, "0.29"@, "0.29"@, "0.95"@),
        item_stroke: rgba_text("0.7"@, "0.7"@, "0.75"@, "1.0"@),
        item_stroke_width: "1.5"@,
        item_corner: "8.0"@,
        icon_color: rgba_text("0.05"@, "0.05"@, "0.1"@, "1.0"@),
        icon_font: DEFAULT_FONT@,
        icon_font_size: "20.0"@,
        icon_font_weight: WeightV::Fixed(700),
        label_color: rgba_text("0.15"@, "0.15"@, "0.2"@, "0.85"@),
        label_font: DEFAULT_FONT@,
        label_font_size: "8.0"@,
        label_font_weight: WeightV::Fixed(700),
        label_visible: true,
    }
}

fn text(s: &str) -> (r: String)
    ensures
        r@ == s@,
{
    s.to_string()
}

fn rgba_color(r: &str, g: &str, b: &str, a: &str) -> (c: Color)
    ensures
        c@ == rgba_text(r@, g@, b@, a@),
{
    let mut v: Vec<Component> = Vec::new();
    v.push(Component { text: text(r), percent: false });
    v.push(Component { text: text(g), percent: false });
    v.push(Component { text: text(b), percent: false });
    v.push(Component { text: text(a), percent: false });
    let c = Color::Rgb(v);
    assert(components_view(v@) =~= seq![(r@, false), (g@, false), (b@, false), (a@, false)]);
    c
}

impl Default for Theme {
    fn default() -> (t: Theme)
        ensures
            t@ == default_theme(),
    {
        Theme {
            pill_bg: rgba_color("0.15", "0.15", "0.2", "0.9"),
            pill_fg: rgba_color("0.9", "0.9", "0.95", "1.0"),
            pill_font: text(DEFAULT_FONT),
            pill_font_size: text("13.0"),
            pill_font_weight: FontWeight::Fixed(700),
            pill_height: text("28.0"),
            pill_padding_x: text("14.0"),
            pill_offset_y: text("24.0"),
            pill_corner: text("14.0"),
            pill_gap: text("18.0"),
            item_default: rgba_color("0.85", "0.85", "0.88", "0.9"),
            item_hover: rgba_color("0.48", "0.63", "0.96", "0.95"),
            item_active: rgba_color("0.85", "0.85", "0.88", "0.9"),
            item_selected: rgba_color("0.88", "0.29", "0.29", "0.95"),
            item_stroke: rgba_color("0.7", "0.7", "0.75", "1.0"),
            item_stroke_width: text("1.5"),
            item_corner: text("8.0"),
            icon_color: rgba_color("0.05", "0.05", "0.1", "1.0"),
            icon_font: text(DEFAULT_FONT),
            icon_font_size: text("20.0"),
            icon_font_weight: FontWeight::Fixed(700),
            label_color: rgba_color("0.15", "0.15", "0.2", "0.85"),
            label_font: text(DEFAULT_FONT),
            label_font_size: text("8.0"),
            label_font_weight: FontWeight::Fixed(700),
            label_visible: true,
        }
    }
}

// ---------------------------------------------------------------------
// Executable declaration application
// ---------------------------------------------------------------------

/// Apply one declaration of a rule that selects `target`.
pub fn apply_declaration(theme: &mut Theme, target: Target, prop: &String, vals: &Vec<Tok>)
    ensures
        final(theme)@ == apply_decl(old(theme)@, target, prop@, toks_view(vals@)),
{
    let p = prop.as_str();
    match target.element {
        Element::Pill => {
            if str_eq(p, "background-color") || str_eq(p, "background") {
                if let Some(c) = parse_color(vals) {
                    theme.pill_bg = c;
                }
            } else if str_eq(p, "color") {
                if let Some(c) = parse_color(vals) {
                    theme.pill_fg = c;
                }
            } else if str_eq(p, "font-family") {
                if let Some(f) = font_family(vals) {
                    theme.pill_font = f;
                }
            } else if str_eq(p, "font-size") {
                if let Some(n) = number(vals) {
                    theme.pill_font_size = n;
                }
            } else if str_eq(p, "font-weight") {
                if let Some(w) = weight(vals) {
                    theme.pill_font_weight = w;
                }
            } else if str_eq(p, "height") {
                if let Some(n) = number(vals) {
                    theme.pill_height = n;
                }
            } else if str_eq(p, "padding") || str_eq(p, "padding-x") {
                if let Some(n) = number(vals) {
                    theme.pill_padding_x = n;
                }
            } else if str_eq(p, "margin-top") || str_eq(p, "offset-y") {
                if let Some(n) = number(vals) {
                    theme.pill_offset_y = n;
                }
            } else if str_eq(p, "border-radius") {
                if let Some(n) = number(vals) {
                    theme.pill_corner = n;
                }
            } else if str_eq(p, "--module-gap") || str_eq(p, "gap") {
                if let Some(n) = number(vals) {
                    theme.pill_gap = n;
                }
            }
        },
        Element::Item => {
            if str_eq(p, "background-color") || str_eq(p, "background") {
                if let Some(c) = parse_color(vals) {
                    match target.state {
                        State::Base => theme.item_default = c,
                        State::Hover => theme.item_hover = c,
                        State::Active => theme.item_active = c,
                        State::Selected => theme.item_selected = c,
                    }
                }
            } else if str_eq(p, "border-radius") && target.state == State::Base {
                if let Some(n) = number(vals) {
                    theme.item_corner = n;
                }
            }
        },
        Element::Stroke => {
            if str_eq(p, "border-color") || str_eq(p, "color") {
                if let Some(c) = parse_color(vals) {
                    theme.item_stroke = c;
                }
            } else if str_eq(p, "border-width") {
                if let Some(n) = number(vals) {
                    theme.item_stroke_width = n;
                }
            }
        },
        Element::Icon => {
            if str_eq(p, "color") {
                if let Some(c) = parse_color(vals) {
                    theme.icon_color = c;
                }
            } else if str_eq(p, "font-family") {
                if let Some(f) = font_family(vals) {
                    theme.icon_font = f;
                }
            } else if str_eq(p, "font-size") {
                if let Some(n) = number(vals) {
                    theme.icon_font_size = n;
                }
            } else if str_eq(p, "font-weight") {
                if let Some(w) = weight(vals) {
                    theme.icon_font_weight = w;
                }
            }
        },
        Element::Label => {
            if str_eq(p, "color") {
                if let Some(c) = parse_color(vals) {
                    theme.label_color = c;
                }
            } else if str_eq(p, "font-family") {
                if let Some(f) = font_family(vals) {
                    theme.label_font = f;
                }
            } else if str_eq(p, "font-size") {
                if let Some(n) = number(vals) {
                    theme.label_font_size = n;
                }
            } else if str_eq(p, "font-weight") {
                if let Some(w) = weight(vals) {
                    theme.label_font_weight = w;
                }
            } else if str_eq(p, "display") && display_none(vals) {
                theme.label_visible = false;
            }
        },
    }
}

// ---------------------------------------------------------------------
// Laws
// ---------------------------------------------------------------------

/// Rules that style none of the menu's elements (such as `window { .. }` or
/// `body { .. }`, which GTK's own CSS engine handles) leave every theme
/// property as it was.
pub proof fn lemma_foreign_rules_change_nothing(t: ThemeV, rs: Seq<RuleV>, n: int)
    requires
        0 <= n <= rs.len(),
        forall|k: int| 0 <= k < rs.len() ==> selector_target(#[trigger] rs[k].selectors) is None,
    ensures
        apply_rules(t, rs, n) == t,
    decreases n,
{
    if n > 0 {
        lemma_foreign_rules_change_nothing(t, rs, n - 1);
        assert(selector_target(rs[n - 1].selectors) is None);
    }
}

/// A CSS text whose rules all style something other than the menu leaves
/// the theme unchanged.
pub proof fn lemma_foreign_css_changes_nothing(t: ThemeV, css: Seq<char>)
    requires
        forall|k: int|
            0 <= k < rules(tokens(css)).len() ==> selector_target(
                #[trigger] rules(tokens(css))[k].selectors,
            ) is None,
    ensures
        merged(t, css) == t,
{
    let rs = rules(tokens(css));
    lemma_foreign_rules_change_nothing(t, rs, rs.len() as int);
}

/// An empty CSS text leaves the theme unchanged; in particular the theme of
/// an empty (or missing) CSS file is the default theme.
pub proof fn lemma_empty_css_changes_nothing(t: ThemeV, css: Seq<char>)
    requires
        css.len() == 0,
    ensures
        merged(t, css) == t,
        merged(default_theme(), css) == default_theme(),
{
    assert(tokens(css) =~= Seq::<TokV>::empty());
    assert(rules(tokens(css)) =~= Seq::<RuleV>::empty());
}

/// The font weight classes text is drawn with.
#[derive(Clone, Copy, Debug, PartialEq, Eq, Structural)]
pub enum WeightClass {
    Thin,
    Ultralight,
    Light,
    Normal,
    Medium,
    Semibold,
    Bold,
    Ultrabold,
    Heavy,
}

/// The weight class of a CSS numeric font weight: the nine hundreds map
/// to their classes, anything else draws bold.
pub open spec fn class_of_weight(w: i32) -> WeightClass {
    if w == 100 {
        WeightClass::Thin
    } else if w == 200 {
        WeightClass::Ultralight
    } else if w == 300 {
        WeightClass::Light
    } else if w == 400 {
        WeightClass::Normal
    } else if w == 500 {
        WeightClass::Medium
    } else if w == 600 {
        WeightClass::Semibold
    } else if w == 800 {
        WeightClass::Ultrabold
    } else if w == 900 {
        WeightClass::Heavy
    } else {
        WeightClass::Bold
    }
}

/// Map a CSS numeric font weight (100..900) onto a weight class.
pub fn weight_class(w: i32) -> (r: WeightClass)
    ensures
        r == class_of_weight(w),
{
    match w {
        100 => WeightClass::Thin,
        200 => WeightClass::Ultralight,
        300 => WeightClass::Light,
        400 => WeightClass::Normal,
        500 => WeightClass::Medium,
        600 => WeightClass::Semibold,
        800 => WeightClass::Ultrabold,
        900 => WeightClass::Heavy,
        _ => WeightClass::Bold,
    }
}

impl Theme {
    /// A theme built from a CSS text: the defaults, with the CSS laid over them.
    pub fn from_css(css: &str) -> (t: Theme)
        ensures
            t@ == merged(default_theme(), css@),
    {
        let mut theme = Theme::default();
        theme.merge_css(css);
        theme
    }

    /// Lay a CSS text over this theme: its rules in order, each rule's
    /// declarations in order; the last declaration of a property wins.
    pub fn merge_css(&mut self, css: &str)
        ensures
            final(self)@ == merged(old(self)@, css@),
    {
        let toks = tokenize(css);
        let rs = parse_rules(&toks);
        let ghost rv = rules_view(rs@);
        assert(rv == rules(tokens(css@)));
        let ghost start = self@;
        let mut i: usize = 0;
        while i < rs.len()
            invariant
                rv == rules_view(rs@),
                i <= rs@.len(),
                self@ == apply_rules(start, rv, i as int),
            decreases rs@.len() - i,
        {
            let rule = &rs[i];
            assert(rv[i as int] == rule@);
            match match_selector(&rule.selectors) {
                Some(target) => {
                    let ghost at_rule = self@;
                    let ghost dv = rule@.decls;
                    let mut k: usize = 0;
                    while k < rule.decls.len()
                        invariant
                            dv == crate::css::decls_view(rule.decls@),
                            k <= rule.decls@.len(),
                            self@ == apply_decls(at_rule, target, dv, k as int),
                        decreases rule.decls@.len() - k,
                    {
                        let d = &rule.decls[k];
                        assert(dv[k as int] == (d.0@, toks_view(d.1@)));
                        apply_declaration(self, target, &d.0, &d.1);
                        k = k + 1;
                    }
                },
                None => {},
            }
            i = i + 1;
        }
    }
}

} // verus!
