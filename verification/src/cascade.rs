//! The theme cascade property by property: what each declaration writes,
//! and the laws that follow (the last declaration that sets a property
//! wins; laying the same stylesheet over a theme twice is laying it once).
use vstd::prelude::*;
use crate::css::{TokV, RuleV, rules, tokens};
use crate::theme::{
    ThemeV, ColorV, WeightV, Target, Element, State, selector_target, apply_decl, apply_decls,
    apply_rule, apply_rules, merged, color_value, number_value, family_value, weight_value,
    says_none,
};

verus! {

/// A property of the theme.
pub enum Field {
    PillBg,
    PillFg,
    PillFont,
    PillFontSize,
    PillFontWeight,
    PillHeight,
    PillPaddingX,
    PillOffsetY,
    PillCorner,
    PillGap,
    ItemDefault,
    ItemHover,
    ItemActive,
    ItemSelected,
    ItemStroke,
    ItemStrokeWidth,
    ItemCorner,
    IconColor,
    IconFont,
    IconFontSize,
    IconFontWeight,
    LabelColor,
    LabelFont,
    LabelFontSize,
    LabelFontWeight,
    LabelVisible,
}

/// The value of a property.
pub enum FieldValue {
    Color(ColorV),
    Text(Seq<char>),
    Weight(WeightV),
    Flag(bool),
}

/// The value property `f` has in `t`.
pub open spec fn field_of(t: ThemeV, f: Field) -> FieldValue {
    match f {
        Field::PillBg => FieldValue::Color(t.pill_bg),
        Field::PillFg => FieldValue::Color(t.pill_fg),
        Field::PillFont => FieldValue::Text(t.pill_font),
        Field::PillFontSize => FieldValue::Text(t.pill_font_size),
        Field::PillFontWeight => FieldValue::Weight(t.pill_font_weight),
        Field::PillHeight => FieldValue::Text(t.pill_height),
        Field::PillPaddingX => FieldValue::Text(t.pill_padding_x),
        Field::PillOffsetY => FieldValue::Text(t.pill_offset_y),
        Field::PillCorner => FieldValue::Text(t.pill_corner),
        Field::PillGap => FieldValue::Text(t.pill_gap),
        Field::ItemDefault => FieldValue::Color(t.item_default),
        Field::ItemHover => FieldValue::Color(t.item_hover),
        Field::ItemActive => FieldValue::Color(t.item_active),
        Field::ItemSelected => FieldValue::Color(t.item_selected),
        Field::ItemStroke => FieldValue::Color(t.item_stroke),
        Field::ItemStrokeWidth => FieldValue::Text(t.item_stroke_width),
        Field::ItemCorner => FieldValue::Text(t.item_corner),
        Field::IconColor => FieldValue::Color(t.icon_color),
        Field::IconFont => FieldValue::Text(t.icon_font),
        Field::IconFontSize => FieldValue::Text(t.icon_font_size),
        Field::IconFontWeight => FieldValue::Weight(t.icon_font_weight),
        Field::LabelColor => FieldValue::Color(t.label_color),
        Field::LabelFont => FieldValue::Text(t.label_font),
        Field::LabelFontSize => FieldValue::Text(t.label_font_size),
        Field::LabelFontWeight => FieldValue::Weight(t.label_font_weight),
        Field::LabelVisible => FieldValue::Flag(t.label_visible),
    }
}

/// `v` is a value of the kind property `f` holds.
pub open spec fn fits(f: Field, v: FieldValue) -> bool {
    match field_of(arbitrary(), f) {
        FieldValue::Color(_) => v is Color,
        FieldValue::Text(_) => v is Text,
        FieldValue::Weight(_) => v is Weight,
        FieldValue::Flag(_) => v is Flag,
    }
}

/// `t` with property `f` set to `v` (unchanged when `v` does not fit `f`).
pub open spec fn with_field(t: ThemeV, f: Field, v: FieldValue) -> ThemeV {
    match v {
        FieldValue::Color(c) => match f {
            Field::PillBg => ThemeV { pill_bg: c, ..t },
            Field::PillFg => ThemeV { pill_fg: c, ..t },
            Field::ItemDefault => ThemeV { item_default: c, ..t },
            Field::ItemHover => ThemeV { item_hover: c, ..t },
            Field::ItemActive => ThemeV { item_active: c, ..t },
            Field::ItemSelected => ThemeV { item_selected: c, ..t },
            Field::ItemStroke => ThemeV { item_stroke: c, ..t },
            Field::IconColor => ThemeV { icon_color: c, ..t },
            Field::LabelColor => ThemeV { label_color: c, ..t },
            _ => t,
        },
        FieldValue::Text(s) => match f {
            Field::PillFont => ThemeV { pill_font: s, ..t },
            Field::PillFontSize => ThemeV { pill_font_size: s, ..t },
            Field::PillHeight => ThemeV { pill_height: s, ..t },
            Field::PillPaddingX => ThemeV { pill_padding_x: s, ..t },
            Field::PillOffsetY => ThemeV { pill_offset_y: s, ..t },
            Field::PillCorner => ThemeV { pill_corner: s, ..t },
            Field::PillGap => ThemeV { pill_gap: s, ..t },
            Field::ItemStrokeWidth => ThemeV { item_stroke_width: s, ..t },
            Field::ItemCorner => ThemeV { item_corner: s, ..t },
            Field::IconFont => ThemeV { icon_font: s, ..t },
            Field::IconFontSize => ThemeV { icon_font_size: s, ..t },
            Field::LabelFont => ThemeV { label_font: s, ..t },
            Field::LabelFontSize => ThemeV { label_font_size: s, ..t },
            _ => t,
        },
        FieldValue::Weight(w) => match f {
            Field::PillFontWeight => ThemeV { pill_font_weight: w, ..t },
            Field::IconFontWeight => ThemeV { icon_font_weight: w, ..t },
            Field::LabelFontWeight => ThemeV { label_font_weight: w, ..t },
            _ => t,
        },
        FieldValue::Flag(b) => match f {
            Field::LabelVisible => ThemeV { label_visible: b, ..t },
            _ => t,
        },
    }
}

/// A write of one property.
pub type PropWrite = (Field, FieldValue);

/// A declaration writes a well-typed value; `display` only ever hides
/// labels.
pub open spec fn write_ok(w: PropWrite) -> bool {
    &&& fits(w.0, w.1)
    &&& (w.0 is LabelVisible ==> w.1 == FieldValue::Flag(false))
}

pub open spec fn color_write(f: Field, vals: Seq<TokV>) -> Option<PropWrite> {
    match color_value(vals) {
        Some(c) => Some((f, FieldValue::Color(c))),
        None => None,
    }
}

pub open spec fn text_write(f: Field, o: Option<Seq<char>>) -> Option<PropWrite> {
    match o {
        Some(s) => Some((f, FieldValue::Text(s))),
        None => None,
    }
}

pub open spec fn weight_write(f: Field, vals: Seq<TokV>) -> Option<PropWrite> {
    match weight_value(vals) {
        Some(w) => Some((f, FieldValue::Weight(w))),
        None => None,
    }
}

/// The property a declaration `prop: vals` of a rule selecting `target`
/// writes, and the value; `None` when the property is not one the element
/// has, or the value does not parse for it.
pub open spec fn decl_write(target: Target, prop: Seq<char>, vals: Seq<TokV>) -> Option<PropWrite> {
    match target.element {
        Element::Pill => if prop == "background-color"@ || prop == "background"@ {
            color_write(Field::PillBg, vals)
        } else if prop == "color"@ {
            color_write(Field::PillFg, vals)
        } else if prop == "font-family"@ {
            text_write(Field::PillFont, family_value(vals))
        } else if prop == "font-size"@ {
            text_write(Field::PillFontSize, number_value(vals))
        } else if prop == "font-weight"@ {
            weight_write(Field::PillFontWeight, vals)
        } else if prop == "height"@ {
            text_write(Field::PillHeight, number_value(vals))
        } else if prop == "padding"@ || prop == "padding-x"@ {
            text_write(Field::PillPaddingX, number_value(vals))
        } else if prop == "margin-top"@ || prop == "offset-y"@ {
            text_write(Field::PillOffsetY, number_value(vals))
        } else if prop == "border-radius"@ {
            text_write(Field::PillCorner, number_value(vals))
        } else if prop == "--module-gap"@ || prop == "gap"@ {
            text_write(Field::PillGap, number_value(vals))
        } else {
            None
        },
        Element::Item => if prop == "background-color"@ || prop == "background"@ {
            color_write(
                match target.state {
                    State::Base => Field::ItemDefault,
                    State::Hover => Field::ItemHover,
                    State::Active => Field::ItemActive,
                    State::Selected => Field::ItemSelected,
                },
                vals,
            )
        } else if prop == "border-radius"@ && target.state == State::Base {
            text_write(Field::ItemCorner, number_value(vals))
        } else {
            None
        },
        Element::Stroke => if prop == "border-color"@ || prop == "color"@ {
            color_write(Field::ItemStroke, vals)
        } else if prop == "border-width"@ {
            text_write(Field::ItemStrokeWidth, number_value(vals))
        } else {
            None
        },
        Element::Icon => if prop == "color"@ {
            color_write(Field::IconColor, vals)
        } else if prop == "font-family"@ {
            text_write(Field::IconFont, family_value(vals))
        } else if prop == "font-size"@ {
            text_write(Field::IconFontSize, number_value(vals))
        } else if prop == "font-weight"@ {
            weight_write(Field::IconFontWeight, vals)
        } else {
            None
        },
        Element::Label => if prop == "color"@ {
            color_write(Field::LabelColor, vals)
        } else if prop == "font-family"@ {
            text_write(Field::LabelFont, family_value(vals))
        } else if prop == "font-size"@ {
            text_write(Field::LabelFontSize, number_value(vals))
        } else if prop == "font-weight"@ {
            weight_write(Field::LabelFontWeight, vals)
        } else if prop == "display"@ && says_none(vals) {
            Some((Field::LabelVisible, FieldValue::Flag(false)))
        } else {
            None
        },
    }
}

/// The writes of the first `n` declarations of a rule selecting `target`.
pub open spec fn decl_writes(target: Target, d: Seq<(Seq<char>, Seq<TokV>)>, n: int) -> Seq<PropWrite>
    decreases n,
{
    if n <= 0 {
        Seq::empty()
    } else {
        let w = decl_writes(target, d, n - 1);
        match decl_write(target, d[n - 1].0, d[n - 1].1) {
            Some(x) => w.push(x),
            None => w,
        }
    }
}

/// The writes of a rule: none when its selector styles nothing of the menu.
pub open spec fn rule_writes(r: RuleV) -> Seq<PropWrite> {
    match selector_target(r.selectors) {
        Some(target) => decl_writes(target, r.decls, r.decls.len() as int),
        None => Seq::empty(),
    }
}

/// The writes of the first `n` rules, in source order.
pub open spec fn rules_writes(rs: Seq<RuleV>, n: int) -> Seq<PropWrite>
    decreases n,
{
    if n <= 0 {
        Seq::empty()
    } else {
        rules_writes(rs, n - 1) + rule_writes(rs[n - 1])
    }
}

/// Every write a stylesheet makes, in source order.
pub open spec fn css_writes(css: Seq<char>) -> Seq<PropWrite> {
    let rs = rules(tokens(css));
    rules_writes(rs, rs.len() as int)
}

/// `t` after a sequence of writes, in order.
pub open spec fn apply_writes(t: ThemeV, ws: Seq<PropWrite>) -> ThemeV
    decreases ws.len(),
{
    if ws.len() == 0 {
        t
    } else {
        with_field(apply_writes(t, ws.drop_last()), ws.last().0, ws.last().1)
    }
}

/// The value of the last write of property `f`, if any.
pub open spec fn last_write(ws: Seq<PropWrite>, f: Field) -> Option<FieldValue>
    decreases ws.len(),
{
    if ws.len() == 0 {
        None
    } else if ws.last().0 == f {
        Some(ws.last().1)
    } else {
        last_write(ws.drop_last(), f)
    }
}

pub open spec fn writes_ok(ws: Seq<PropWrite>) -> bool {
    forall|k: int| 0 <= k < ws.len() ==> write_ok(#[trigger] ws[k])
}

// ---------------------------------------------------------------------
// Lemmas
// ---------------------------------------------------------------------

proof fn lemma_with_field(t: ThemeV, f: Field, v: FieldValue, g: Field)
    requires
        fits(f, v),
    ensures
        field_of(with_field(t, f, v), g) == if g == f {
            v
        } else {
            field_of(t, g)
        },
{
}

/// A theme is determined by the values of its properties.
proof fn lemma_fields_determine(a: ThemeV, b: ThemeV)
    requires
        forall|f: Field| field_of(a, f) == field_of(b, f),
    ensures
        a == b,
{
    assert(field_of(a, Field::PillBg) == field_of(b, Field::PillBg));
    assert(field_of(a, Field::PillFg) == field_of(b, Field::PillFg));
    assert(field_of(a, Field::PillFont) == field_of(b, Field::PillFont));
    assert(field_of(a, Field::PillFontSize) == field_of(b, Field::PillFontSize));
    assert(field_of(a, Field::PillFontWeight) == field_of(b, Field::PillFontWeight));
    assert(field_of(a, Field::PillHeight) == field_of(b, Field::PillHeight));
    assert(field_of(a, Field::PillPaddingX) == field_of(b, Field::PillPaddingX));
    assert(field_of(a, Field::PillOffsetY) == field_of(b, Field::PillOffsetY));
    assert(field_of(a, Field::PillCorner) == field_of(b, Field::PillCorner));
    assert(field_of(a, Field::PillGap) == field_of(b, Field::PillGap));
    assert(field_of(a, Field::ItemDefault) == field_of(b, Field::ItemDefault));
    assert(field_of(a, Field::ItemHover) == field_of(b, Field::ItemHover));
    assert(field_of(a, Field::ItemActive) == field_of(b, Field::ItemActive));
    assert(field_of(a, Field::ItemSelected) == field_of(b, Field::ItemSelected));
    assert(field_of(a, Field::ItemStroke) == field_of(b, Field::ItemStroke));
    assert(field_of(a, Field::ItemStrokeWidth) == field_of(b, Field::ItemStrokeWidth));
    assert(field_of(a, Field::ItemCorner) == field_of(b, Field::ItemCorner));
    assert(field_of(a, Field::IconColor) == field_of(b, Field::IconColor));
    assert(field_of(a, Field::IconFont) == field_of(b, Field::IconFont));
    assert(field_of(a, Field::IconFontSize) == field_of(b, Field::IconFontSize));
    assert(field_of(a, Field::IconFontWeight) == field_of(b, Field::IconFontWeight));
    assert(field_of(a, Field::LabelColor) == field_of(b, Field::LabelColor));
    assert(field_of(a, Field::LabelFont) == field_of(b, Field::LabelFont));
    assert(field_of(a, Field::LabelFontSize) == field_of(b, Field::LabelFontSize));
    assert(field_of(a, Field::LabelFontWeight) == field_of(b, Field::LabelFontWeight));
    assert(field_of(a, Field::LabelVisible) == field_of(b, Field::LabelVisible));
}

/// One declaration is exactly its write.
proof fn lemma_decl_write(t: ThemeV, target: Target, prop: Seq<char>, vals: Seq<TokV>)
    ensures
        apply_decl(t, target, prop, vals) == match decl_write(target, prop, vals) {
            Some(w) => with_field(t, w.0, w.1),
            None => t,
        },
        decl_write(target, prop, vals) matches Some(w) ==> write_ok(w),
{
}

proof fn lemma_apply_writes_concat(t: ThemeV, a: Seq<PropWrite>, b: Seq<PropWrite>)
    ensures
        apply_writes(t, a + b) == apply_writes(apply_writes(t, a), b),
    decreases b.len(),
{
    if b.len() == 0 {
        assert(a + b =~= a);
    } else {
        assert((a + b).drop_last() =~= a + b.drop_last());
        assert((a + b).last() == b.last());
        lemma_apply_writes_concat(t, a, b.drop_last());
    }
}

proof fn lemma_decl_writes(t: ThemeV, target: Target, d: Seq<(Seq<char>, Seq<TokV>)>, n: int)
    requires
        0 <= n <= d.len(),
    ensures
        apply_decls(t, target, d, n) == apply_writes(t, decl_writes(target, d, n)),
        writes_ok(decl_writes(target, d, n)),
    decreases n,
{
    if n > 0 {
        lemma_decl_writes(t, target, d, n - 1);
        let w = decl_writes(target, d, n - 1);
        lemma_decl_write(apply_writes(t, w), target, d[n - 1].0, d[n - 1].1);
        match decl_write(target, d[n - 1].0, d[n - 1].1) {
            Some(x) => {
                assert(w.push(x).drop_last() =~= w);
                assert forall|k: int| 0 <= k < w.push(x).len() implies write_ok(#[trigger] w.push(x)[k]) by {
                    if k < w.len() {
                        assert(w.push(x)[k] == w[k]);
                    }
                }
            },
            None => {},
        }
    }
}

proof fn lemma_rules_writes(t: ThemeV, rs: Seq<RuleV>, n: int)
    requires
        0 <= n <= rs.len(),
    ensures
        apply_rules(t, rs, n) == apply_writes(t, rules_writes(rs, n)),
        writes_ok(rules_writes(rs, n)),
    decreases n,
{
    if n > 0 {
        lemma_rules_writes(t, rs, n - 1);
        let a = rules_writes(rs, n - 1);
        let b = rule_writes(rs[n - 1]);
        lemma_apply_writes_concat(t, a, b);
        let mid = apply_writes(t, a);
        match selector_target(rs[n - 1].selectors) {
            Some(target) => {
                lemma_decl_writes(mid, target, rs[n - 1].decls, rs[n - 1].decls.len() as int);
            },
            None => {
                assert(b.len() == 0);
            },
        }
        assert(apply_rule(mid, rs[n - 1]) == apply_writes(mid, b));
        assert forall|k: int| 0 <= k < (a + b).len() implies write_ok(#[trigger] (a + b)[k]) by {
            if k < a.len() {
                assert((a + b)[k] == a[k]);
            } else {
                assert((a + b)[k] == b[k - a.len()]);
            }
        }
    }
}

proof fn lemma_last_write(t: ThemeV, ws: Seq<PropWrite>, f: Field)
    requires
        writes_ok(ws),
    ensures
        field_of(apply_writes(t, ws), f) == match last_write(ws, f) {
            Some(v) => v,
            None => field_of(t, f),
        },
    decreases ws.len(),
{
    if ws.len() > 0 {
        let d = ws.drop_last();
        assert forall|k: int| 0 <= k < d.len() implies write_ok(#[trigger] d[k]) by {
            assert(d[k] == ws[k]);
        }
        assert(write_ok(ws[ws.len() - 1]));
        lemma_last_write(t, d, f);
        lemma_with_field(apply_writes(t, d), ws.last().0, ws.last().1, f);
    }
}

// ---------------------------------------------------------------------
// Laws
// ---------------------------------------------------------------------

/// Laying a stylesheet over a theme sets each property to the value of the
/// last declaration, among the rules that style the menu and in source
/// order, that sets it with a value that parses; a property no such
/// declaration sets keeps its old value. The writes are well-typed, and
/// `display` only ever hides labels.
pub proof fn lemma_last_declaration_wins(t: ThemeV, css: Seq<char>, f: Field)
    ensures
        field_of(merged(t, css), f) == match last_write(css_writes(css), f) {
            Some(v) => v,
            None => field_of(t, f),
        },
        writes_ok(css_writes(css)),
{
    let rs = rules(tokens(css));
    lemma_rules_writes(t, rs, rs.len() as int);
    lemma_last_write(t, css_writes(css), f);
}

/// Laying the same stylesheet over a theme a second time changes nothing.
pub proof fn lemma_merge_twice(t: ThemeV, css: Seq<char>)
    ensures
        merged(merged(t, css), css) == merged(t, css),
{
    let once = merged(t, css);
    assert forall|f: Field| field_of(merged(once, css), f) == field_of(once, f) by {
        lemma_last_declaration_wins(t, css, f);
        lemma_last_declaration_wins(once, css, f);
    }
    lemma_fields_determine(merged(once, css), once);
}

} // verus!
