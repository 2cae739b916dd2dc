use hyprcircl::css::{parse_rules, tokenize, Tok, Unit};
use hyprcircl::theme::{parse_color, parse_hex, Color, FontWeight, Theme, DEFAULT_FONT};

type Rgba = (f64, f64, f64, f64);

fn num(text: &str) -> f64 {
    text.parse().unwrap_or(0.0)
}

fn channel(v: f64) -> f64 {
    if v > 1.0 {
        (v / 255.0).clamp(0.0, 1.0)
    } else {
        v.clamp(0.0, 1.0)
    }
}

fn hsl_to_rgb(h: f64, s: f64, l: f64) -> (f64, f64, f64) {
    let h = h.rem_euclid(360.0) / 360.0;
    let s = if s > 1.0 { s / 100.0 } else { s }.clamp(0.0, 1.0);
    let l = if l > 1.0 { l / 100.0 } else { l }.clamp(0.0, 1.0);
    if s <= 0.0 {
        return (l, l, l);
    }
    let q = if l < 0.5 { l * (1.0 + s) } else { l + s - l * s };
    let p = 2.0 * l - q;
    let hue = |mut t: f64| -> f64 {
        if t < 0.0 {
            t += 1.0;
        }
        if t > 1.0 {
            t -= 1.0;
        }
        if t < 1.0 / 6.0 {
            p + (q - p) * 6.0 * t
        } else if t < 1.0 / 2.0 {
            q
        } else if t < 2.0 / 3.0 {
            p + (q - p) * (2.0 / 3.0 - t) * 6.0
        } else {
            p
        }
    };
    (hue(h + 1.0 / 3.0), hue(h), hue(h - 1.0 / 3.0))
}

/// The renderer's reading of a theme color.
fn rgba(c: &Color) -> Rgba {
    match c {
        Color::Rgba8(r, g, b, a) => (
            *r as f64 / 255.0,
            *g as f64 / 255.0,
            *b as f64 / 255.0,
            *a as f64 / 255.0,
        ),
        Color::Rgb(args) | Color::Hsl(args) => {
            let nums: Vec<(f64, bool)> = args.iter().map(|a| (num(&a.text), a.percent)).collect();
            let alpha = match nums.get(3) {
                Some((v, true)) => (*v / 100.0).clamp(0.0, 1.0),
                Some((v, false)) => v.clamp(0.0, 1.0),
                None => 1.0,
            };
            if let Color::Rgb(_) = c {
                let chan = |i: usize| -> f64 {
                    let (v, pct) = nums[i];
                    if pct {
                        (v / 100.0).clamp(0.0, 1.0)
                    } else {
                        channel(v)
                    }
                };
                (chan(0), chan(1), chan(2), alpha)
            } else {
                let (r, g, b) = hsl_to_rgb(nums[0].0, nums[1].0, nums[2].0);
                (r, g, b, alpha)
            }
        }
    }
}

fn hex(c: (u8, u8, u8, u8)) -> Rgba {
    rgba(&Color::Rgba8(c.0, c.1, c.2, c.3))
}

fn weight(w: &FontWeight) -> i32 {
    match w {
        FontWeight::Fixed(v) => *v,
        FontWeight::Numeric(t) => num(t) as i32,
    }
}

fn approx(a: Rgba, b: Rgba) -> bool {
    let eps = 0.001;
    (a.0 - b.0).abs() < eps
        && (a.1 - b.1).abs() < eps
        && (a.2 - b.2).abs() < eps
        && (a.3 - b.3).abs() < eps
}

fn n(v: &str) -> Tok {
    Tok::Number(v.to_string())
}

#[test]
fn defaults_are_stable() {
    let t = Theme::default();
    assert_eq!(t.pill_font, DEFAULT_FONT);
    assert!(t.label_visible);
    assert!(num(&t.pill_height) > 0.0);
    assert!(num(&t.pill_font_size) > 0.0);
    assert!(num(&t.item_corner) > 0.0);
    assert!(num(&t.item_stroke_width) > 0.0);
}

#[test]
fn empty_css_changes_nothing() {
    let t = Theme::from_css("");
    assert_eq!(t, Theme::default());
    let t2 = Theme::from_css("/* only a comment */ \n {}");
    assert_eq!(t2, Theme::default());
}

#[test]
fn item_colors_and_pseudo_classes() {
    let css = r#"
            .item { background: #abcdef; border-radius: 10px; }
            .item:hover { background: red; }
            .item:active { background: rgb(50%, 0, 0); }
            .item:selected { background: hsla(200, 100%, 50%, 0.5); }
        "#;
    let t = Theme::from_css(css);
    assert!(approx(
        rgba(&t.item_default),
        (0xab as f64 / 255.0, 0xcd as f64 / 255.0, 0xef as f64 / 255.0, 1.0)
    ));
    assert_eq!(num(&t.item_corner), 10.0);
    assert!(approx(rgba(&t.item_hover), (1.0, 0.0, 0.0, 1.0)));
    assert!(approx(rgba(&t.item_active), (0.5, 0.0, 0.0, 1.0)));
    assert!((rgba(&t.item_selected).3 - 0.5).abs() < 0.001);
    assert!((rgba(&t.item_selected).2 - 1.0).abs() < 0.001);
}

#[test]
fn stroke_and_icon_label() {
    let css = r#"
            .item-stroke { border-color: #222222; border-width: 3px; }
            .icon { color: #0d0d1a; font-size: 22px; font-family: "Fira Code"; font-weight: 600; }
            .label { color: #262633; font-size: 9px; }
            .label { display: none; }
        "#;
    let t = Theme::from_css(css);
    assert!(approx(
        rgba(&t.item_stroke),
        (0x22 as f64 / 255.0, 0x22 as f64 / 255.0, 0x22 as f64 / 255.0, 1.0)
    ));
    assert_eq!(num(&t.item_stroke_width), 3.0);
    assert_eq!(t.icon_font, "Fira Code");
    assert_eq!(num(&t.icon_font_size), 22.0);
    assert_eq!(weight(&t.icon_font_weight), 600);
    assert_eq!(num(&t.label_font_size), 9.0);
    assert!(!t.label_visible);
}

#[test]
fn pill_properties() {
    let css = r#"
            .pill {
                background-color: rgba(0.1, 0.1, 0.15, 0.95);
                color: white;
                font-family: 'Mono Sans';
                font-size: 15px;
                font-weight: bold;
                height: 32px;
                padding: 12px;
                margin-top: 30px;
                border-radius: 16px;
                --module-gap: 20px;
            }
        "#;
    let t = Theme::from_css(css);
    assert!(approx(rgba(&t.pill_bg), (0.1, 0.1, 0.15, 0.95)));
    assert!(approx(rgba(&t.pill_fg), (1.0, 1.0, 1.0, 1.0)));
    assert_eq!(t.pill_font, "Mono Sans");
    assert_eq!(num(&t.pill_font_size), 15.0);
    assert_eq!(weight(&t.pill_font_weight), 700);
    assert_eq!(num(&t.pill_height), 32.0);
    assert_eq!(num(&t.pill_padding_x), 12.0);
    assert_eq!(num(&t.pill_offset_y), 30.0);
    assert_eq!(num(&t.pill_corner), 16.0);
    assert_eq!(num(&t.pill_gap), 20.0);
}

#[test]
fn hex_formats() {
    assert!(approx(hex(parse_hex("fff").unwrap()), (1.0, 1.0, 1.0, 1.0)));
    assert!(approx(
        hex(parse_hex("f008").unwrap()),
        (1.0, 0.0, 0.0, 0x88 as f64 / 255.0)
    ));
    assert!(approx(hex(parse_hex("ff0000").unwrap()), (1.0, 0.0, 0.0, 1.0)));
    assert!(approx(
        hex(parse_hex("ff000080").unwrap()),
        (1.0, 0.0, 0.0, 0x80 as f64 / 255.0)
    ));
    // 5-digit sequences are not valid hex lengths.
    assert_eq!(parse_hex("fffff"), None);
    assert_eq!(parse_hex(""), None);
}

#[test]
fn named_colors_and_transparent() {
    assert!(approx(
        rgba(&parse_color(&vec![Tok::Ident("reD".into())]).unwrap()),
        (1.0, 0.0, 0.0, 1.0)
    ));
    assert!(approx(
        rgba(&parse_color(&vec![Tok::Ident("transparent".into())]).unwrap()),
        (0.0, 0.0, 0.0, 0.0)
    ));
    assert!(parse_color(&vec![Tok::Ident("nope".into())]).is_none());
}

#[test]
fn comments_and_malformed_input_are_tolerated() {
    let css = r#"
            /* stray block with no selector */
            { color: red; }
            .icon { color: /* inline */ #0a0a0a; }
            ;; ;
            .label { color: lime; }
        "#;
    let t = Theme::from_css(css);
    assert!(approx(
        rgba(&t.icon_color),
        (0x0a as f64 / 255.0, 0x0a as f64 / 255.0, 0x0a as f64 / 255.0, 1.0)
    ));
    assert!(approx(rgba(&t.label_color), (0.0, 1.0, 0.0, 1.0)));
}

#[test]
fn window_selector_is_ignored_by_theme() {
    let css = r#"window { background-color: rgba(1, 0, 0, 1); } body { color: blue; }"#;
    let t = Theme::from_css(css);
    assert_eq!(t, Theme::default());
}

#[test]
fn font_weight_keywords() {
    let css = ".icon { font-weight: normal; } .label { font-weight: bold; }";
    let t = Theme::from_css(css);
    assert_eq!(weight(&t.icon_font_weight), 400);
    assert_eq!(weight(&t.label_font_weight), 700);
}

#[test]
fn rgb_accepts_0_255_and_0_1_channels() {
    // Standard CSS 8-bit channels must not saturate.
    assert!(approx(
        rgba(
            &parse_color(&vec![
                Tok::Function("rgb".into()),
                n("200"),
                Tok::Comma,
                n("150"),
                Tok::Comma,
                n("100"),
            ])
            .unwrap()
        ),
        (200.0 / 255.0, 150.0 / 255.0, 100.0 / 255.0, 1.0)
    ));
    // The shipped theme's float convention keeps passing through.
    assert!(approx(
        rgba(
            &parse_color(&vec![
                Tok::Function("rgba".into()),
                n("0.85"),
                Tok::Comma,
                n("0.85"),
                Tok::Comma,
                n("0.88"),
                Tok::Comma,
                n("0.90"),
            ])
            .unwrap()
        ),
        (0.85, 0.85, 0.88, 0.90)
    ));
    // Percentages still work.
    assert!(approx(
        rgba(
            &parse_color(&vec![
                Tok::Function("rgb".into()),
                Tok::Percentage("50".into()),
                Tok::Comma,
                n("0"),
                Tok::Comma,
                n("0"),
            ])
            .unwrap()
        ),
        (0.5, 0.0, 0.0, 1.0)
    ));
}

#[test]
fn hex_rejects_invalid_digits() {
    assert_eq!(parse_hex("ggg"), None);
    assert_eq!(parse_hex("ff00zz"), None);
}

#[test]
fn leading_dot_decimals_parse_at_fractional_value() {
    // `.5px` is valid CSS; it must not become `5px` (10x error).
    let t = Theme::from_css(".item { border-radius: .5px; }");
    assert!((num(&t.item_corner) - 0.5).abs() < 1e-9);
    let t = Theme::from_css(".item-stroke { border-width: -.25px; }");
    assert!((num(&t.item_stroke_width) + 0.25).abs() < 1e-9);
}

#[test]
fn unquoted_multiword_font_family_is_joined() {
    let t = Theme::from_css(".icon { font-family: JetBrains Mono; }");
    assert_eq!(t.icon_font, "JetBrains Mono");
    // First family of a comma list wins.
    let t = Theme::from_css(".pill { font-family: JetBrains Mono, sans-serif; }");
    assert_eq!(t.pill_font, "JetBrains Mono");
}

#[test]
fn tokenizer_reads_every_token_kind() {
    let toks = tokenize(".a:hover { x: #ff0 12px 50% 3 -.5pt 2rem 'q\\'s' rgb( , ) ; } /* c */ @");
    assert_eq!(
        toks,
        vec![
            Tok::Dot,
            Tok::Ident("a".into()),
            Tok::Colon,
            Tok::Ident("hover".into()),
            Tok::Lbrace,
            Tok::Ident("x".into()),
            Tok::Colon,
            Tok::Hash("ff0".into()),
            Tok::Dimension("12".into(), Unit::Px),
            Tok::Percentage("50".into()),
            Tok::Number("3".into()),
            Tok::Dimension("-.5".into(), Unit::Pt),
            Tok::Dimension("2".into(), Unit::Em),
            Tok::Str("q's".into()),
            Tok::Function("rgb".into()),
            Tok::Comma,
            Tok::Rparen,
            Tok::Semicolon,
            Tok::Rbrace,
        ]
    );
}

#[test]
fn tokenizer_number_forms() {
    assert_eq!(tokenize("1e3"), vec![n("1e3")]);
    assert_eq!(tokenize("1e"), vec![Tok::Dimension("1".into(), Unit::Px)]);
    assert_eq!(tokenize("5."), vec![n("5.")]);
    assert_eq!(tokenize("--gap"), vec![Tok::Ident("--gap".into())]);
    assert_eq!(tokenize("- 5"), vec![Tok::Ident("-".into()), n("5")]);
    assert_eq!(tokenize("/* open"), vec![]);
    assert_eq!(tokenize("\"unterminated"), vec![Tok::Str("unterminated".into())]);
    assert_eq!(tokenize("'é ü'"), vec![Tok::Str("é ü".into())]);
}

#[test]
fn rules_keep_value_tokens_after_the_colon() {
    let rules = parse_rules(&tokenize(".pill { color: red; height: 4 } b { }"));
    assert_eq!(rules.len(), 2);
    assert_eq!(rules[0].selectors, vec![Tok::Dot, Tok::Ident("pill".into())]);
    assert_eq!(
        rules[0].decls,
        vec![
            ("color".to_string(), vec![Tok::Colon, Tok::Ident("red".into())]),
            ("height".to_string(), vec![Tok::Colon, n("4")]),
        ]
    );
    assert!(rules[1].decls.is_empty());
}

#[test]
fn a_name_without_colon_absorbs_the_rest_of_its_block() {
    // `gap 3;` opens no property, so its tokens stay pending and the next
    // name can no longer start one.
    let rules = parse_rules(&tokenize(".pill { color: red; gap 3; height: 4 }"));
    assert_eq!(
        rules[0].decls,
        vec![("color".to_string(), vec![Tok::Colon, Tok::Ident("red".into())])]
    );
}

#[test]
fn later_declarations_win_and_focus_counts_as_hover() {
    let t = Theme::from_css(".item:focus { background: #000; } .item:hover { background: #fff; }");
    assert_eq!(t.item_hover, Color::Rgba8(255, 255, 255, 255));
    let t = Theme::from_css("#item-stroke.pill { color: navy }");
    assert_eq!(t.item_stroke, Color::Rgba8(0, 0, 128, 255));
    assert_eq!(t.pill_fg, Theme::default().pill_fg);
}

#[test]
fn weights_and_labels() {
    let t = Theme::from_css(".label { font-weight: LIGHTER; display: NONE } .pill { font-weight: 650.7 }");
    assert_eq!(t.label_font_weight, FontWeight::Fixed(300));
    assert!(!t.label_visible);
    assert_eq!(t.pill_font_weight, FontWeight::Numeric("650.7".into()));
    assert_eq!(weight(&t.pill_font_weight), 650);
}

#[test]
fn merging_the_same_stylesheet_twice_is_merging_it_once() {
    let css = ".pill { height: 30px; height: bogus; color: red } .label { display: none } \
               .item:hover { background: #123 } window { color: blue }";
    let once = Theme::from_css(css);
    let mut twice = once.clone();
    twice.merge_css(css);
    assert_eq!(twice, once);
    assert_eq!(once.pill_height, "30");
    assert!(!once.label_visible);
}

#[test]
fn unparsable_last_declaration_keeps_the_earlier_value() {
    let t = Theme::from_css(".icon { font-size: 14px } .icon { font-size: big }");
    assert_eq!(t.icon_font_size, "14");
    let t = Theme::from_css(".icon { color: nothing }");
    assert_eq!(t.icon_color, Theme::default().icon_color);
}
