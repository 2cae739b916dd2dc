use hyprcircl::bar::{interval_due, pill_handler, pill_text, render_module, PillInput, StreamRetry};
use hyprcircl::config::{BarModule, TopBarConfig};

fn test_config() -> TopBarConfig {
    TopBarConfig {
        enabled: true,
        modules: vec![
            BarModule {
                format: "{output}".into(),
                icon: "A".into(),
                ..Default::default()
            },
            BarModule {
                format: "{output}".into(),
                icon: "B".into(),
                ..Default::default()
            },
        ],
    }
}

fn outs(v: &[&str]) -> Vec<String> {
    v.iter().map(|a| a.to_string()).collect()
}

#[test]
fn pill_text_of_each_module() {
    let t = pill_text(&test_config(), &outs(&["1", "2"]));
    assert_eq!(t.texts, vec!["A 1".to_string(), "B 2".to_string()]);
    assert_eq!(t.indices, vec![0, 1]);
}

#[test]
fn pill_text_skips_empty_modules() {
    let mut cfg = test_config();
    cfg.modules[0].icon = String::new();
    let t = pill_text(&cfg, &outs(&["", "2"]));
    assert_eq!(t.indices, vec![1]);
    assert_eq!(t.texts, vec!["B 2".to_string()]);
    // Icon-less modules with no output at all: nothing to show.
    cfg.modules[1].icon = String::new();
    let t = pill_text(&cfg, &outs(&[" ", "\n"]));
    assert!(t.texts.is_empty());
    // Missing outputs read as empty.
    let t = pill_text(&test_config(), &outs(&[]));
    assert_eq!(t.texts, vec!["A ".to_string(), "B ".to_string()]);
}

#[test]
fn literal_format_shows_only_with_output() {
    let cfg = TopBarConfig {
        enabled: true,
        modules: vec![BarModule {
            format: "ICON_UPDATE".into(),
            ..Default::default()
        }],
    };
    assert!(pill_text(&cfg, &outs(&[""])).texts.is_empty());
    let t = pill_text(&cfg, &outs(&["yes"]));
    assert_eq!(t.texts, vec!["ICON_UPDATE".to_string()]);
    assert_eq!(t.indices, vec![0]);
}

#[test]
fn every_placeholder_is_replaced() {
    let m = BarModule {
        format: "{output}/{output}{outpu".into(),
        ..Default::default()
    };
    assert_eq!(render_module(&m, "7"), ("7/7{outpu".to_string(), true));
}

#[test]
fn handlers_and_scheduling() {
    let m = BarModule {
        on_click: "pavucontrol".into(),
        on_scroll_up: "pamixer -i 5".into(),
        ..Default::default()
    };
    assert_eq!(pill_handler(&m, PillInput::Click), Some("pavucontrol".to_string()));
    assert_eq!(pill_handler(&m, PillInput::RightClick), None);
    assert_eq!(pill_handler(&m, PillInput::ScrollUp), Some("pamixer -i 5".to_string()));
    assert_eq!(pill_handler(&m, PillInput::ScrollDown), None);
    assert!(interval_due(0, 1, false));
    assert!(!interval_due(0, 0, false));
    assert!(!interval_due(5, 4, false));
    assert!(interval_due(5, 4, true));
}

#[test]
fn stream_retry_backs_off() {
    let mut r = StreamRetry::new();
    assert!(!r.waiting(0));
    r.failed(1000);
    assert_eq!(r.retry_at, Some(1500));
    assert!(r.waiting(1499));
    assert!(!r.waiting(1500));
    r.failed(2000);
    assert_eq!(r.retry_at, Some(3000));
    r.started();
    assert_eq!(r, StreamRetry::new());
}
