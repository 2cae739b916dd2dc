use hyprcircl::config::{
    config_paths, css_search_dirs, default_config_dir, default_menu_items, default_top_bar,
    default_true, find_css_path, next_generation, path_join, resolved_config_path, select_config,
    set_config_override, reload_step, ChangeDetector, ConfigChoice, ConfigStatus, MenuItem,
    ReloadOutcome,
};

fn s(v: &str) -> String {
    v.to_string()
}

#[test]
fn menu_item_is_submenu() {
    let leaf = MenuItem {
        label: "Terminal".into(),
        icon: "💻".into(),
        command: vec!["foot".into()],
        items: vec![],
    };
    assert!(!leaf.is_submenu());

    let branch = MenuItem {
        label: "Media".into(),
        icon: "🎵".into(),
        command: vec![],
        items: vec![MenuItem {
            label: "Next".into(),
            icon: "⏭".into(),
            command: vec!["playerctl".into(), "next".into()],
            items: vec![],
        }],
    };
    assert!(branch.is_submenu());
}

#[test]
fn find_css_path_returns_existing_or_none() {
    // Must never panic and only ever return an existing path.
    let paths = config_paths(&None, &None, &None, &None);
    let dirs = css_search_dirs(&None, &paths);
    let exists: Vec<bool> = dirs
        .iter()
        .map(|d| std::path::Path::new(&path_join(d, "hyprcircl.css")).exists())
        .collect();
    let res = find_css_path(&dirs, &exists);
    if let Some(css) = res {
        assert!(std::path::Path::new(&css).exists());
    }
}

#[test]
fn config_paths_priority_order() {
    // With no env vars, only the cwd fallbacks are present.
    let paths = config_paths(&None, &None, &None, &None);
    assert_eq!(
        paths,
        vec!["hyprcircl.toml".to_string(), "config.toml".to_string()]
    );

    // XDG_CONFIG_HOME paths come first when set.
    let paths = config_paths(&None, &None, &Some(s("/x")), &None);
    assert!(paths[0].starts_with("/x/"));
    assert!(paths[0].ends_with("hyprcircl.toml"));
}

#[test]
fn config_paths_full_order() {
    let paths = config_paths(
        &Some(s("/o.toml")),
        &Some(s("/env.toml")),
        &Some(s("/x")),
        &Some(s("/h")),
    );
    assert_eq!(
        paths,
        vec![
            s("/o.toml"),
            s("/env.toml"),
            s("/x/hyprcircl/hyprcircl.toml"),
            s("/x/hyprcircl/config.toml"),
            s("/h/.config/hyprcircl/hyprcircl.toml"),
            s("/h/.config/hyprcircl/config.toml"),
            s("hyprcircl.toml"),
            s("config.toml"),
        ]
    );
    // Empty variables count as unset; an empty override is still tried.
    let paths = config_paths(&Some(s("")), &Some(s("")), &Some(s("")), &Some(s("")));
    assert_eq!(paths, vec![s(""), s("hyprcircl.toml"), s("config.toml")]);
}

#[test]
fn override_keeps_the_first_path() {
    let mut slot = None;
    set_config_override(&mut slot, s("a.toml"));
    set_config_override(&mut slot, s("b.toml"));
    assert_eq!(slot, Some(s("a.toml")));
}

#[test]
fn default_dir_and_join() {
    assert_eq!(default_config_dir(&Some(s("/x")), &Some(s("/h"))), "/x/hyprcircl");
    assert_eq!(default_config_dir(&Some(s("")), &Some(s("/h/"))), "/h/.config/hyprcircl");
    assert_eq!(default_config_dir(&None, &None), ".config/hyprcircl");
    assert_eq!(path_join("", "a"), "a");
    assert_eq!(path_join("/", "a"), "/a");
    assert_eq!(path_join("d", "/abs"), "/abs");
}

#[test]
fn resolved_path_is_first_existing_or_default() {
    let paths = vec![s("a"), s("b"), s("c")];
    assert_eq!(resolved_config_path(&paths, &vec![false, true, true], "/d"), "b");
    assert_eq!(
        resolved_config_path(&paths, &vec![false, false, false], "/d"),
        "/d/hyprcircl.toml"
    );
}

#[test]
fn broken_file_stops_the_search() {
    assert_eq!(select_config(&vec![]), ConfigChoice::NotFound);
    assert_eq!(select_config(&vec![ConfigStatus::Unreadable, ConfigStatus::Unreadable]), ConfigChoice::NotFound);
    assert_eq!(
        select_config(&vec![ConfigStatus::Unreadable, ConfigStatus::Malformed, ConfigStatus::Parsed(1)]),
        ConfigChoice::Unparsable { index: 1 }
    );
    assert_eq!(
        select_config(&vec![ConfigStatus::Unreadable, ConfigStatus::Parsed(0), ConfigStatus::Malformed]),
        ConfigChoice::Loaded { index: 1, schema_version: 1 }
    );
    assert_eq!(
        select_config(&vec![ConfigStatus::Parsed(2)]),
        ConfigChoice::Unsupported { index: 0, schema_version: 2 }
    );
}

#[test]
fn css_dirs_start_at_the_loaded_config_and_drop_repeats() {
    let paths = config_paths(&None, &None, &Some(s("/x")), &None);
    let dirs = css_search_dirs(&Some(s("/x/hyprcircl/config.toml")), &paths);
    assert_eq!(dirs, vec![s("/x/hyprcircl"), s(".")]);
    let exists = vec![false, true];
    assert_eq!(find_css_path(&dirs, &exists), Some(s("./hyprcircl.css")));
    assert_eq!(find_css_path(&dirs, &vec![false, false]), None);
}

#[test]
fn bare_config_names_search_the_current_directory() {
    let paths = config_paths(&Some(s("menu.toml")), &None, &None, &None);
    let dirs = css_search_dirs(&Some(s("menu.toml")), &paths);
    assert_eq!(dirs, vec![s(".")]);
    assert!(dirs.iter().all(|d| !d.is_empty()));
}

#[test]
fn change_detector_reports_new_contents_only() {
    let mut d = ChangeDetector::new();
    assert!(!d.observe(None));
    assert!(d.observe(Some(s("a"))));
    assert!(!d.observe(Some(s("a"))));
    assert!(!d.observe(None));
    assert!(d.observe(Some(s("b"))));
    assert_eq!(next_generation(5), 6);
    assert_eq!(next_generation(u64::MAX), 0);
}

#[test]
fn built_in_defaults() {
    assert!(default_true());
    let items = default_menu_items();
    assert_eq!(items.len(), 3);
    assert!(items[0].is_submenu());
    assert_eq!(items[0].items[2].items[0].command, vec![s("pamixer"), s("-t")]);
    assert_eq!(items[2].label, "Lock");
    let bar = default_top_bar();
    assert!(bar.enabled);
    assert_eq!(bar.modules.len(), 3);
    assert_eq!(bar.modules[0].format, "CPU {output}");
    assert_eq!(bar.modules[2].interval, 30);
}

#[test]
fn reported_path_is_the_loaded_one() {
    let paths = config_paths(&None, &None, &Some(s("/x")), &Some(s("/h")));
    let exists: Vec<bool> = (0..paths.len()).map(|i| i == 2 || i == 4).collect();
    let statuses: Vec<ConfigStatus> = (0..paths.len())
        .map(|i| if exists[i] { ConfigStatus::Parsed(0) } else { ConfigStatus::Unreadable })
        .collect();
    let reported = resolved_config_path(&paths, &exists, "/d");
    assert_eq!(reported, s("/h/.config/hyprcircl/hyprcircl.toml"));
    match select_config(&statuses) {
        ConfigChoice::Loaded { index, schema_version } => {
            assert_eq!(paths[index], reported);
            assert_eq!(schema_version, 1);
        }
        other => panic!("unexpected {other:?}"),
    }
}

#[test]
fn reload_swaps_only_new_contents_that_parse() {
    let mut d = ChangeDetector::new();
    let mut cfg = 10u32;
    let mut gen = 4u64;
    assert_eq!(reload_step(&mut d, None, None, &mut cfg, &mut gen), ReloadOutcome::Unchanged);
    assert_eq!(reload_step(&mut d, Some(s("a")), Some(11), &mut cfg, &mut gen), ReloadOutcome::Swapped);
    assert_eq!((cfg, gen), (11, 5));
    assert_eq!(reload_step(&mut d, Some(s("a")), Some(12), &mut cfg, &mut gen), ReloadOutcome::Unchanged);
    assert_eq!((cfg, gen), (11, 5));
    assert_eq!(reload_step(&mut d, Some(s("b")), None, &mut cfg, &mut gen), ReloadOutcome::Rejected);
    assert_eq!((cfg, gen), (11, 5));
    assert_eq!(reload_step(&mut d, Some(s("b")), Some(13), &mut cfg, &mut gen), ReloadOutcome::Unchanged);
    let mut top = u64::MAX;
    assert_eq!(reload_step(&mut d, Some(s("c")), Some(14), &mut cfg, &mut top), ReloadOutcome::Swapped);
    assert_eq!((cfg, top), (14, 0));
}
