use stencil::Config;
use stencil::Entry;
use stencil::NamedSet;
use stencil::ReplacementSet;
use stencil::TemplatedFile;
use stencil::backup_file_name;
use stencil::default_backup_value;
use stencil::default_whitelist_only;
use stencil::display_io_error;
use stencil::resolve_template_path;
use stencil::should_process;

fn v(s: &str) -> Vec<u8> {
    s.as_bytes().to_vec()
}

fn named_set(name: &str, whitelist_only: bool, pairs: &[(&str, &str)]) -> NamedSet {
    let mut entries = Vec::new();
    for (k, val) in pairs {
        entries.push(Entry { key: v(k), value: v(val) });
    }
    NamedSet { name: v(name), set: ReplacementSet { whitelist_only, entries } }
}

fn two_set_config() -> Config {
    Config {
        before: v("{{"),
        after: v("}}"),
        files: Vec::new(),
        sets: vec![
            named_set("work", false, &[("name", "Ada")]),
            named_set("home", true, &[("name", "Grace")]),
        ],
        backup: true,
    }
}

#[test]
fn whitelisted_set_processes_file() {
    let file = TemplatedFile {
        output_path: v("/tmp/out"),
        template: v("out.tmpl"),
        whitelist: Some(vec![v("alpha"), v("beta")]),
    };
    assert!(should_process(&file, &v("alpha"), false));
    assert!(should_process(&file, &v("beta"), true));
    assert!(!should_process(&file, &v("gamma"), false));
}

#[test]
fn whitelist_only_set_skips_unlisted_file() {
    let file = TemplatedFile {
        output_path: v("/tmp/out"),
        template: v("out.tmpl"),
        whitelist: None,
    };
    assert!(!should_process(&file, &v("alpha"), true));
    assert!(should_process(&file, &v("alpha"), false));
}

#[test]
fn find_set_by_name() {
    let config = two_set_config();
    assert_eq!(config.find_set(&v("work")), Some(0));
    assert_eq!(config.find_set(&v("home")), Some(1));
    assert_eq!(config.find_set(&v("away")), None);
}

#[test]
fn set_names_in_declaration_order() {
    let config = two_set_config();
    assert_eq!(config.set_names(), vec![v("work"), v("home")]);
}

#[test]
fn well_formed_config_passes_check() {
    assert!(two_set_config().check_wf());
}

#[test]
fn duplicate_set_names_fail_check() {
    let mut config = two_set_config();
    config.sets.push(named_set("work", false, &[]));
    assert!(!config.check_wf());
}

#[test]
fn duplicate_entry_keys_fail_check() {
    let mut config = two_set_config();
    config.sets.push(named_set("extra", false, &[("k", "1"), ("k", "2")]));
    assert!(!config.check_wf());
}

#[test]
fn defaults_match_declared_policy() {
    assert!(default_backup_value());
    assert!(!default_whitelist_only());
}

#[test]
fn backup_name_joins_segments_with_dots() {
    let segs = vec![v("home"), v("user"), v("notes.txt")];
    assert_eq!(backup_file_name(&segs), v("home.user.notes.txt"));
}

#[test]
fn backup_name_single_segment() {
    assert_eq!(backup_file_name(&vec![v("alone")]), v("alone"));
}

#[test]
fn backup_name_no_segments() {
    assert_eq!(backup_file_name(&Vec::new()), v(""));
}

#[test]
fn backup_name_is_stable_across_runs() {
    let segs = vec![v("etc"), v("app"), v("app.conf")];
    assert_eq!(backup_file_name(&segs), backup_file_name(&segs));
}

#[test]
fn template_path_joins_onto_config_root() {
    assert_eq!(resolve_template_path(&v("cfg"), &v("site.tmpl")), v("cfg/site.tmpl"));
}

#[test]
fn template_path_keeps_existing_separator() {
    assert_eq!(resolve_template_path(&v("cfg/"), &v("site.tmpl")), v("cfg/site.tmpl"));
}

#[test]
fn absolute_template_path_is_used_as_given() {
    assert_eq!(resolve_template_path(&v("cfg"), &v("/abs/site.tmpl")), v("/abs/site.tmpl"));
}

#[test]
fn empty_config_root_leaves_template_path_alone() {
    assert_eq!(resolve_template_path(&v(""), &v("site.tmpl")), v("site.tmpl"));
}

#[test]
fn io_error_display_carries_message() {
    let e = std::io::Error::new(std::io::ErrorKind::NotFound, "boom");
    assert_eq!(display_io_error(e), "boom".to_string());
}
