use chml_cli::normalize::{plan_normalize, DirEntryInfo, NormalizeStep};
use std::collections::BTreeMap;

fn entry(name: &str, is_dir: bool) -> DirEntryInfo {
    DirEntryInfo { name: name.to_string(), is_dir }
}

fn describe(steps: &[NormalizeStep]) -> Vec<String> {
    steps
        .iter()
        .map(|s| match s {
            NormalizeStep::RemoveStable => "remove".to_string(),
            NormalizeStep::RenameToStable { from } => format!("rename {}", from),
        })
        .collect()
}

/// Applies the steps to a directory given as child name -> contents.
fn apply(steps: &[NormalizeStep], dir: &mut BTreeMap<String, Vec<&'static str>>) {
    for s in steps {
        match s {
            NormalizeStep::RemoveStable => {
                dir.remove("chmlfrp");
            }
            NormalizeStep::RenameToStable { from } => {
                let c = dir.remove(from).unwrap();
                assert!(!dir.contains_key("chmlfrp"));
                dir.insert("chmlfrp".to_string(), c);
            }
        }
    }
}

#[test]
fn release_dir_becomes_stable_dir() {
    let entries = vec![entry("download", true), entry("ChmlFrp-1.2.3", true), entry("config.js", false)];
    let steps = plan_normalize(&entries, false);
    assert_eq!(describe(&steps), vec!["rename ChmlFrp-1.2.3"]);
    let mut dir = BTreeMap::new();
    dir.insert("download".to_string(), vec!["x.tar.gz"]);
    dir.insert("ChmlFrp-1.2.3".to_string(), vec!["frpc", "frpc.ini"]);
    dir.insert("config.js".to_string(), vec![]);
    apply(&steps, &mut dir);
    assert_eq!(dir.get("chmlfrp"), Some(&vec!["frpc", "frpc.ini"]));
    assert!(!dir.contains_key("ChmlFrp-1.2.3"));
    assert_eq!(dir.keys().filter(|k| k.as_str() == "chmlfrp").count(), 1);
    assert_eq!(dir.len(), 3);
}

#[test]
fn existing_stable_dir_is_replaced() {
    let entries = vec![entry("chmlfrp", true), entry("ChmlFrp-1.2.3", true)];
    let steps = plan_normalize(&entries, true);
    assert_eq!(describe(&steps), vec!["remove", "rename ChmlFrp-1.2.3"]);
    let mut dir = BTreeMap::new();
    dir.insert("chmlfrp".to_string(), vec!["old-frpc", "stale.txt"]);
    dir.insert("ChmlFrp-1.2.3".to_string(), vec!["frpc"]);
    apply(&steps, &mut dir);
    assert_eq!(dir.get("chmlfrp"), Some(&vec!["frpc"]));
    assert!(!dir.contains_key("ChmlFrp-1.2.3"));
    assert_eq!(dir.len(), 1);
}

#[test]
fn no_release_dir_is_a_no_op() {
    let entries = vec![entry("chmlfrp", true), entry("download", true)];
    assert!(plan_normalize(&entries, true).is_empty());
    assert!(plan_normalize(&Vec::new(), false).is_empty());
}

#[test]
fn release_named_file_is_ignored() {
    let entries = vec![entry("ChmlFrp-0.51.2_240715_linux_amd64.tar.gz", false), entry("chmlfrp-1.0", true)];
    assert!(plan_normalize(&entries, false).is_empty());
}

#[test]
fn several_release_dirs_follow_listing_order() {
    let entries = vec![entry("ChmlFrp-1.0", true), entry("other", true), entry("ChmlFrp-2.0", true)];
    let steps = plan_normalize(&entries, false);
    assert_eq!(describe(&steps), vec!["rename ChmlFrp-1.0", "remove", "rename ChmlFrp-2.0"]);
}
