//! Reading PTX files.

use xlog_cuda_tests::ptx::{
    choose_ptx, extract_entry_names, extract_ptx_directive, judge, parse_sm_target, Defect,
    PtxFile,
};

#[test]
fn directives_give_their_first_word() {
    let ptx = ".version 7.0\r\n  .target   sm_70, debug\n.address_size 64\n";
    assert_eq!(extract_ptx_directive(ptx, ".target"), Some("sm_70,".to_string()));
    assert_eq!(extract_ptx_directive(ptx, ".version"), Some("7.0".to_string()));
    assert_eq!(extract_ptx_directive(ptx, ".address_size"), Some("64".to_string()));
    assert_eq!(extract_ptx_directive(ptx, ".entry"), None);
}

#[test]
fn a_directive_without_argument_is_passed_over() {
    assert_eq!(
        extract_ptx_directive(".target\n.target  \n.target sm_80", ".target"),
        Some("sm_80".to_string())
    );
    assert_eq!(extract_ptx_directive("", ".target"), None);
    assert_eq!(extract_ptx_directive("// .target sm_80", ".target"), None);
}

#[test]
fn entries_are_listed_in_order() {
    let ptx = ".visible .entry first(\n  .entry second (a)\n.func third(\n.entry fourth\n.entry (\n";
    assert_eq!(extract_entry_names(ptx), vec!["first".to_string(), "second".to_string()]);
    assert_eq!(extract_entry_names(""), Vec::<String>::new());
    assert_eq!(extract_entry_names(".entry a(.entry b("), vec!["a".to_string()]);
}

#[test]
fn targets_are_numbers_after_sm() {
    assert_eq!(parse_sm_target("sm_70"), Some(70));
    assert_eq!(parse_sm_target("  sm_90 "), Some(90));
    assert_eq!(parse_sm_target("sm_+8"), Some(8));
    assert_eq!(parse_sm_target("sm_007"), Some(7));
    assert_eq!(parse_sm_target("sm_4294967295"), Some(u32::MAX));
    assert_eq!(parse_sm_target("sm_4294967296"), None);
    assert_eq!(parse_sm_target("sm_"), None);
    assert_eq!(parse_sm_target("sm_+"), None);
    assert_eq!(parse_sm_target("sm_-1"), None);
    assert_eq!(parse_sm_target("sm_90a"), None);
    assert_eq!(parse_sm_target("compute_70"), None);
}

fn file(stem: &str, content: Result<&str, &str>) -> PtxFile {
    PtxFile {
        filename: format!("{}.ptx", stem),
        stem: stem.to_string(),
        path: format!("/kernels/{}.ptx", stem),
        content: content.map(|text| text.to_string()).map_err(|reason| reason.to_string()),
    }
}

fn defect(stem: &str, content: Result<&str, &str>) -> Defect {
    match judge(&file(stem, content)) {
        Err(defect) => defect,
        Ok(entries) => panic!("{:?}", entries),
    }
}

#[test]
fn sound_files_give_their_entries() {
    let ptx = ".target sm_75\n.address_size 64\n.visible .entry a(\n.visible .entry b(\n";
    match judge(&file("x", Ok(ptx))) {
        Ok(entries) => assert_eq!(entries, vec!["a".to_string(), "b".to_string()]),
        Err(defect) => panic!("{:?}", defect),
    }
}

#[test]
fn defects_are_found_in_order() {
    assert!(matches!(defect("", Err("gone")), Defect::Stem));
    assert!(matches!(defect("x", Err("gone")), Defect::Unreadable(reason) if reason == "gone"));
    assert!(matches!(defect("x", Ok(".target sm_10")), Defect::AddressSize(size) if size.is_empty()));
    assert!(matches!(
        defect("x", Ok(".address_size 64\n.target sm_69")),
        Defect::Target(target) if target == "sm_69"
    ));
    assert!(matches!(
        defect("x", Ok(".address_size 64\n.target sm_70")),
        Defect::NoEntries
    ));
    assert!(matches!(
        defect("x", Ok(".address_size 64\n.target sm_70\n.entry a(\n.entry b(\n.entry a(")),
        Defect::Duplicate(entry) if entry == "a"
    ));
}

fn chosen(paths: &[&str]) -> Vec<String> {
    choose_ptx(paths.iter().map(|path| path.to_string()).collect())
}

#[test]
fn ptx_files_are_chosen_by_their_ending() {
    assert_eq!(
        chosen(&["/k.ptx/.ptx", "/k/a.cu", "/k/a.ptx", "/k/ptx", "/k/b.PTX", "/k/c.ptx.bak"]),
        vec!["/k/a.ptx".to_string()]
    );
    assert_eq!(chosen(&["/k/..ptx"]), vec!["/k/..ptx".to_string()]);
    assert!(chosen(&["/k/.ptx", ".ptx", ""]).is_empty());
    assert!(chosen(&[]).is_empty());
}

#[test]
fn ptx_files_are_chosen_in_rising_order() {
    let rising = vec!["/k/a.ptx".to_string(), "/k/ab.ptx".to_string(), "/k/b.ptx".to_string()];
    assert_eq!(chosen(&["/k/b.ptx", "/k/a.ptx", "/k/ab.ptx"]), rising);
    assert_eq!(chosen(&["/k/ab.ptx", "/k/x.cu", "/k/b.ptx", "/k/a.ptx"]), rising);
}
