use auto_import::scan::{
    scan_exports, scan_exports_with_stem, Export, ExportEvent, ExportForm, NameBinding, ScanError,
};

fn event(form: ExportForm) -> ExportEvent {
    ExportEvent { form, default_name: None, name: None, named_exports: None, type_named_exports: None }
}

fn default_event(name: &str) -> ExportEvent {
    ExportEvent { default_name: Some(name.to_string()), ..event(ExportForm::Default) }
}

fn direct_event(form: ExportForm, name: &str) -> ExportEvent {
    ExportEvent { name: Some(name.to_string()), ..event(form) }
}

fn binding(local: &str, exported: &str) -> NameBinding {
    NameBinding { local: local.to_string(), exported: exported.to_string() }
}

fn named_event(entries: Vec<NameBinding>) -> ExportEvent {
    ExportEvent { named_exports: Some(entries), ..event(ExportForm::Named) }
}

fn type_event(entries: Vec<NameBinding>) -> ExportEvent {
    ExportEvent { type_named_exports: Some(entries), ..event(ExportForm::TypeOnly) }
}

fn plain(path: &str, name: &str) -> Export {
    Export {
        source_path: path.to_string(),
        exported_name: name.to_string(),
        local_name: None,
        priority: 0,
        disabled: None,
        dts_declaration_disabled: None,
        declaration_kind: None,
        is_type_only: None,
        type_origin_label: None,
        alias: None,
    }
}

#[test]
fn default_export_gives_one_record() {
    let records = scan_exports("src/app.ts", &vec![default_event("App")]).unwrap();
    assert_eq!(records.len(), 1);
    assert_eq!(records[0].exported_name, "App");
    assert_eq!(records[0].is_type_only, None);
    assert_eq!(records[0].priority, 0);
    assert_eq!(records, vec![plain("src/app.ts", "App")]);
}

#[test]
fn named_export_gives_one_record_per_entry_in_source_order() {
    let events = vec![named_event(vec![binding("a", "a"), binding("b", "c")])];
    let records = scan_exports("src/names.ts", &events).unwrap();
    assert_eq!(records.len(), 2);
    assert_eq!(records[0].exported_name, "a");
    assert_eq!(records[1].exported_name, "c");
    assert_eq!(records[0].is_type_only, None);
    assert_eq!(records[1].is_type_only, None);
    assert_eq!(records[0].type_origin_label, None);
    assert_eq!(records[1].type_origin_label, None);
}

#[test]
fn named_export_keeps_the_local_name_and_leaves_the_alias_unset() {
    let events = vec![named_event(vec![binding("a", "a"), binding("b", "c")])];
    let records = scan_exports("src/names.ts", &events).unwrap();
    assert_eq!(records[0].local_name, Some("a".to_string()));
    assert_eq!(records[1].local_name, Some("b".to_string()));
    assert_eq!(records[0].alias, None);
    assert_eq!(records[1].alias, None);
}

#[test]
fn type_export_is_marked_and_labelled_with_the_pascal_case_stem() {
    let events = vec![type_event(vec![binding("X", "Y")])];
    let records = scan_exports("packages/core/src/my-utils.ts", &events).unwrap();
    assert_eq!(records.len(), 1);
    assert_eq!(records[0].exported_name, "Y");
    assert_eq!(records[0].is_type_only, Some(true));
    assert_eq!(records[0].type_origin_label, Some("MyUtils".to_string()));
    assert_eq!(records[0].local_name, Some("X".to_string()));
    assert_eq!(records[0].source_path, "packages/core/src/my-utils.ts");
}

#[test]
fn single_word_stem_labels_types_unchanged() {
    let events = vec![type_event(vec![binding("Options", "Options"), binding("Inner", "Outer")])];
    let records = scan_exports("utils.ts", &events).unwrap();
    assert_eq!(records.len(), 2);
    assert_eq!(records[0].type_origin_label, Some("utils".to_string()));
    assert_eq!(records[1].type_origin_label, Some("utils".to_string()));
    assert_eq!(records[1].exported_name, "Outer");
}

#[test]
fn no_events_give_no_records() {
    assert_eq!(scan_exports("src/empty.ts", &vec![]), Ok(vec![]));
}

#[test]
fn declaration_export_gives_one_record() {
    let events = vec![direct_event(ExportForm::Declaration, "foo")];
    assert_eq!(scan_exports("src/foo.ts", &events), Ok(vec![plain("src/foo.ts", "foo")]));
}

#[test]
fn namespace_export_gives_one_record() {
    let events = vec![direct_event(ExportForm::Namespace, "ns")];
    assert_eq!(scan_exports("src/index.ts", &events), Ok(vec![plain("src/index.ts", "ns")]));
}

#[test]
fn each_form_reads_its_own_name() {
    let mut default = default_event("Main");
    default.name = Some("ignored".to_string());
    let mut declared = direct_event(ExportForm::Declaration, "helper");
    declared.default_name = Some("ignored".to_string());
    let records = scan_exports("src/main.ts", &vec![default, declared]).unwrap();
    assert_eq!(records, vec![plain("src/main.ts", "Main"), plain("src/main.ts", "helper")]);
}

#[test]
fn each_form_reads_its_own_entries() {
    let mut named = named_event(vec![binding("a", "a")]);
    named.type_named_exports = Some(vec![binding("T", "T")]);
    let mut typed = type_event(vec![binding("U", "U")]);
    typed.named_exports = Some(vec![binding("b", "b")]);
    let records = scan_exports("src/mixed.ts", &vec![named, typed]).unwrap();
    assert_eq!(records.len(), 2);
    assert_eq!(records[0].exported_name, "a");
    assert_eq!(records[0].is_type_only, None);
    assert_eq!(records[1].exported_name, "U");
    assert_eq!(records[1].is_type_only, Some(true));
}

#[test]
fn named_export_without_entries_gives_no_records() {
    assert_eq!(scan_exports("src/a.ts", &vec![event(ExportForm::Named)]), Ok(vec![]));
    assert_eq!(scan_exports("src/a.ts", &vec![named_event(vec![])]), Ok(vec![]));
}

#[test]
fn type_export_without_entries_gives_no_records() {
    assert_eq!(scan_exports("src/a.ts", &vec![event(ExportForm::TypeOnly)]), Ok(vec![]));
    assert_eq!(scan_exports("src/a.ts", &vec![type_event(vec![])]), Ok(vec![]));
}

#[test]
fn records_follow_the_order_of_the_events() {
    let events = vec![
        direct_event(ExportForm::Declaration, "first"),
        named_event(vec![binding("x", "second"), binding("third", "third")]),
        type_event(vec![binding("T", "Fourth")]),
        default_event("fifth"),
        direct_event(ExportForm::Namespace, "sixth"),
    ];
    let records = scan_exports("lib/date_time.ts", &events).unwrap();
    let names: Vec<&str> = records.iter().map(|r| r.exported_name.as_str()).collect();
    assert_eq!(names, vec!["first", "second", "third", "Fourth", "fifth", "sixth"]);
    let labels: Vec<Option<&str>> = records.iter().map(|r| r.type_origin_label.as_deref()).collect();
    assert_eq!(labels, vec![None, None, None, Some("DateTime"), None, None]);
}

#[test]
fn every_record_carries_the_path_and_nothing_reserved() {
    let events = vec![
        default_event("a"),
        named_event(vec![binding("b", "b")]),
        type_event(vec![binding("C", "C")]),
    ];
    let records = scan_exports("src/all.ts", &events).unwrap();
    assert_eq!(records.len(), 3);
    for record in &records {
        assert_eq!(record.source_path, "src/all.ts");
        assert_eq!(record.priority, 0);
        assert_eq!(record.disabled, None);
        assert_eq!(record.dts_declaration_disabled, None);
        assert_eq!(record.declaration_kind, None);
        assert_eq!(record.alias, None);
        assert!(!record.exported_name.is_empty());
    }
}

#[test]
fn duplicate_names_are_kept() {
    let events = vec![default_event("a"), named_event(vec![binding("a", "a")])];
    let records = scan_exports("src/dup.ts", &events).unwrap();
    assert_eq!(records.len(), 2);
    assert_eq!(records[0].exported_name, records[1].exported_name);
}

#[test]
fn default_export_without_name_fails() {
    let outcome = scan_exports("src/app.ts", &vec![event(ExportForm::Default)]);
    assert_eq!(
        outcome,
        Err(ScanError::MissingExportName {
            source_path: "src/app.ts".to_string(),
            form: ExportForm::Default,
        })
    );
}

#[test]
fn declaration_export_without_name_fails() {
    let outcome = scan_exports("src/app.ts", &vec![event(ExportForm::Declaration)]);
    assert_eq!(
        outcome,
        Err(ScanError::MissingExportName {
            source_path: "src/app.ts".to_string(),
            form: ExportForm::Declaration,
        })
    );
}

#[test]
fn namespace_export_without_name_fails() {
    let outcome = scan_exports("src/app.ts", &vec![default_event("ok"), event(ExportForm::Namespace)]);
    assert_eq!(
        outcome,
        Err(ScanError::MissingExportName {
            source_path: "src/app.ts".to_string(),
            form: ExportForm::Namespace,
        })
    );
}

#[test]
fn the_first_event_without_name_is_reported() {
    let events = vec![
        named_event(vec![binding("a", "a")]),
        event(ExportForm::Declaration),
        event(ExportForm::Default),
    ];
    assert_eq!(
        scan_exports("src/app.ts", &events),
        Err(ScanError::MissingExportName {
            source_path: "src/app.ts".to_string(),
            form: ExportForm::Declaration,
        })
    );
}

#[test]
fn path_without_file_name_fails() {
    let expected = |path: &str| Err(ScanError::MissingFileStem { source_path: path.to_string() });
    assert_eq!(scan_exports("", &vec![]), expected(""));
    assert_eq!(scan_exports("src/..", &vec![default_event("a")]), expected("src/.."));
    assert_eq!(scan_exports("/", &vec![event(ExportForm::Default)]), expected("/"));
}

#[test]
fn scan_with_a_given_stem_uses_that_stem() {
    let events = vec![type_event(vec![binding("X", "Y")])];
    let records = scan_exports_with_stem("anywhere.ts", Some("deep_merge"), &events).unwrap();
    assert_eq!(records[0].type_origin_label, Some("DeepMerge".to_string()));
    assert_eq!(records[0].source_path, "anywhere.ts");
}

#[test]
fn scan_with_no_stem_fails() {
    assert_eq!(
        scan_exports_with_stem("anywhere.ts", None, &vec![]),
        Err(ScanError::MissingFileStem { source_path: "anywhere.ts".to_string() })
    );
}

#[test]
fn scan_agrees_with_scan_with_the_stem_of_the_path() {
    let events = vec![
        type_event(vec![binding("A", "B")]),
        default_event("c"),
        named_event(vec![binding("d", "e")]),
    ];
    assert_eq!(
        scan_exports("src/api/user-profile.service.ts", &events),
        scan_exports_with_stem("src/api/user-profile.service.ts", Some("user-profile.service"), &events)
    );
}
