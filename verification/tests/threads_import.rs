use just_notes::threads::import::{
    allocate_import_id, import_failure_message, install_step, is_import_variant, validate_source,
    InstallStep, PlanDraft, PlannedCopy, RecordingStore,
};

fn ids(list: &[&str]) -> Vec<String> {
    list.iter().map(|s| s.to_string()).collect()
}

#[test]
fn import_variants_are_the_original_and_its_preserved_copies() {
    assert!(is_import_variant("collision", "collision"));
    assert!(is_import_variant("collision", "collision-imported"));
    assert!(is_import_variant("collision", "collision-imported-2"));
    assert!(is_import_variant("collision", "collision-imported-17"));
    assert!(!is_import_variant("collision", "collision-imported-"));
    assert!(!is_import_variant("collision", "collision-imported-x"));
    assert!(!is_import_variant("collision", "collision-imported2"));
    assert!(!is_import_variant("collision", "collision-2"));
    assert!(!is_import_variant("collision", "other"));
}

#[test]
fn the_first_free_import_id_is_allocated() {
    assert_eq!(allocate_import_id("collision", &ids(&["collision"])), "collision-imported");
    assert_eq!(
        allocate_import_id("collision", &ids(&["collision", "collision-imported"])),
        "collision-imported-2"
    );
    assert_eq!(
        allocate_import_id(
            "collision",
            &ids(&["collision-imported-2", "collision", "collision-imported"])
        ),
        "collision-imported-3"
    );
}

#[test]
fn an_allocated_id_is_recognised_on_the_next_run() {
    let occupied = ids(&["collision", "collision-imported"]);
    let id = allocate_import_id("collision", &occupied);
    assert!(is_import_variant("collision", &id));
}

#[test]
fn a_taken_id_gets_a_replacement_and_counts_a_conflict() {
    let mut draft = PlanDraft::new(ids(&["collision"]));
    assert_eq!(draft.replacement_id("fresh"), None);
    assert_eq!(draft.conflicts, 0);
    assert_eq!(draft.replacement_id("collision"), Some("collision-imported".to_string()));
    assert_eq!(draft.conflicts, 1);
}

#[test]
fn recordings_are_planned_under_free_ids() {
    let mut draft = PlanDraft::new(ids(&["collision"]));
    assert_eq!(
        draft.add_recording(RecordingStore::Active, "collision", false, 10),
        Some(PlannedCopy {
            destination_id: "collision-imported".to_string(),
            replacement_id: Some("collision-imported".to_string()),
        })
    );
    assert_eq!(
        draft.add_recording(RecordingStore::Archived, "collision", false, 5),
        Some(PlannedCopy {
            destination_id: "collision-imported-2".to_string(),
            replacement_id: Some("collision-imported-2".to_string()),
        })
    );
    assert_eq!(
        draft.add_recording(RecordingStore::Active, "old-active", false, 1),
        Some(PlannedCopy { destination_id: "old-active".to_string(), replacement_id: None })
    );
    assert_eq!(draft.add_recording(RecordingStore::Active, "same", true, 100), None);
    assert_eq!(draft.active_recordings, 2);
    assert_eq!(draft.archived_recordings, 1);
    assert_eq!(draft.duplicates, 1);
    assert_eq!(draft.conflicts, 2);
    assert_eq!(draft.bytes_to_copy, 16);
    assert_eq!(
        draft.copy_candidates("collision"),
        ids(&["collision", "collision-imported", "collision-imported-2"])
    );
    assert!(draft.finish().is_ok());
}

#[test]
fn an_empty_source_is_refused() {
    let draft = PlanDraft::new(Vec::new());
    assert_eq!(
        draft.finish(),
        Err("The selected legacy data contains no recordings".to_string())
    );
}

#[test]
fn the_source_must_be_the_legacy_folder_itself() {
    assert_eq!(
        validate_source(Some("old"), true, true),
        Err("Choose the existing .just-notes folder".to_string())
    );
    assert_eq!(
        validate_source(None, true, true),
        Err("Choose the existing .just-notes folder".to_string())
    );
    assert_eq!(
        validate_source(Some(".just-notes"), false, false),
        Err("The selected folder does not contain Just Notes recordings".to_string())
    );
    assert_eq!(validate_source(Some(".just-notes"), false, true), Ok(()));
}

#[test]
fn installation_proceeds_copy_by_copy_and_rolls_back_latest_first() {
    assert_eq!(install_step(0, 3, Ok(())), InstallStep::Install(1));
    assert_eq!(install_step(2, 3, Ok(())), InstallStep::Finished);
    assert_eq!(
        install_step(2, 3, Err("late collision".to_string())),
        InstallStep::RollBack { undo: vec![1, 0], error: "late collision".to_string() }
    );
    assert_eq!(
        install_step(0, 3, Err("late collision".to_string())),
        InstallStep::RollBack { undo: Vec::new(), error: "late collision".to_string() }
    );
}

#[test]
fn a_failed_import_reports_an_incomplete_rollback() {
    assert_eq!(import_failure_message("Copy failed", &Vec::new()), "Copy failed.");
    assert_eq!(
        import_failure_message(
            "Copy failed",
            &vec!["could not remove a".to_string(), "could not remove b".to_string()]
        ),
        "Copy failed. Rollback was incomplete: could not remove a; could not remove b"
    );
}
