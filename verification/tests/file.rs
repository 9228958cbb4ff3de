use lle_gui::file::{
    model_file_pattern, try_poll, FileError, FileManager, FileStorage, ReadSource,
};

#[test]
fn read_needs_a_file_and_prefers_cache() {
    let mut m: FileManager<String> = FileManager::default_state();
    assert_eq!(m.name(), "Save state");
    assert_eq!(m.start_read(), Err(FileError::ReadFileNotSet));
    assert_eq!(FileError::ReadFileNotSet.message(), "Read file not set");
    m.update_read("model.lle.ron".to_string());
    assert_eq!(m.start_read(), Ok(ReadSource::File));
    m.loaded(b"(dim: 128)".to_vec());
    assert_eq!(m.start_read(), Ok(ReadSource::Cache));
    assert_eq!(m.cache().unwrap().as_slice(), b"(dim: 128)");
    m.refresh_cache();
    assert_eq!(m.start_read(), Ok(ReadSource::File));
    m.loaded(vec![1]);
    m.update_read("other.lle.ron".to_string());
    assert_eq!(m.start_read(), Ok(ReadSource::File));
    assert!(m.cache().is_none());
}

#[test]
fn write_needs_a_save_file() {
    let mut m: FileManager<String> = FileManager::default_check_points();
    assert_eq!(m.name(), "Save checkpoints");
    assert_eq!(m.start_write(), Err(FileError::SaveFileNotSet));
    assert_eq!(FileError::SaveFileNotSet.message(), "Save file not set");
    m.update_save("cp.lle.cp.ron".to_string());
    assert_eq!(m.start_write(), Ok(()));
    assert_eq!(m.save().as_deref(), Some("cp.lle.cp.ron"));
}

#[test]
fn storage_round_trip_drops_cache() {
    let mut m: FileManager<String> = FileManager::new("Save state");
    m.update_read("a".to_string());
    m.update_save("b".to_string());
    m.loaded(vec![1, 2]);
    let s: FileStorage<String> = m.to_storage();
    assert_eq!(s.name, "Save state");
    assert_eq!(s.read.as_deref(), Some("a"));
    assert_eq!(s.save.as_deref(), Some("b"));
    let back = FileManager::from_storage(s);
    assert_eq!(back.read().as_deref(), Some("a"));
    assert!(back.cache().is_none());
    let copy = m.clone_for_save();
    assert!(copy.cache().is_none());
    assert_eq!(copy.save().as_deref(), Some("b"));
}

#[test]
fn file_pattern_adds_ron() {
    assert_eq!(model_file_pattern("lle"), "lle.ron");
    assert_eq!(model_file_pattern("lle.cp"), "lle.cp.ron");
}

#[test]
fn poll_takes_finished_result_once() {
    assert_eq!(try_poll::<u32, &str>(None), (None, None));
    assert_eq!(try_poll::<u32, &str>(Some(Ok(7))), (Some(7), None));
}

#[test]
fn poll_keeps_pending_task() {
    assert_eq!(try_poll::<u32, &str>(Some(Err("running"))), (None, Some("running")));
}
