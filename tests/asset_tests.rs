use scene_editor::assets::{is_valid_image_format, AssetImporter, ImportError};

#[test]
fn image_formats_by_extension() {
    assert!(is_valid_image_format("assets/ship.png"));
    assert!(is_valid_image_format("ship.jpg"));
    assert!(is_valid_image_format("a/b/c.jpeg"));
    assert!(!is_valid_image_format("ship.gif"));
    assert!(!is_valid_image_format("png"));
    assert!(!is_valid_image_format(".png"));
    assert!(!is_valid_image_format("ship.PNG"));
    assert!(!is_valid_image_format(""));
}

#[test]
fn import_queue_lifecycle() {
    let mut imp = AssetImporter::new();
    imp.queue_import("a.png".to_string());
    imp.queue_import("a.png".to_string());
    imp.queue_import("b.png".to_string());
    assert_eq!(imp.import_queue, vec!["a.png".to_string(), "b.png".to_string()]);
    imp.start_import("a.png".to_string());
    assert_eq!(imp.import_queue, vec!["b.png".to_string()]);
    assert_eq!(imp.pending_imports, vec!["a.png".to_string()]);
    imp.queue_import("a.png".to_string());
    assert_eq!(imp.import_queue.len(), 1);
    imp.start_import("missing.png".to_string());
    assert_eq!(imp.pending_imports.len(), 1);
    imp.complete_import(&"a.png".to_string());
    assert!(imp.pending_imports.is_empty());
    imp.start_import("b.png".to_string());
    imp.fail_import("b.png".to_string(), "decode error".to_string());
    assert!(imp.pending_imports.is_empty());
    assert_eq!(imp.failed_imports, vec![("b.png".to_string(), "decode error".to_string())]);
    imp.clear_failed_imports();
    assert!(imp.failed_imports.is_empty());
}

#[test]
fn unsupported_format_is_refused() {
    let mut imp = AssetImporter::new();
    assert_eq!(imp.request_import("notes.txt".to_string()), Err(ImportError::UnsupportedFormat));
    assert!(imp.import_queue.is_empty());
    assert_eq!(imp.request_import("tree.jpeg".to_string()), Ok(()));
    assert_eq!(imp.import_queue, vec!["tree.jpeg".to_string()]);
}

fn meta(path: &str, size: u64) -> scene_editor::assets::AssetMetadata {
    scene_editor::assets::AssetMetadata {
        name: path.to_string(),
        path: path.to_string(),
        file_size: size,
        image_dimensions: Some((32, 32)),
        import_date: "2024-01-01".to_string(),
        last_modified: "2024-01-02".to_string(),
    }
}

#[test]
fn registry_keeps_one_entry_per_path() {
    let mut reg = scene_editor::assets::AssetRegistry::new();
    assert!(!reg.is_loaded(&"a.png".to_string()));
    reg.register_image(meta("a.png", 10));
    reg.register_image(meta("b.png", 20));
    reg.register_image(meta("a.png", 30));
    assert!(reg.is_loaded(&"a.png".to_string()));
    assert_eq!(reg.get_metadata(&"a.png".to_string()).unwrap().file_size, 30);
    assert_eq!(reg.get_metadata(&"b.png".to_string()).unwrap().file_size, 20);
    assert!(reg.get_metadata(&"c.png".to_string()).is_none());
    assert_eq!(reg.get_loaded_paths(), vec!["a.png".to_string(), "b.png".to_string()]);
}

#[test]
fn registry_tracks_loading() {
    let mut reg = scene_editor::assets::AssetRegistry::new();
    reg.start_loading("a.png".to_string());
    reg.start_loading("a.png".to_string());
    assert_eq!(reg.loading_assets.len(), 1);
    assert!(reg.is_loading(&"a.png".to_string()));
    reg.finish_loading(&"a.png".to_string());
    assert!(!reg.is_loading(&"a.png".to_string()));
    reg.finish_loading(&"a.png".to_string());
    assert!(reg.loading_assets.is_empty());
}
