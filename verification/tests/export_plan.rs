use cr_ui::export::{export_plan, export_result, export_sources, trash_outcome, ExportFlags, ExportPlan, ExportedBook};

fn flags() -> ExportFlags {
    ExportFlags {
        replace_source: false,
        embed_comic_info: false,
        embed_comic_book: false,
        processing_from_comic: false,
        delete_original: false,
        add_to_library: false,
    }
}

fn local_book() -> ExportedBook {
    ExportedBook { local: true, is_output: false, info_dirty: true, book_dirty: true }
}

#[test]
fn replacing_a_local_source_keeps_the_book_and_trashes_the_originals() {
    let f = ExportFlags { replace_source: true, embed_comic_info: true, processing_from_comic: true, ..flags() };
    let plan = export_plan(f, local_book());
    assert_eq!(
        plan,
        ExportPlan {
            replace_in_place: true,
            trash_sources: true,
            add_new_book: false,
            reset_color: true,
            clear_info_dirty: true,
            clear_book_dirty: false,
            refresh_kept_book: false,
        }
    );
}

#[test]
fn deleting_originals_and_adding_the_output() {
    let f = ExportFlags { delete_original: true, add_to_library: true, ..flags() };
    let plan = export_plan(f, local_book());
    assert!(!plan.replace_in_place);
    assert!(plan.trash_sources);
    assert!(plan.add_new_book);
    assert!(!plan.reset_color);
}

#[test]
fn a_book_without_a_file_keeps_nothing_to_trash() {
    let f = ExportFlags { replace_source: true, delete_original: true, ..flags() };
    let book = ExportedBook { local: false, ..local_book() };
    let plan = export_plan(f, book);
    assert!(!plan.replace_in_place);
    assert!(!plan.trash_sources);
    // A replace target still adds the output as a new book.
    assert!(plan.add_new_book);
}

#[test]
fn a_book_already_at_the_output_only_drops_saved_dirty_flags() {
    let f = ExportFlags { embed_comic_book: true, ..flags() };
    let book = ExportedBook { is_output: true, ..local_book() };
    let plan = export_plan(f, book);
    assert!(plan.refresh_kept_book);
    assert!(plan.clear_book_dirty);
    assert!(!plan.clear_info_dirty);
    assert!(!plan.add_new_book);
}

#[test]
fn sources_skip_fileless_books_and_the_output() {
    let paths = vec!["/in/a.cbz".to_string(), String::new(), "/out/a.cbz".to_string(), "/in/b.cbz".to_string()];
    assert_eq!(export_sources(&paths, "/out/a.cbz"), vec!["/in/a.cbz".to_string(), "/in/b.cbz".to_string()]);
    assert!(export_sources(&Vec::new(), "/out/a.cbz").is_empty());
}

#[test]
fn an_untrashable_source_stays_and_is_reported() {
    let sources = vec!["/in/a.cbz".to_string(), "/usb/b.cbz".to_string(), "/in/c.cbz".to_string()];
    let (removed, errors) = trash_outcome(&sources, &vec![true, false, true]);
    assert_eq!(removed, vec!["/in/a.cbz".to_string(), "/in/c.cbz".to_string()]);
    assert_eq!(errors, vec!["could not trash the original file: /usb/b.cbz".to_string()]);
    assert_eq!(export_result(&errors), Err("could not trash the original file: /usb/b.cbz".to_string()));
    assert_eq!(export_result(&Vec::new()), Ok(()));
    assert_eq!(export_result(&vec!["x".to_string(), "y".to_string()]), Err("x; y".to_string()));
}
