use livereload_core::debounce::Debouncer;
use livereload_core::watch::default_watch_targets;
use livereload_core::watch::path_is_under;

#[test]
fn both_directories_are_watched_recursively() {
    let targets = default_watch_targets();
    assert_eq!(targets.len(), 2);
    assert_eq!(targets[0].path, b"templates".to_vec());
    assert!(targets[0].recursive);
    assert_eq!(targets[1].path, b"assets".to_vec());
    assert!(targets[1].recursive);
}

#[test]
fn files_below_a_watched_directory_are_under_it() {
    assert!(path_is_under(&b"templates/home.html".to_vec(), &b"templates".to_vec()));
    assert!(path_is_under(&b"assets/css/main.css".to_vec(), &b"assets".to_vec()));
}

#[test]
fn the_directory_itself_is_under_itself() {
    assert!(path_is_under(&b"templates".to_vec(), &b"templates".to_vec()));
}

#[test]
fn a_sibling_with_a_shared_prefix_is_not_under_the_directory() {
    assert!(!path_is_under(&b"templates-old/home.html".to_vec(), &b"templates".to_vec()));
    assert!(!path_is_under(&b"assetsX".to_vec(), &b"assets".to_vec()));
}

#[test]
fn events_from_both_directories_coalesce_within_the_window() {
    let targets = default_watch_targets();
    let template_event = b"templates/home.html".to_vec();
    let asset_event = b"assets/main.css".to_vec();
    assert!(path_is_under(&template_event, &targets[0].path));
    assert!(path_is_under(&asset_event, &targets[1].path));
    let mut d = Debouncer::new(100);
    assert!(d.on_event(10));
    assert!(!d.on_event(50));
}

#[test]
fn events_from_both_directories_outside_the_window_fire_twice() {
    let targets = default_watch_targets();
    assert!(path_is_under(&b"templates/home.html".to_vec(), &targets[0].path));
    assert!(path_is_under(&b"assets/main.css".to_vec(), &targets[1].path));
    let mut d = Debouncer::new(100);
    assert!(d.on_event(10));
    assert!(d.on_event(150));
}

#[test]
fn an_unrelated_path_is_not_under_a_watched_directory() {
    assert!(!path_is_under(&b"src/main.rs".to_vec(), &b"templates".to_vec()));
    assert!(!path_is_under(&b"tem".to_vec(), &b"templates".to_vec()));
}
