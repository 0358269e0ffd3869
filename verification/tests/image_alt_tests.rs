use extended_ui::image_alt::{image_source, is_src_empty, AltAction, ImgAltState, ImgFallback, LoadStatus};

#[test]
fn blank_sources_count_as_none() {
    assert!(is_src_empty(None));
    assert!(is_src_empty(Some("   ")));
    assert!(!is_src_empty(Some("a.png")));
    assert_eq!(image_source(Some(" ")), None);
    assert_eq!(image_source(Some("a.png")), Some("a.png".to_string()));
    assert_eq!(image_source(None), None);
}

#[test]
fn missing_source_shows_the_alt_text_at_once() {
    let mut s = ImgAltState::new();
    assert_eq!(s.fallback, ImgFallback::ImageShown);
    let a = s.on_change(None, "  A cat  ");
    assert!(matches!(a, AltAction::Show(ref t) if t == "A cat"));
    assert_eq!(s.fallback, ImgFallback::AltShown);
    assert!(s.has_node);
    assert_eq!(s.cached, "A cat");
}

#[test]
fn blank_alt_text_shows_nothing() {
    let mut s = ImgAltState::new();
    let a = s.on_change(None, "   ");
    assert!(matches!(a, AltAction::Nothing));
    assert!(!s.has_node);
    assert_eq!(s.fallback, ImgFallback::AltShown);
}

#[test]
fn a_source_waits_for_loading() {
    let mut s = ImgAltState::new();
    let a = s.on_change(Some("a.png"), "A cat");
    assert!(matches!(a, AltAction::Nothing));
    assert_eq!(s.fallback, ImgFallback::ImageShown);
    let a = s.on_load_status(Some("a.png"), "A cat", LoadStatus::Pending);
    assert!(matches!(a, AltAction::Nothing));
}

#[test]
fn failed_load_shows_then_updates_then_loaded_removes() {
    let mut s = ImgAltState::new();
    s.on_change(Some("a.png"), "A cat");
    let a = s.on_load_status(Some("a.png"), "A cat", LoadStatus::Failed);
    assert!(matches!(a, AltAction::Show(ref t) if t == "A cat"));
    assert_eq!(s.fallback, ImgFallback::AltShown);
    let a = s.on_load_status(Some("a.png"), "A cat", LoadStatus::Failed);
    assert!(matches!(a, AltAction::Nothing));
    let a = s.on_load_status(Some("a.png"), " A dog ", LoadStatus::Failed);
    assert!(matches!(a, AltAction::Update(ref t) if t == "A dog"));
    assert_eq!(s.cached, "A dog");
    let a = s.on_load_status(Some("a.png"), "A dog", LoadStatus::Loaded);
    assert!(matches!(a, AltAction::Remove));
    assert_eq!(s.fallback, ImgFallback::ImageShown);
    assert!(!s.has_node);
    let a = s.on_load_status(Some("a.png"), "A dog", LoadStatus::Loaded);
    assert!(matches!(a, AltAction::Nothing));
}

#[test]
fn load_status_without_source_does_nothing() {
    let mut s = ImgAltState::new();
    let a = s.on_load_status(None, "A cat", LoadStatus::Failed);
    assert!(matches!(a, AltAction::Nothing));
    assert_eq!(s.fallback, ImgFallback::ImageShown);
}
