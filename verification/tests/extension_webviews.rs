use muxy::extension_webviews::{visible_extension_webview_area, AreaTabs, TabKind};

/// One area holding the given tabs, the first one active and shown.
fn workspace(tabs: &[(&str, TabKind)]) -> (Vec<AreaTabs>, Vec<(String, String)>) {
    let area = AreaTabs {
        id: "area-1".to_owned(),
        active_tab_id: Some(tabs[0].0.to_owned()),
        tabs: tabs.iter().map(|(id, kind)| (id.to_string(), *kind)).collect(),
    };
    let visible = vec![("area-1".to_owned(), tabs[0].0.to_owned())];
    (vec![area], visible)
}

#[test]
fn focus_routing_accepts_only_the_visible_active_extension_surface() {
    let (areas, visible) = workspace(&[
        ("extension", TabKind::ExtensionWebView),
        ("inactive", TabKind::ExtensionWebView),
    ]);
    assert_eq!(
        visible_extension_webview_area(&areas, &visible, "extension"),
        Some("area-1".to_owned())
    );
    assert_eq!(visible_extension_webview_area(&areas, &visible, "inactive"), None);
    assert_eq!(visible_extension_webview_area(&areas, &visible, "missing"), None);
}

#[test]
fn focus_routing_rejects_non_extension_tabs() {
    let (areas, visible) = workspace(&[("terminal", TabKind::Terminal)]);
    assert_eq!(visible_extension_webview_area(&areas, &visible, "terminal"), None);
}

#[test]
fn an_active_surface_of_a_hidden_area_gets_no_focus() {
    let (areas, _) = workspace(&[("extension", TabKind::ExtensionWebView)]);
    let elsewhere = vec![("area-2".to_owned(), "extension".to_owned())];
    assert_eq!(visible_extension_webview_area(&areas, &elsewhere, "extension"), None);
    assert_eq!(visible_extension_webview_area(&areas, &Vec::new(), "extension"), None);
}
