use animecix::shortcuts::{accel, esc, ui_xml};

#[test]
fn accel_uses_gtk_syntax() {
    assert_eq!(accel("Ctrl+S"), "<ctrl>s");
    assert_eq!(accel("Ctrl+K"), "<ctrl>k");
    assert_eq!(accel("/"), "slash");
    assert_eq!(accel("F2"), "F2");
}

#[test]
fn xml_includes_settings_and_drops_quick_group() {
    let with = ui_xml("F2", "Ctrl+F", true);
    assert!(with.contains(r#"<property name="accelerator">&lt;ctrl&gt;f</property>"#));
    assert!(with.contains("Aramayı aç"));
    assert!(with.contains("İntroyu atla"));
    assert!(with.contains("Bölüm Sayfası"));
    let without = ui_xml("Ctrl+S", "/", false);
    assert!(!without.contains("Bölüm Sayfası"));
    assert!(without.contains(r#"<property name="accelerator">&lt;ctrl&gt;s</property>"#));
}

#[test]
fn xml_escapes_setting_values() {
    let x = ui_xml("<b>&x", "/", true);
    assert!(!x.contains("<b>"), "ham etiket kaçınılmalı");
    assert!(x.contains("&lt;b&gt;&amp;x"));
    assert!(x.contains(r#"<property name="accelerator">slash</property>"#));
}

#[test]
fn esc_escapes_markup_characters() {
    assert_eq!(esc(r#"a<b>&"c'"#), "a&lt;b&gt;&amp;\"c'");
    assert_eq!(esc("düz metin"), "düz metin");
    assert_eq!(esc("&amp;"), "&amp;amp;");
}
