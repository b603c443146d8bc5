use patchbay_server::rich_text::{
    escape_html_text, normalize_tiptap_storage_value, rich_text_editor_html, rich_text_plain_text,
};

#[test]
fn editor_html_is_stable_when_loaded_again() {
    for value in ["", "plain", "a\nb\n\nc", "  <p>kept</p>", "x < y & z", "\r\n\r\n"] {
        let once = rich_text_editor_html(value);
        assert_eq!(rich_text_editor_html(&once), once);
    }
    assert_eq!(rich_text_editor_html("x < y"), "<p>x &lt; y</p>");
    assert_eq!(rich_text_editor_html(""), "");
}

#[test]
fn storage_normalisation_is_stable() {
    for value in ["", "<p> </p>", "<p>text</p>", "plain", "   "] {
        let once = normalize_tiptap_storage_value(value.to_owned());
        assert_eq!(normalize_tiptap_storage_value(once.clone()), once);
    }
    assert_eq!(normalize_tiptap_storage_value("<p><br></p>".to_owned()), "");
}

#[test]
fn escaped_text_decodes_back() {
    for text in ["a < b > \"c\" 'd'", "plain", "<p>not a tag</p>"] {
        let escaped = escape_html_text(text);
        assert!(!escaped.contains(['<', '>', '"', '\'']));
        assert_eq!(rich_text_plain_text(&format!("<p>{escaped}</p>")), text);
    }
}
