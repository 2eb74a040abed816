use delve::entities::Text;

#[test]
fn text_keeps_its_message() {
    let t = Text::new(String::from("Welcome to Delve!"));
    assert_eq!(t.msg(), "Welcome to Delve!");
    assert_eq!(t.glyph_count(), 17);
}

#[test]
fn glyphs_by_cell() {
    let t = Text::new(String::from("héllo"));
    assert_eq!(t.glyph_count(), 5);
    assert_eq!(t.glyph_at(0), 'h');
    assert_eq!(t.glyph_at(1), 'é');
    assert_eq!(t.glyph_at(4), 'o');
    // cells past the end show the last glyph
    assert_eq!(t.glyph_at(99), 'o');
}

#[test]
fn empty_text_has_no_glyphs() {
    let t = Text::new(String::new());
    assert_eq!(t.glyph_count(), 0);
}
