use zorforge::buffer::Buffer;
use zorforge::render::RenderRegion;

#[test]
fn test_render_with_search_and_visual() {
    let mut buffer = Buffer::new();
    buffer.replace_line(0, "first line".to_string());
    buffer.insert_at(1, "second line".to_string());
    buffer.insert_at(2, "third line".to_string());

    buffer.search("line", true);

    buffer.set_cursor_position(0, 0);
    buffer.start_visual();
    buffer.set_cursor_position(1, 5);

    let rendered = buffer.render_lines_with_visual();
    assert!(rendered[0].contains("\x1b[7m"));
    assert!(rendered[0].contains("\x1b[42m"));
    assert!(rendered[1].contains("\x1b[7m"));
    assert!(rendered[1].contains("\x1b[42m"));
}

#[test]
fn test_render_with_current_search_match() {
    let mut buffer = Buffer::new();
    buffer.replace_line(0, "test line".to_string());
    buffer.insert_at(1, "test line".to_string());

    buffer.search("test", true);

    let rendered = buffer.render_lines_with_visual();
    assert!(rendered[0].contains("\x1b[43m"));
    assert!(rendered[1].contains("\x1b[42m"));
}

#[test]
fn test_render_with_overlapping_highlights() {
    let mut buffer = Buffer::new();
    buffer.replace_line(0, "test line test".to_string());

    buffer.search("test", true);

    buffer.set_cursor_position(0, 0);
    buffer.start_visual();
    buffer.set_cursor_position(0, 6);

    let rendered = buffer.render_lines_with_visual();
    assert!(rendered[0].contains("\x1b[42m"));
    assert!(rendered[0].contains("\x1b[7m"));
}

#[test]
fn test_render_plain_lines_have_numbers() {
    let mut buffer = Buffer::new();
    buffer.replace_line(0, "hello".to_string());
    buffer.insert_at(1, "world".to_string());
    let rendered = buffer.render_lines();
    assert_eq!(rendered[0], "   1 | hello");
    assert_eq!(rendered[1], "   2 | world");
}

#[test]
fn test_render_region_overlap() {
    let region1 = RenderRegion::new(0, 10, 0, 10);
    let region2 = RenderRegion::new(5, 15, 5, 15);
    let region3 = RenderRegion::new(20, 30, 20, 30);

    assert!(region1.overlaps(&region2));
    assert!(!region1.overlaps(&region3));
    assert!(!region2.overlaps(&region3));
}

#[test]
fn test_render_region_contains_point() {
    let region = RenderRegion::new(5, 10, 5, 10);

    assert!(region.contains_point(7, 7));
    assert!(!region.contains_point(4, 7));
    assert!(!region.contains_point(7, 11));
}

#[test]
fn test_render_region_dimensions() {
    let region = RenderRegion::new(2, 7, 3, 13);
    assert_eq!(region.height(), 5);
    assert_eq!(region.width(), 10);
}
