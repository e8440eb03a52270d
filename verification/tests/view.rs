use binary_inspector::model::{Section, Segment};
use binary_inspector::view::{
    click_section_header, click_segment_header, compare_keys, contains_text, escape_action, header_text,
    visible_libraries, visible_sections, visible_segments, EscapeAction, SectionSort, SegmentSort, SortKey,
};

fn section(index: u16, name: &str, section_type: u32, address: u64, size: u64) -> Section {
    Section {
        index,
        name: name.to_string(),
        section_type,
        flags: 0,
        address,
        offset: 0,
        size,
        link: 0,
        info: 0,
        alignment: 1,
        entry_size: 0,
        entropy_scanned: false,
        entropy: None,
    }
}

fn segment(index: u16, segment_type: u32, offset: u64, memory_size: u64) -> Segment {
    Segment { index, segment_type, flags: 4, offset, virtual_address: offset, file_size: memory_size, memory_size, alignment: 8 }
}

fn table() -> Vec<Section> {
    vec![
        section(0, "", 0, 0, 0),
        section(1, ".text", 1, 0x401000, 0x200),
        section(2, ".dynsym", 11, 0x400300, 0x90),
        section(3, ".data", 1, 0x404000, 0x10),
        section(4, ".TEXT.unlikely", 1, 0x401200, 0x20),
    ]
}

#[test]
fn finds_text_inside_text() {
    assert!(contains_text("libc.so.6", "c.so"));
    assert!(contains_text("abc", ""));
    assert!(contains_text("", ""));
    assert!(!contains_text("", "a"));
    assert!(!contains_text("ab", "abc"));
    assert!(contains_text("aab", "ab"));
    assert!(!contains_text("a.b", "ab"));
}

#[test]
fn compares_sort_keys() {
    assert_eq!(compare_keys(&SortKey::Number(1), &SortKey::Number(2)), -1);
    assert_eq!(compare_keys(&SortKey::Number(2), &SortKey::Number(2)), 0);
    assert_eq!(compare_keys(&SortKey::Text("b".to_string()), &SortKey::Text("a".to_string())), 1);
    assert_eq!(compare_keys(&SortKey::Text("ab".to_string()), &SortKey::Text("abc".to_string())), -1);
    assert_eq!(compare_keys(&SortKey::Number(9), &SortKey::Text(String::new())), -1);
}

#[test]
fn sorting_is_stable_in_both_directions() {
    let segments = vec![segment(0, 2, 0, 0), segment(1, 1, 0, 0), segment(2, 2, 0, 0), segment(3, 0, 0, 0)];
    assert_eq!(visible_segments(&segments, SegmentSort::Type, true), vec![3, 1, 0, 2]);
    assert_eq!(visible_segments(&segments, SegmentSort::Type, false), vec![0, 2, 1, 3]);
    assert_eq!(visible_segments(&[], SegmentSort::Type, true), Vec::<usize>::new());
}

#[test]
fn lists_every_section_for_an_empty_search() {
    let sections = table();
    assert_eq!(visible_sections(&sections, "", SectionSort::Index, true), vec![0, 1, 2, 3, 4]);
    assert_eq!(visible_sections(&sections, "", SectionSort::Index, false), vec![4, 3, 2, 1, 0]);
}

#[test]
fn sorts_sections_by_each_column() {
    let sections = table();
    assert_eq!(visible_sections(&sections, "", SectionSort::Name, true), vec![0, 4, 3, 2, 1]);
    assert_eq!(visible_sections(&sections, "", SectionSort::Type, true), vec![0, 1, 3, 4, 2]);
    assert_eq!(visible_sections(&sections, "", SectionSort::Type, false), vec![2, 1, 3, 4, 0]);
    assert_eq!(visible_sections(&sections, "", SectionSort::Address, true), vec![0, 2, 1, 4, 3]);
    assert_eq!(visible_sections(&sections, "", SectionSort::Size, false), vec![1, 2, 4, 3, 0]);
}

#[test]
fn filters_sections_ignoring_case() {
    let sections = table();
    assert_eq!(visible_sections(&sections, "TEXT", SectionSort::Index, true), vec![1, 4]);
    assert_eq!(visible_sections(&sections, "dynsym", SectionSort::Index, true), vec![2]);
    assert_eq!(visible_sections(&sections, "progbits", SectionSort::Index, true), vec![1, 3, 4]);
    assert_eq!(visible_sections(&sections, "0xb", SectionSort::Index, true), vec![2]);
    assert_eq!(visible_sections(&sections, "0x404", SectionSort::Index, true), vec![3]);
    assert_eq!(visible_sections(&sections, "nothing", SectionSort::Index, true), Vec::<usize>::new());
}

#[test]
fn sorts_segments_by_each_column() {
    let segments = vec![segment(0, 6, 0x40, 0x2a0), segment(1, 1, 0, 0x1000), segment(2, 1, 0x1000, 0x200)];
    assert_eq!(visible_segments(&segments, SegmentSort::Index, true), vec![0, 1, 2]);
    assert_eq!(visible_segments(&segments, SegmentSort::Type, true), vec![1, 2, 0]);
    assert_eq!(visible_segments(&segments, SegmentSort::Offset, false), vec![2, 0, 1]);
    assert_eq!(visible_segments(&segments, SegmentSort::Size, true), vec![2, 0, 1]);
    assert_eq!(visible_segments(&segments, SegmentSort::Flags, false), vec![0, 1, 2]);
}

#[test]
fn filters_libraries_ignoring_case() {
    let needed = vec!["libc.so.6".to_string(), "libm.so.6".to_string(), "LIBCRYPTO.so.3".to_string()];
    assert_eq!(visible_libraries(&needed, ""), vec![0, 1, 2]);
    assert_eq!(visible_libraries(&needed, "LibC"), vec![0, 2]);
    assert_eq!(visible_libraries(&needed, "zlib"), Vec::<usize>::new());
}

#[test]
fn header_clicks_flip_or_switch_the_sort() {
    assert_eq!(click_section_header(SectionSort::Name, true, SectionSort::Name), (SectionSort::Name, false));
    assert_eq!(click_section_header(SectionSort::Name, false, SectionSort::Size), (SectionSort::Size, true));
    assert_eq!(click_segment_header(SegmentSort::Index, false, SegmentSort::Index), (SegmentSort::Index, true));
    assert_eq!(click_segment_header(SegmentSort::Index, false, SegmentSort::Flags), (SegmentSort::Flags, true));
}

#[test]
fn header_text_marks_the_active_column() {
    assert_eq!(header_text("Name", true, true), "Name \u{25b2}");
    assert_eq!(header_text("Name", true, false), "Name \u{25bc}");
    assert_eq!(header_text("Size", false, true), "Size");
}

#[test]
fn escape_clears_search_before_dismissing() {
    assert_eq!(escape_action(false, true), EscapeAction::ClearSearch);
    assert_eq!(escape_action(true, true), EscapeAction::DismissFailure);
    assert_eq!(escape_action(true, false), EscapeAction::Ignore);
}
