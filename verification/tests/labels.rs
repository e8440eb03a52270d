use binary_inspector::labels::{
    format_number, section_flags_str, section_type_name, segment_flags_str, segment_type_name, size_unit, SizeUnit,
};

#[test]
fn groups_digits_by_thousands() {
    assert_eq!(format_number(0), "0");
    assert_eq!(format_number(999), "999");
    assert_eq!(format_number(1000), "1,000");
    assert_eq!(format_number(1005), "1,005");
    assert_eq!(format_number(1234567), "1,234,567");
    assert_eq!(format_number(u64::MAX), "18,446,744,073,709,551,615");
}

#[test]
fn grouping_keeps_the_digits() {
    for n in [0_u64, 7, 42, 999, 1000, 65_536, 1_000_001, 987_654_321_012, u64::MAX] {
        assert_eq!(format_number(n).replace(',', ""), n.to_string());
    }
}

#[test]
fn names_section_types() {
    assert_eq!(section_type_name(0), "NULL");
    assert_eq!(section_type_name(1), "PROGBITS");
    assert_eq!(section_type_name(8), "NOBITS");
    assert_eq!(section_type_name(11), "DYNSYM");
    assert_eq!(section_type_name(0x6ffffff6), "GNU_HASH");
    assert_eq!(section_type_name(0x6fffffff), "VERSYM");
    assert_eq!(section_type_name(10), "OTHER");
    assert_eq!(section_type_name(12), "OTHER");
}

#[test]
fn names_segment_types() {
    assert_eq!(segment_type_name(1), "LOAD");
    assert_eq!(segment_type_name(3), "INTERP");
    assert_eq!(segment_type_name(0x6474e551), "GNU_STACK");
    assert_eq!(segment_type_name(0x6474e553), "GNU_PROPERTY");
    assert_eq!(segment_type_name(8), "OTHER");
}

#[test]
fn letters_of_section_flags() {
    assert_eq!(section_flags_str(0), "-");
    assert_eq!(section_flags_str(0x2), "A");
    assert_eq!(section_flags_str(0x6), "AX");
    assert_eq!(section_flags_str(0x32), "AMS");
    assert_eq!(section_flags_str(0x437), "WAXMST");
    assert_eq!(section_flags_str(0x8), "-");
}

#[test]
fn letters_of_segment_permissions() {
    assert_eq!(segment_flags_str(0), "---");
    assert_eq!(segment_flags_str(5), "R-X");
    assert_eq!(segment_flags_str(6), "RW-");
    assert_eq!(segment_flags_str(7), "RWX");
}

#[test]
fn sizes_take_the_largest_unit_they_reach() {
    assert_eq!(size_unit(0), SizeUnit::Bytes);
    assert_eq!(size_unit(1023), SizeUnit::Bytes);
    assert_eq!(size_unit(1024), SizeUnit::KiB);
    assert_eq!(size_unit(1024 * 1024 - 1), SizeUnit::KiB);
    assert_eq!(size_unit(1024 * 1024), SizeUnit::MiB);
    assert_eq!(size_unit(1 << 30), SizeUnit::GiB);
    assert_eq!(size_unit(u64::MAX), SizeUnit::GiB);
    assert_eq!(SizeUnit::MiB.bytes(), 1 << 20);
    assert_eq!(SizeUnit::GiB.symbol(), "GiB");
    assert_eq!(SizeUnit::Bytes.symbol(), "B");
}
