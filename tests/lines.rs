use asm6502::assemble;
use asm6502::lines::SourceMap;
use std::collections::HashMap;

#[test]
fn line_lookup_by_address() {
    let out = assemble("LDA #$01\n\nSTA $0200\nBRK").unwrap();
    let map = SourceMap::new(0x0600, out.offset_to_line);
    assert_eq!(map.get_line_number(0x0600), Some(1));
    assert_eq!(map.get_line_number(0x0601), None);
    assert_eq!(map.get_line_number(0x0602), Some(3));
    assert_eq!(map.get_line_number(0x0605), Some(4));
    assert_eq!(map.get_line_number(0x05FF), None);
    assert_eq!(map.get_line_number(0x0606), None);
}

#[test]
fn set_mapping_replaces_everything() {
    let mut first = HashMap::new();
    first.insert(0u16, 7usize);
    let mut map = SourceMap::new(0x10, first);
    assert_eq!(map.get_line_number(0x10), Some(7));
    let mut second = HashMap::new();
    second.insert(1u16, 9usize);
    map.set_mapping(0x20, second);
    assert_eq!(map.get_line_number(0x10), None);
    assert_eq!(map.get_line_number(0x20), None);
    assert_eq!(map.get_line_number(0x21), Some(9));
}
