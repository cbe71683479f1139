use asm6502::source::{SourceError, SourceTable};
use asm6502::{assemble_bytes, AssemblyError};

#[test]
fn registered_buffers_are_found_by_id() {
    let mut table = SourceTable::new();
    assert_eq!(table.add(3, Some("main.a65".to_string()), b"NOP".to_vec()), Ok(()));
    assert_eq!(table.add(7, None, b"BRK".to_vec()), Ok(()));
    let f = table.get(3).ok().unwrap();
    assert_eq!(f.id, 3);
    assert_eq!(f.bytes, b"NOP".to_vec());
    assert_eq!(f.path.as_deref(), Some("main.a65"));
    assert_eq!(table.get(7).ok().unwrap().bytes, b"BRK".to_vec());
}

#[test]
fn unknown_and_duplicate_ids() {
    let mut table = SourceTable::new();
    assert!(matches!(table.get(0), Err(SourceError::UnknownFile)));
    assert_eq!(table.add(0, None, b"NOP".to_vec()), Ok(()));
    assert_eq!(table.add(0, None, b"BRK".to_vec()), Err(SourceError::DuplicateFile));
    assert_eq!(table.get(0).ok().unwrap().bytes, b"NOP".to_vec());
}

#[test]
fn errors_carry_the_file_id() {
    let mut table = SourceTable::new();
    table.add(5, None, b"NOP\nJMP nowhere".to_vec()).unwrap();
    let f = table.get(5).ok().unwrap();
    match assemble_bytes(&f.bytes, f.id) {
        Err(AssemblyError::CodeGen(e)) => {
            assert_eq!(e.position.file_id, 5);
            assert_eq!(e.position.line, 2);
            assert_eq!(e.position.column, 1);
        },
        _ => panic!("expected an undefined symbol"),
    }
}
