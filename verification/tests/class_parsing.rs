use dioptase::class::class_file::ClassFile;
use dioptase::class::constant_pool::{ConstantPool, ConstantPoolEntry};
use dioptase::class::error::ClassFormatError;
use dioptase::class::field::{FieldAccessFlags, FieldInfo};
use dioptase::class::reader::ClassReader;
use dioptase::class::stack_map_frame::{StackMapFrame, VerificationTypeInfo};
use dioptase::error::{InternalError, RuntimeError};

#[test]
fn reader_reads_big_endian_values_and_moves_on() {
    let mut r = ClassReader::new(vec![0x01, 0x02, 0x03, 0x04, 0x05, 0x06, 0x07, 0x08, 0x09]);
    assert_eq!(r.position(), 0);
    assert_eq!(r.remaining(), 9);
    assert_eq!(r.read_u8().unwrap(), 0x01);
    assert_eq!(r.read_u16().unwrap(), 0x0203);
    assert_eq!(r.read_u32().unwrap(), 0x04050607);
    assert_eq!(r.position(), 7);
    assert_eq!(r.read_bytes(2).unwrap(), vec![0x08, 0x09]);
    assert_eq!(r.remaining(), 0);
}

#[test]
fn reader_reports_the_end_of_data_and_stays() {
    let mut r = ClassReader::new(vec![0xAA]);
    assert_eq!(r.read_u16(), Err(ClassFormatError::UnexpectedEof { position: 0, needed: 2 }));
    assert_eq!(r.position(), 0);
    assert_eq!(r.read_u8().unwrap(), 0xAA);
    assert!(r.read_u8().is_err());
    assert!(r.read_bytes(1).is_err());
}

#[test]
fn reader_skip_moves_the_position() {
    let mut r = ClassReader::new(vec![1, 2, 3, 4]);
    r.skip(3).unwrap();
    assert_eq!(r.position(), 3);
    assert_eq!(r.read_u8().unwrap(), 4);
    assert!(r.skip(1).is_err());
}

fn pool_bytes() -> Vec<u8> {
    // count 5: #1 Utf8 "Foo", #2 Class #1, #3 Integer 42, #4 Float 1.0
    let mut v = vec![0x00, 0x05];
    v.extend([1, 0, 3, b'F', b'o', b'o']);
    v.extend([7, 0, 1]);
    v.extend([3, 0, 0, 0, 42]);
    v.extend([4, 0x3f, 0x80, 0, 0]);
    v
}

#[test]
fn constant_pool_reads_entries_and_answers_lookups() {
    let mut r = ClassReader::new(pool_bytes());
    let cp = ConstantPool::read(&mut r).unwrap();
    assert_eq!(cp.entries.len(), 5);
    assert!(matches!(cp.entries[0], ConstantPoolEntry::Unknown));
    assert!(matches!(cp.entries[3], ConstantPoolEntry::Integer(42)));
    assert!(matches!(cp.entries[4], ConstantPoolEntry::Float(0x3f80_0000)));
    assert_eq!(cp.get_utf8(1).unwrap(), "Foo");
    assert_eq!(cp.get_class_name(2).unwrap(), "Foo");
    assert!(matches!(
        cp.get_class_name(1),
        Err(RuntimeError::Internal(InternalError::InvalidConstantPoolEntry { index: 1, .. }))
    ));
    assert!(matches!(
        cp.get_utf8(9),
        Err(RuntimeError::Internal(InternalError::InvalidConstantPoolEntry { index: 9, .. }))
    ));
}

#[test]
fn constant_pool_rejects_an_unknown_tag() {
    let mut r = ClassReader::new(vec![0x00, 0x02, 99]);
    assert_eq!(ConstantPool::read(&mut r).err(), Some(ClassFormatError::UnknownConstantTag { tag: 99 }));
}

#[test]
fn field_info_reads_flags_indices_and_attributes() {
    let mut r = ClassReader::new(vec![0x00, 0x09, 0x00, 0x01, 0x00, 0x02, 0x00, 0x01, 0x00, 0x03, 0, 0, 0, 2, 0xAB, 0xCD]);
    let f = FieldInfo::read(&mut r).unwrap();
    assert_eq!(f.name_index, 1);
    assert_eq!(f.descriptor_index, 2);
    assert!(f.access_flags.contains(FieldAccessFlags::STATIC));
    assert!(f.access_flags.contains(FieldAccessFlags::PUBLIC));
    assert_eq!(f.attributes.len(), 1);
    assert_eq!(f.attributes[0].attribute_name_index, 3);
    assert_eq!(f.attributes[0].info, vec![0xAB, 0xCD]);
    assert_eq!(r.remaining(), 0);
}

#[test]
fn verification_types_read_their_tags() {
    let mut r = ClassReader::new(vec![1, 7, 0x00, 0x05, 9]);
    assert_eq!(VerificationTypeInfo::read(&mut r).unwrap(), VerificationTypeInfo::Integer);
    assert_eq!(VerificationTypeInfo::read(&mut r).unwrap(), VerificationTypeInfo::Object { cpool_index: 5 });
    assert_eq!(VerificationTypeInfo::read(&mut r), Err(ClassFormatError::UnknownVerificationType { tag: 9 }));
}

#[test]
fn stack_map_frames_read_by_type() {
    let mut r = ClassReader::new(vec![10, 65, 1, 200]);
    assert!(matches!(StackMapFrame::read(&mut r).unwrap(), StackMapFrame::SameFrame { .. }));
    assert!(matches!(StackMapFrame::read(&mut r).unwrap(), StackMapFrame::SameLocals1StackItemFrame { .. }));
    assert_eq!(StackMapFrame::read(&mut r).err(), Some(ClassFormatError::ReservedFrameType { frame_type: 200 }));
}

fn minimal_class(major: u16) -> Vec<u8> {
    let mut v = vec![0xCA, 0xFE, 0xBA, 0xBE, 0x00, 0x00];
    v.extend(major.to_be_bytes());
    v.extend([0x00, 0x03, 1, 0, 3, b'F', b'o', b'o', 7, 0, 1]);
    v.extend([0x00, 0x21, 0x00, 0x02, 0x00, 0x00]);
    v.extend([0, 0, 0, 0, 0, 0, 0, 0]);
    v
}

#[test]
fn class_file_reads_a_minimal_class() {
    let mut r = ClassReader::new(minimal_class(52));
    let cf = ClassFile::read(&mut r).unwrap();
    assert_eq!(cf.this_class, 2);
    assert_eq!(cf.super_class, 0);
    assert_eq!(cf.access_flags, 0x21);
    assert!(cf.methods.is_empty() && cf.fields.is_empty() && cf.interfaces.is_empty());
    assert_eq!(cf.constant_pool.get_class_name(cf.this_class).unwrap(), "Foo");
}

#[test]
fn class_file_rejects_bad_magic_and_versions() {
    let mut bytes = minimal_class(52);
    bytes[0] = 0;
    let mut r = ClassReader::new(bytes);
    assert_eq!(ClassFile::read(&mut r).err(), Some(ClassFormatError::BadMagic { magic: 0x00FEBABE }));
    let mut r = ClassReader::new(minimal_class(61));
    let e = ClassFile::read(&mut r).err().unwrap();
    assert_eq!(e, ClassFormatError::UnsupportedVersion { major: 61 });
    assert_eq!(e.message(), "unsupported class file major version 61");
}

#[test]
fn truncated_class_file_reports_where() {
    let bytes = minimal_class(52)[..5].to_vec();
    let mut r = ClassReader::new(bytes);
    assert_eq!(ClassFile::read(&mut r).err(), Some(ClassFormatError::UnexpectedEof { position: 4, needed: 2 }));
    assert_eq!(
        ClassFormatError::UnexpectedEof { position: 4, needed: 2 }.message(),
        "unexpected end of data at byte 4, needed 2"
    );
}
