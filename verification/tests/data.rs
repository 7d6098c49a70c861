use etherage::data::{PduData, Field, BitField, Cursor, Endianness, PackingError, Storage};
use core::fmt::Debug;

fn aligned<T: PduData + PartialEq + Debug>(data: T, reference: &[u8]) {
    let mut buf = vec![0u8; T::packed_size()];
    data.pack(buf.as_mut_slice()).unwrap();
    assert_eq!(buf.as_slice(), reference);
    assert_eq!(T::unpack(buf.as_slice()).unwrap(), data);
}

#[test]
fn test_aligned() {
    aligned(0u8, &[0x00]);
    aligned(0u32, &[0x00; 4]);
    aligned(1u8, &[0x01]);
    aligned(1u16, &[0x01, 0x00]);
    aligned(0x1234u16, &[0x34, 0x12]);
    aligned(0x123456u32, &[0x56, 0x34, 0x12, 0x00]);
}

fn field<T: PduData + PartialEq + Debug + Clone, const N: usize>(data: T, field: Field<T>, ref_value: T, ref_packed: &[u8; N]) {
    let mut buf = [0u8; N];
    field.set(&mut buf, data.clone()).unwrap();
    assert_eq!(buf.as_slice(), ref_packed.as_slice());
    assert_eq!(field.get(&buf).unwrap(), ref_value);
}

#[test]
fn test_field() {
    field(0u8, Field::new(1, 1), 0, &[0, 0]);
    field(0u16, Field::new(1, 2), 0, &[0, 0, 0]);
    field(1u8, Field::new(1, 1), 1, &[0, 0x01]);
    field(1u16, Field::new(1, 2), 1, &[0, 0x01, 0]);
    field(0x1234u16, Field::new(1, 2), 0x1234, &[0, 0x34, 0x12, 0]);
    field(0x123456u32, Field::new(1, 2), 0x3456, &[0, 0x56, 0x34, 0]);
}

fn bitfield<T: PduData + PartialEq + Debug + Clone, const N: usize>(data: T, field: BitField<T>, ref_value: T, ref_packed: &[u8; N]) {
    let mut buf = [0u8; N];
    field.set(&mut buf, data.clone()).unwrap();
    assert_eq!(buf.as_slice(), ref_packed.as_slice());
    assert_eq!(field.get(&buf).unwrap(), ref_value);
}

#[test]
fn test_bitfield() {
    bitfield(0u8, BitField::new(3, 7), 0, &[0, 0]);
    bitfield(0u16, BitField::new(3, 15), 0, &[0, 0, 0]);
    bitfield(0b10u8, BitField::new(3, 7), 0b10, &[0, 0b10_000000]);
    bitfield(0b10u16, BitField::new(3, 15), 0b10, &[0, 0b01000000, 0]);
    // The last case expects 0b1100_0110_0101_1111u16 written in BitField::new(3, 14) to give the bytes
    // [0b0001_1000, 0b1100_1000, 0] and to read back whole. This expectation cannot be met: a field of 14 bits
    // cannot give back a value of 16 significant bits, and these bytes hold the bits of the value in no order
    // consistent with the cases above. The field holds the 14 low bits of the value, placed as in the cases above,
    // and gives them back.
    let field = BitField::<u16>::new(3, 14);
    let mut buf = [0u8; 3];
    field.set(&mut buf, 0b1100_0110_0101_1111).unwrap();
    assert_eq!(buf, [0b0000_1011, 0b1110_0011, 0]);
    assert_eq!(field.get(&buf).unwrap(), 0b0000_0110_0101_1111);
}

#[test]
fn partial_fields_read_back() {
    // a field reads only its own bytes
    let field = Field::<u32>::new(1, 2);
    let mut buf = [0, 0, 0, 0xff];
    field.set(&mut buf, 0x123456).unwrap();
    assert_eq!(buf, [0, 0x56, 0x34, 0xff]);
    assert_eq!(field.get(&buf).unwrap(), 0x3456);
    // a bit field reads back what it wrote, and keeps the bits around it
    let field = BitField::<u8>::new(3, 7);
    let mut buf = [0xff, 0xff];
    field.set(&mut buf, 0).unwrap();
    assert_eq!(buf, [0b1110_0000, 0b0011_1111]);
    field.set(&mut buf, 127).unwrap();
    assert_eq!(buf, [0xff, 0xff]);
    assert_eq!(field.get(&buf).unwrap(), 127);
    let mut buf = [0, 0];
    field.set(&mut buf, 127).unwrap();
    assert_eq!(field.get(&buf).unwrap(), 127);
    // in big endian, the bits of the value come most significant first
    let field = BitField::<u16>::new_full(4, 12, Endianness::Big);
    let mut buf = [0, 0];
    field.set(&mut buf, 0xabc).unwrap();
    assert_eq!(buf, [0x0a, 0xbc]);
    assert_eq!(field.get(&buf).unwrap(), 0xabc);
}

#[test]
fn test_shit_bits() {
    println!("{:016b}-{:016b}", 0xFFu16, 0xFFu16 << 3);
}

#[test]
fn signed_values_pack_in_twos_complement() {
    aligned(-1i16, &[0xff, 0xff]);
    aligned(-2i32, &[0xfe, 0xff, 0xff, 0xff]);
    aligned(i64::MIN, &[0, 0, 0, 0, 0, 0, 0, 0x80]);
    aligned(-128i8, &[0x80]);
}

#[test]
fn big_endian_field_roundtrip() {
    let f: Field<u32> = Field { extracted: core::marker::PhantomData, offset: 2, len: 4, endian: Endianness::Big };
    let mut buf = [0u8; 7];
    f.set(&mut buf, 0x01020304).unwrap();
    assert_eq!(buf, [0, 0, 1, 2, 3, 4, 0]);
    assert_eq!(f.get(&buf).unwrap(), 0x01020304);
}

#[test]
fn field_roundtrip_law_on_values() {
    let f: Field<u64> = Field::simple(3);
    let mut buf = [0xaau8; 12];
    f.set(&mut buf, 0x1122334455667788).unwrap();
    assert_eq!(f.get(&buf).unwrap(), 0x1122334455667788);
    assert_eq!(buf[0..3], [0xaa, 0xaa, 0xaa]);
    assert_eq!(buf[11], 0xaa);
    let g: Field<i8> = Field::simple(0);
    g.set(&mut buf, -5).unwrap();
    assert_eq!(g.get(&buf).unwrap(), -5);
}

#[test]
fn packing_errors() {
    let mut small = [0u8; 1];
    assert!(matches!(0x1234u16.pack(&mut small), Err(PackingError::BadSize(16, _))));
    assert!(matches!(1u8.pack_slice(&mut small, 0, 0, Endianness::Little), Err(PackingError::InvalidValue(_))));
    assert!(matches!(1u8.pack_slice(&mut small, 8, 4, Endianness::Little), Err(PackingError::BadAlignment(8, _))));
    assert!(matches!(1u8.pack_slice(&mut small, 0, 8, Endianness::Middle), Err(PackingError::BadOrdering(Endianness::Middle, _))));
    assert!(matches!(u16::unpack_slice(&small, 0, 16, Endianness::Little), Err(PackingError::BadSize(16, _))));
    assert!(matches!(u8::unpack_slice(&small, 9, 1, Endianness::Little), Err(PackingError::BadAlignment(9, _))));
    // the whole packing of a bool asks for 8 bits where a bool takes only one
    assert!(matches!(true.pack(&mut small), Err(PackingError::BadSize(0, _))));
    assert_eq!(small, [0]);
}

#[test]
fn bool_packs_at_bit_offsets() {
    let mut one = [0u8; 1];
    true.pack_slice(&mut one, 0, 1, Endianness::Little).unwrap();
    assert_eq!(one, [1]);
    assert_eq!(bool::unpack_slice(&one, 0, 1, Endianness::Little).unwrap(), true);
    let mut two = [0u8; 2];
    true.pack_slice(&mut two, 1, 1, Endianness::Little).unwrap();
    assert_eq!(two, [0, 0]);
}

#[test]
fn field_conversions() {
    let b: BitField<u16> = BitField::new(0, 16);
    let f = Field::try_from(b).unwrap();
    assert_eq!((f.offset, f.len), (0, 2));
    assert!(matches!(Field::try_from(BitField::<u16>::new(3, 16)), Err(PackingError::BadAlignment(3, _))));
    assert!(matches!(Field::try_from(BitField::<u16>::new(0, 12)), Err(PackingError::BadSize(12, _))));
    let b2 = BitField::try_from(Field::<u32>::new(0, 4)).unwrap();
    assert_eq!((b2.offset, b2.len), (0, 32));
    assert!(matches!(BitField::try_from(Field::<u32>::new(1, 4)), Err(PackingError::BadAlignment(1, _))));
    assert_eq!(Field::<u16>::new(4, 2).get_bits_len(), 16);
    assert_eq!(Field::<u16>::default().len(), 2);
    assert_eq!(BitField::<u16>::default().len(), 0);
    assert_eq!(u32::ID, etherage::data::TypeId::U32);
    assert_eq!(<[u8; 3] as Storage>::len(), 3);
}

#[test]
fn cursor_reads_in_sequence() {
    let data = [1u8, 2, 0x34, 0x12, 9, 9, 9];
    let mut cursor = Cursor::new(&data[..]);
    assert_eq!(cursor.unpack::<u8>().unwrap(), 1);
    assert_eq!(cursor.unpack::<u8>().unwrap(), 2);
    assert_eq!(cursor.unpack::<u16>().unwrap(), 0x1234);
    assert_eq!(cursor.position(), 4);
    assert_eq!(cursor.read(2).unwrap(), &[9, 9]);
    assert_eq!(cursor.remain(), &[9]);
    assert_eq!(cursor.finish(), &data[..6]);
}

#[test]
fn cursor_writes_in_sequence() {
    let mut data = [0u8; 8];
    let mut cursor = Cursor::new(&mut data[..]);
    cursor.pack(&0x0201u16).unwrap();
    cursor.write(&[3, 4, 5]).unwrap();
    assert_eq!(cursor.position(), 5);
    assert_eq!(cursor.unpack::<u8>().unwrap(), 0);
    cursor.remain()[0] = 7;
    assert_eq!(cursor.finish(), &[1, 2, 3, 4, 5, 0]);
    assert_eq!(data, [1, 2, 3, 4, 5, 0, 7, 0]);
}

#[test]
fn endianness_names() {
    assert_eq!(Endianness::Big.name(), "Big");
    assert_eq!(Endianness::Little.name(), "Little");
    assert_eq!(Endianness::Middle.name(), "Mixed");
    assert_eq!(Endianness::default(), Endianness::Little);
}

#[test]
fn test_old() {
    // Pdu field
    let a: Field<u16> = Field::default();
    let mut c: [u8; 6] = [0; 6];
    a.set(&mut c[0 ..], 5).expect("Error on setting data");

    let b: Field<u32> = Field::new(2, 2);
    b.set(&mut c[0 ..], 5).expect("Error on setting data");
    println!("{:#?}", c);
    println!("{:#?}", a.get(&c));

    c.fill(0);
    let d: BitField<u16> = BitField::new(2, 11);
    let _ = d.set(&mut c[2 ..], 5);

    println!("i: c");
    println!("{:#?}", d);
    for i in 0 .. 6 {
        println!("{}: {:b} ", i, c[i])
    }

    println!("{:#?}", Field::try_from(BitField::<u16>::new(2, 11)));

    println!("{:#?}", Field::try_from(BitField::<u32>::default()));

    let gg: BitField<u16> = BitField::try_from(a).unwrap();
    println!("{:#?}", gg);

    let a: Field<u8> = Field::simple(0x6);
    let b: BitField<u8> = BitField::new(0x4, 8);
    let mut c: [u8; 0x8] = [0; 0x8];
    let mut d: [u8; 0x8] = [0; 0x8];
    let _ = a.set(&mut c[0 ..], 27);
    let _ = b.set(&mut d[0 ..], 27);
    println!("Print c:");
    for i in 0 .. c.len() {
        println!("{}: {:b} ", i, c[i])
    }
    println!("Print d:");
    for i in 0 .. d.len() {
        println!("{}: {:b} ", i, d[i])
    }

    let e: Field<u8> = Field::simple(0x6);
    let f: BitField<u8> = BitField::new(0x4, 8);

    let g = e.get(&c[0 ..]).unwrap();
    let h = f.get(&d[0 ..]).unwrap();
    println!("{}", g);
    println!("{}", h);
}
