use fitreader::io::{
    read_i16, read_i32, read_i64, read_i8, read_u16, read_u32, read_u64, read_u8, skip_bytes,
    Endianness, Reader,
};

#[test]
fn it_reads_u8() {
    let a = vec![42];
    assert_eq!(read_u8(&mut Reader::new(a)).unwrap(), 42);
}

#[test]
fn it_reads_u16_le() {
    let endianness = Endianness::Little;
    let a = vec![42, 151];
    assert_eq!(read_u16(&mut Reader::new(a), endianness).unwrap(), 38698);
}

#[test]
fn it_reads_u16_be() {
    let endianness = Endianness::Big;
    let a = vec![42, 151];
    assert_eq!(read_u16(&mut Reader::new(a), endianness).unwrap(), 10903);
}

#[test]
fn it_reads_u32_le() {
    let endianness = Endianness::Little;
    let a = vec![42, 151, 138, 217];
    assert_eq!(read_u32(&mut Reader::new(a), endianness).unwrap(), 3649738538);
}

#[test]
fn it_reads_u32_be() {
    let endianness = Endianness::Big;
    let a = vec![42, 151, 138, 217];
    assert_eq!(read_u32(&mut Reader::new(a), endianness).unwrap(), 714574553);
}

#[test]
fn it_reads_u64_le() {
    let endianness = Endianness::Little;
    let a = vec![42, 151, 138, 217, 59, 205, 235, 102];
    assert_eq!(
        read_u64(&mut Reader::new(a), endianness).unwrap(),
        7416246868332156714
    );
}

#[test]
fn it_reads_u64_be() {
    let endianness = Endianness::Big;
    let a = vec![42, 151, 138, 217, 59, 205, 235, 102];
    assert_eq!(
        read_u64(&mut Reader::new(a), endianness).unwrap(),
        3069074336692169574
    );
}

#[test]
fn it_reads_i8() {
    let a = vec![234];
    assert_eq!(read_i8(&mut Reader::new(a)).unwrap(), -22);
}

#[test]
fn it_reads_i16_le() {
    let endianness = Endianness::Little;
    let a = vec![234, 151];
    assert_eq!(read_i16(&mut Reader::new(a), endianness).unwrap(), -26646);
}

#[test]
fn it_reads_i16_be() {
    let endianness = Endianness::Big;
    let a = vec![234, 151];
    assert_eq!(read_i16(&mut Reader::new(a), endianness).unwrap(), -5481);
}

#[test]
fn it_reads_i32_le() {
    let endianness = Endianness::Little;
    let a = vec![234, 151, 138, 217];
    assert_eq!(read_i32(&mut Reader::new(a), endianness).unwrap(), -645228566);
}

#[test]
fn it_reads_i32_be() {
    let endianness = Endianness::Big;
    let a = vec![234, 151, 138, 217];
    assert_eq!(read_i32(&mut Reader::new(a), endianness).unwrap(), -359167271);
}

#[test]
fn it_reads_i64_le() {
    let endianness = Endianness::Little;
    let a = vec![234, 151, 138, 217, 59, 205, 235, 102];
    assert_eq!(
        read_i64(&mut Reader::new(a), endianness).unwrap(),
        7416246868332156906
    );
}

#[test]
fn it_reads_i64_be() {
    let endianness = Endianness::Big;
    let a = vec![234, 151, 138, 217, 59, 205, 235, 102];
    assert_eq!(
        read_i64(&mut Reader::new(a), endianness).unwrap(),
        -1542611681735218330
    );
}

#[test]
fn it_consumes_bytes() {
    let endianness = Endianness::Little;
    let a = vec![234, 151, 138, 217, 59];
    let mut c = Reader::new(a);
    let _ = read_u32(&mut c, endianness);
    assert_eq!(read_u8(&mut c).unwrap(), 59);
}

#[test]
fn it_skips_bytes() {
    let a = vec![234, 151, 138, 217, 59, 205, 235, 102];
    let mut c = Reader::new(a);
    skip_bytes(&mut c, 5).unwrap();
    assert_eq!(read_u8(&mut c).unwrap(), 205);
}

#[test]
fn reading_past_the_end_fails() {
    let a = vec![1, 2];
    let mut c = Reader::new(a);
    assert!(read_u32(&mut c, Endianness::Little).is_err());
    // a failed read moves nothing
    assert_eq!(c.pos(), 0);
    assert_eq!(read_u16(&mut c, Endianness::Little).unwrap(), 0x0201);
}
