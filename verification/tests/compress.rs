use lib::nestfs::bp::NestCompType;
use lib::nestfs::compress::{
    compress, compress_lz4, compress_rle, compress_zle, decompress, decompress_lz4, decompress_rle,
    decompress_zle, HV_COMP_MIN_SIZE,
};

fn patterned(n: usize) -> Vec<u8> {
    (0..n).map(|i| ((i / 7) % 5) as u8 * 3).collect()
}

#[test]
fn rle_run_of_one_byte() {
    let data = vec![7u8; 64];
    let c = compress_rle(&data).unwrap();
    assert_eq!(c, vec![64, 0, 0, 0, 7, 64]);
    assert_eq!(decompress_rle(&c, 64).unwrap(), data);
}

#[test]
fn rle_runs_capped_at_255() {
    let data = vec![1u8; 600];
    let c = compress_rle(&data).unwrap();
    assert_eq!(c, vec![0x58, 0x02, 0, 0, 1, 255, 1, 255, 1, 90]);
    assert_eq!(decompress_rle(&c, 600).unwrap(), data);
}

#[test]
fn rle_refuses_incompressible() {
    let data: Vec<u8> = (0..100u8).collect();
    assert!(compress_rle(&data).is_none());
    assert!(compress_rle(&[]).is_none());
}

#[test]
fn rle_decoder_stops_at_length_and_short_input() {
    assert!(decompress_rle(&[1, 0, 0], 0).is_none());
    let out = decompress_rle(&[2, 0, 0, 0, 9, 3, 8, 4], 2).unwrap();
    assert_eq!(out, vec![9, 9, 9]);
}

#[test]
fn zle_zero_runs() {
    let mut data = vec![0u8; 100];
    data[10] = 5;
    let c = compress_zle(&data).unwrap();
    assert_eq!(c, vec![100, 0, 0, 0, 0, 10, 5, 0, 89]);
    assert_eq!(decompress_zle(&c, 100).unwrap(), data);
    assert!(compress_zle(&[]).is_none());
    assert!(compress_zle(&[1, 2, 3, 4, 5]).is_none());
}

#[test]
fn zle_decoder_literal_zero_at_end() {
    let out = decompress_zle(&[3, 0, 0, 0, 4, 0], 3).unwrap();
    assert_eq!(out, vec![4, 0]);
    assert!(decompress_zle(&[0, 0], 0).is_none());
}

#[test]
fn lz4_roundtrip_patterned() {
    let data = patterned(1000);
    let c = compress_lz4(&data).unwrap();
    assert!(c.len() < data.len());
    assert_eq!(&c[0..4], &[0xe8, 0x03, 0, 0]);
    assert_eq!(decompress_lz4(&c, data.len()).unwrap(), data);
}

#[test]
fn lz4_overlapping_run() {
    let data = vec![0xabu8; 200];
    let c = compress_lz4(&data).unwrap();
    assert_eq!(decompress_lz4(&c, 200).unwrap(), data);
}

#[test]
fn lz4_literal_only_stream() {
    let c = vec![3, 0, 0, 0, 0x03, 1, 2, 3];
    assert_eq!(decompress_lz4(&c, 3).unwrap(), vec![1, 2, 3]);
    assert!(decompress_lz4(&[1, 2], 0).is_none());
    let zero_offset = vec![8, 0, 0, 0, 0x01, 9, 0, 0];
    assert_eq!(decompress_lz4(&zero_offset, 8).unwrap(), vec![9]);
}

#[test]
fn compress_dispatch() {
    let small = vec![0u8; HV_COMP_MIN_SIZE - 1];
    assert!(compress(&small, NestCompType::ZLE).is_none());
    let data = vec![0u8; 256];
    assert!(compress(&data, NestCompType::Off).is_none());
    for t in [
        NestCompType::LZ4,
        NestCompType::ZSTD,
        NestCompType::Gzip1,
        NestCompType::Gzip9,
        NestCompType::ZLE,
    ] {
        let c = compress(&data, t).unwrap();
        assert_eq!(decompress(&c, data.len(), t).unwrap(), data);
    }
    let r = compress(&data, NestCompType::Gzip1).unwrap();
    assert_eq!(r, compress_rle(&data).unwrap());
    assert!(decompress(&r, 256, NestCompType::Off).is_none());
}
