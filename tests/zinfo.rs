use ztoc::error::{check_error, Z_BUF_ERROR, Z_DATA_ERROR, Z_NEED_DICT, Z_OK, Z_STREAM_END};
use ztoc::zalloc::alloc_block_size;
use ztoc::zinfo::WINSIZE;
use ztoc::{align_up, GzipZInfoDecompressor, ZtocError};

const BOUNDARY: i32 = 128;
const BOUNDARY_BEFORE_END: i32 = 128 | 64;

#[test]
fn check_error_passes_non_negative_codes() {
    assert_eq!(check_error(Z_OK, None), Ok(Z_OK));
    assert_eq!(check_error(Z_STREAM_END, None), Ok(Z_STREAM_END));
    assert_eq!(check_error(Z_NEED_DICT, None), Ok(Z_NEED_DICT));
}

#[test]
fn check_error_names_each_failure() {
    assert_eq!(check_error(-2, None), Err(ZtocError::Inflate("zlib stream error".to_string())));
    assert_eq!(check_error(-3, None), Err(ZtocError::Inflate("zlib data error".to_string())));
    assert_eq!(check_error(-4, None), Err(ZtocError::Inflate("zlib mem error".to_string())));
    assert_eq!(check_error(-5, None), Err(ZtocError::Inflate("zlib buf error".to_string())));
    assert_eq!(check_error(-6, None), Err(ZtocError::Inflate("zlib version error".to_string())));
    assert_eq!(check_error(-1, None), Err(ZtocError::Inflate("zlib unknown error".to_string())));
}

#[test]
fn check_error_prefers_zlib_message() {
    assert_eq!(
        check_error(Z_DATA_ERROR, Some("invalid block type".to_string())),
        Err(ZtocError::Inflate("invalid block type".to_string()))
    );
}

#[test]
fn first_boundary_at_start_is_a_checkpoint() {
    let mut d = GzipZInfoDecompressor::new(4);
    assert_eq!(d.record_inflate(10, &[], Z_OK, None, BOUNDARY | 3, false), Ok(false));
    let z = d.into_zinfo();
    assert_eq!(z.version, 2);
    assert_eq!(z.checkpoints.len(), 1);
    let c = &z.checkpoints[0];
    assert_eq!((c.in_offset, c.out_offset, c.bits), (10, 0, 3));
    assert_eq!(c.window.len(), WINSIZE);
    assert!(c.window.iter().all(|b| *b == 0));
}

#[test]
fn checkpoints_respect_span() {
    let mut d = GzipZInfoDecompressor::new(4);
    // Start of output: taken.
    assert_eq!(d.record_inflate(10, &[], Z_OK, None, BOUNDARY, false), Ok(false));
    // Four bytes past it: not more than the span, not taken.
    assert_eq!(d.record_inflate(3, &[1, 2, 3, 4], Z_OK, None, BOUNDARY, false), Ok(false));
    // Five bytes past it, but not at a block boundary: not taken.
    assert_eq!(d.record_inflate(1, &[5], Z_OK, None, 0, false), Ok(false));
    // A boundary followed by the end of the stream: not taken.
    assert_eq!(d.record_inflate(0, &[], Z_OK, None, BOUNDARY_BEFORE_END, false), Ok(false));
    // A boundary six bytes past the last checkpoint: taken.
    assert_eq!(d.record_inflate(2, &[6], Z_OK, None, BOUNDARY | 5, false), Ok(false));
    assert_eq!(d.record_inflate(4, &[7, 8], Z_STREAM_END, None, 0, false), Ok(true));
    assert!(d.is_finished());
    let z = d.into_zinfo();
    assert_eq!(z.total_in, 20);
    assert_eq!(z.total_out, 8);
    assert_eq!(z.checkpoints.len(), 2);
    let c = &z.checkpoints[1];
    assert_eq!((c.in_offset, c.out_offset, c.bits), (16, 6, 5));
    assert_eq!(&c.window[WINSIZE - 6..], &[1u8, 2, 3, 4, 5, 6]);
    assert!(c.window[..WINSIZE - 6].iter().all(|b| *b == 0));
}

#[test]
fn no_boundary_at_start_and_one_span_gives_no_checkpoint() {
    let mut d = GzipZInfoDecompressor::new(16);
    assert_eq!(d.record_inflate(5, &[9; 16], Z_OK, None, BOUNDARY, false), Ok(false));
    assert_eq!(d.record_inflate(5, &[], Z_STREAM_END, None, 0, false), Ok(true));
    let z = d.into_zinfo();
    assert_eq!(z.total_out, 16);
    assert!(z.checkpoints.is_empty());
}

#[test]
fn window_keeps_last_window_size_bytes() {
    let mut d = GzipZInfoDecompressor::new(0);
    let mut produced = vec![0u8; WINSIZE + 10];
    for (i, b) in produced.iter_mut().enumerate() {
        *b = (i % 251) as u8;
    }
    assert_eq!(d.record_inflate(100, &produced, Z_OK, None, BOUNDARY, false), Ok(false));
    let z = d.into_zinfo();
    assert_eq!(z.checkpoints.len(), 1);
    assert_eq!(z.checkpoints[0].window.as_slice(), &produced[10..]);
    assert_eq!(z.checkpoints[0].out_offset, (WINSIZE + 10) as u64);
}

#[test]
fn exhausted_input_is_unexpected_eof() {
    let mut d = GzipZInfoDecompressor::new(4);
    assert_eq!(d.record_inflate(3, &[1, 2], Z_OK, None, 0, false), Ok(false));
    assert_eq!(d.record_inflate(0, &[], Z_BUF_ERROR, None, 0, true), Err(ZtocError::UnexpectedEof));
    let z = d.into_zinfo();
    assert_eq!((z.total_in, z.total_out), (3, 2));
}

#[test]
fn dictionary_request_is_refused() {
    let mut d = GzipZInfoDecompressor::new(4);
    assert_eq!(d.record_inflate(3, &[], Z_NEED_DICT, None, 0, false), Err(ZtocError::NeedDict));
}

#[test]
fn data_error_carries_message() {
    let mut d = GzipZInfoDecompressor::new(4);
    assert_eq!(
        d.record_inflate(3, &[], Z_DATA_ERROR, Some("incorrect header check".to_string()), 0, false),
        Err(ZtocError::Inflate("incorrect header check".to_string()))
    );
    assert_eq!(
        d.record_inflate(0, &[], Z_BUF_ERROR, None, 0, false),
        Err(ZtocError::Inflate("zlib buf error".to_string()))
    );
}

#[test]
fn totals_beyond_four_gib_are_kept_exactly() {
    let mut d = GzipZInfoDecompressor::new(1 << 22);
    let chunk = vec![0u8; 1 << 20];
    for _ in 0..4200 {
        assert_eq!(d.record_inflate(u32::MAX, &chunk, Z_OK, None, 0, false), Ok(false));
    }
    let z = d.into_zinfo();
    assert_eq!(z.total_in, 4200 * u32::MAX as u64);
    assert_eq!(z.total_out, 4200u64 << 20);
}

#[test]
fn align_up_rounds_to_multiples() {
    assert_eq!(align_up(0, 8), 0);
    assert_eq!(align_up(1, 8), 8);
    assert_eq!(align_up(8, 8), 8);
    assert_eq!(align_up(9, 8), 16);
    assert_eq!(align_up(13, 1), 13);
    assert_eq!(align_up(17, 16), 32);
}

#[test]
fn alloc_block_size_adds_header() {
    assert_eq!(alloc_block_size(3, 5, 8, 8), Some(24));
    assert_eq!(alloc_block_size(0, 5, 8, 8), Some(8));
    assert_eq!(alloc_block_size(1 << 16, 1 << 16, 8, 8), None);
    assert_eq!(alloc_block_size(u32::MAX, 1, 8, usize::MAX - 4), None);
}
