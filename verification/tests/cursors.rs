use zlib_driver::deflate::{deflate_flush, deflate_result};
use zlib_driver::inflate::inflate_result;
use zlib_driver::stream::{Cursor, Stream, STEP_MAX};
use zlib_driver::{Flush, ReturnCode, Step};

#[test]
fn step_bound_is_32_bits() {
    assert_eq!(STEP_MAX, u32::MAX);
    assert_eq!(STEP_MAX as u64, 4_294_967_295);
}

#[test]
fn bind_starts_with_nothing_handed_out() {
    assert_eq!(Cursor::bind(0), Cursor { next: 0, avail: 0, left: 0 });
    assert_eq!(Cursor::bind(1000), Cursor { next: 0, avail: 0, left: 1000 });
}

#[test]
fn refill_hands_out_a_small_buffer_whole() {
    let mut c = Cursor::bind(1000);
    c.refill();
    assert_eq!(c, Cursor { next: 0, avail: 1000, left: 0 });
}

#[test]
fn refill_of_nothing_hands_out_nothing() {
    let mut c = Cursor::bind(0);
    c.refill();
    assert_eq!(c, Cursor { next: 0, avail: 0, left: 0 });
}

#[test]
fn refill_leaves_a_chunk_in_use_alone() {
    let mut c = Cursor { next: 10, avail: 3, left: 500 };
    c.refill();
    assert_eq!(c, Cursor { next: 10, avail: 3, left: 500 });
}

#[test]
fn refill_never_hands_out_more_than_32_bits() {
    let mut c = Cursor { next: 0, avail: 0, left: 0x1_0000_0005 };
    c.refill();
    assert_eq!(c, Cursor { next: 0, avail: 0xffff_ffff, left: 6 });
    c.avail = 0;
    c.refill();
    assert_eq!(c, Cursor { next: 0, avail: 6, left: 0 });
}

#[test]
fn refill_at_the_bound_takes_all() {
    let mut c = Cursor { next: 0, avail: 0, left: 0xffff_ffff };
    c.refill();
    assert_eq!(c, Cursor { next: 0, avail: 0xffff_ffff, left: 0 });
    let mut d = Cursor { next: 0, avail: 0, left: 0x1_0000_0000 };
    d.refill();
    assert_eq!(d, Cursor { next: 0, avail: 0xffff_ffff, left: 1 });
}

#[test]
fn refill_splits_three_chunks_of_a_large_buffer() {
    let total: u64 = 2 * 0xffff_ffff + 17;
    let mut c = Cursor { next: 0, avail: 0, left: total };
    let mut handed: u64 = 0;
    let mut chunks = Vec::new();
    loop {
        c.refill();
        if c.avail == 0 {
            break;
        }
        chunks.push(c.avail);
        handed += c.avail as u64;
        c.avail = 0;
    }
    assert_eq!(chunks, vec![0xffff_ffff, 0xffff_ffff, 17]);
    assert_eq!(handed, total);
    assert_eq!(c.left, 0);
}

#[test]
fn advance_moves_bytes_from_handed_out_to_done() {
    let mut c = Cursor { next: 4, avail: 10, left: 7 };
    c.advance(3);
    assert_eq!(c, Cursor { next: 7, avail: 7, left: 7 });
    c.advance(7);
    assert_eq!(c, Cursor { next: 14, avail: 0, left: 7 });
    c.advance(0);
    assert_eq!(c, Cursor { next: 14, avail: 0, left: 7 });
}

#[test]
fn stream_accounts_for_every_byte() {
    let mut s = Stream::bind(10, 20);
    assert_eq!(s.total_out(), 0);
    s.refill();
    assert_eq!(s.input, Cursor { next: 0, avail: 10, left: 0 });
    assert_eq!(s.output, Cursor { next: 0, avail: 20, left: 0 });
    s.advance(Step { consumed: 4, produced: 9, code: ReturnCode::Okay });
    assert_eq!(s.input, Cursor { next: 4, avail: 6, left: 0 });
    assert_eq!(s.output, Cursor { next: 9, avail: 11, left: 0 });
    assert_eq!(s.total_out(), 9);
    s.refill();
    s.advance(Step { consumed: 6, produced: 11, code: ReturnCode::StreamEnd });
    assert_eq!(s.total_out(), 20);
    assert_eq!(s.input.next + s.input.avail as usize + s.input.left as usize, 10);
    assert_eq!(s.output.next + s.output.avail as usize + s.output.left as usize, 20);
}

#[test]
fn total_out_never_goes_down() {
    let mut s = Stream::bind(100, 100);
    let mut last = 0;
    for produced in [0u32, 5, 0, 20, 1] {
        s.refill();
        s.advance(Step { consumed: 1, produced, code: ReturnCode::Okay });
        assert!(s.total_out() >= last);
        assert_eq!(s.total_out(), last + produced as usize);
        last = s.total_out();
    }
    assert_eq!(last, 26);
}

fn stream(next_out: usize, avail_out: u32, left_out: u64) -> Stream {
    Stream {
        input: Cursor { next: 0, avail: 0, left: 0 },
        output: Cursor { next: next_out, avail: avail_out, left: left_out },
    }
}

#[test]
fn inflate_result_reports_the_end_of_the_stream_as_success() {
    assert_eq!(inflate_result(&stream(12, 3, 0), ReturnCode::StreamEnd, false), (12, ReturnCode::Okay));
    assert_eq!(inflate_result(&stream(12, 0, 0), ReturnCode::StreamEnd, false), (12, ReturnCode::Okay));
}

#[test]
fn inflate_result_reports_a_wanted_dictionary_as_bad_data() {
    assert_eq!(inflate_result(&stream(0, 8, 0), ReturnCode::NeedDict, false), (0, ReturnCode::DataError));
    assert_eq!(inflate_result(&stream(8, 0, 0), ReturnCode::NeedDict, false), (8, ReturnCode::DataError));
}

#[test]
fn inflate_result_reports_a_stall_with_space_as_bad_data() {
    assert_eq!(inflate_result(&stream(5, 3, 0), ReturnCode::BufError, false), (5, ReturnCode::DataError));
    assert_eq!(inflate_result(&stream(5, 0, 9), ReturnCode::BufError, false), (5, ReturnCode::DataError));
    assert_eq!(inflate_result(&stream(5, 1, 1), ReturnCode::BufError, false), (5, ReturnCode::DataError));
}

#[test]
fn inflate_result_reports_a_stall_on_a_full_destination_as_it_is() {
    assert_eq!(inflate_result(&stream(8, 0, 0), ReturnCode::BufError, false), (8, ReturnCode::BufError));
}

#[test]
fn inflate_result_passes_other_reports_on() {
    for code in [
        ReturnCode::ErrNo,
        ReturnCode::StreamError,
        ReturnCode::DataError,
        ReturnCode::MemError,
        ReturnCode::VersionError,
    ] {
        assert_eq!(inflate_result(&stream(3, 2, 1), code, false), (3, code));
        assert_eq!(inflate_result(&stream(3, 0, 0), code, false), (3, code));
        assert_eq!(inflate_result(&stream(0, 1, 0), code, true), (0, code));
    }
}

#[test]
fn inflate_result_of_a_probe_holds_no_bytes() {
    assert_eq!(inflate_result(&stream(0, 1, 0), ReturnCode::StreamEnd, true), (0, ReturnCode::Okay));
    assert_eq!(inflate_result(&stream(1, 0, 0), ReturnCode::StreamEnd, true), (0, ReturnCode::Okay));
}

#[test]
fn inflate_result_of_a_probe_reports_every_stall_as_bad_data() {
    assert_eq!(inflate_result(&stream(0, 1, 0), ReturnCode::BufError, true), (0, ReturnCode::DataError));
    assert_eq!(inflate_result(&stream(1, 0, 0), ReturnCode::BufError, true), (0, ReturnCode::DataError));
}

#[test]
fn inflate_result_stands_large_counters() {
    assert_eq!(
        inflate_result(&stream(0, u32::MAX, u64::MAX), ReturnCode::BufError, false),
        (0, ReturnCode::DataError)
    );
}

#[test]
fn deflate_flush_is_plain_while_source_is_left() {
    let mut s = Stream::bind(0x1_0000_0000usize, 64);
    s.refill();
    assert_eq!(s.input.left, 1);
    assert_eq!(deflate_flush(&s), Flush::NoFlush);
    s.input.avail = 0;
    s.refill();
    assert_eq!(s.input.left, 0);
    assert_eq!(deflate_flush(&s), Flush::Finish);
}

#[test]
fn deflate_flush_finishes_a_small_source_at_once() {
    let mut s = Stream::bind(10, 64);
    assert_eq!(deflate_flush(&s), Flush::NoFlush);
    s.refill();
    assert_eq!(deflate_flush(&s), Flush::Finish);
    let mut e = Stream::bind(0, 64);
    e.refill();
    assert_eq!(deflate_flush(&e), Flush::Finish);
}

#[test]
fn deflate_result_is_success_or_the_report_of_the_end() {
    assert_eq!(deflate_result(&stream(40, 2, 0), ReturnCode::Okay), Ok((40, ReturnCode::Okay)));
    assert_eq!(deflate_result(&stream(0, 0, 0), ReturnCode::Okay), Ok((0, ReturnCode::Okay)));
    assert_eq!(deflate_result(&stream(40, 0, 0), ReturnCode::DataError), Err(ReturnCode::DataError));
    assert_eq!(deflate_result(&stream(40, 0, 0), ReturnCode::StreamError), Err(ReturnCode::StreamError));
    assert_eq!(deflate_result(&stream(40, 0, 0), ReturnCode::StreamEnd), Err(ReturnCode::StreamEnd));
}
