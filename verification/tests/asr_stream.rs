use prism_agent::asr_stream::VadStream;
use prism_agent::asr::AsrError;
use prism_agent::asr_stream::{MergedStream, SlicedStream, MERGE_BYTES, SLICE_BYTES, SLICE_OVERLAP_BYTES};

#[test]
fn merged_stream_sends_every_three_seconds() {
    let mut s = MergedStream::new();
    assert!(s.push(&vec![1u8; 50_000]).is_none());
    let out = s.push(&vec![2u8; 50_000]).unwrap();
    assert_eq!(out.len(), 100_000);
    assert_eq!(out[49_999], 1);
    assert_eq!(out[50_000], 2);
    assert!(s.buf.is_empty());
    assert_eq!(MERGE_BYTES, 96_000);
}

#[test]
fn merged_stream_reports_only_new_text() {
    let mut s = MergedStream::new();
    let a = s.transcribed("你好".to_string()).unwrap();
    assert_eq!((a.index, a.text.as_str(), a.is_final), (0, "你好", true));
    let b = s.transcribed("你好 世界".to_string()).unwrap();
    assert_eq!((b.index, b.text.as_str()), (1, "世界"));
    // A reply that does not extend the previous text is reported whole.
    let c = s.transcribed("你好 世界".to_string()).unwrap();
    assert_eq!((c.index, c.text.as_str()), (2, "你好 世界"));
    assert!(s.transcribed(String::new()).is_none());
    assert_eq!(s.index, 3);
}

#[test]
fn merged_stream_tail_and_status() {
    let mut s = MergedStream::new();
    assert!(s.finish().is_none());
    s.push(&[9, 9, 9]);
    assert_eq!(s.finish(), Some(vec![9, 9, 9]));
    assert_eq!(MergedStream::failure_status(&AsrError::QuotaExceeded), "识别错误: 配额不足或限流");
    assert_eq!(
        MergedStream::failure_status(&AsrError::Network("timeout".into())),
        "识别错误: 网络错误: timeout"
    );
}

#[test]
fn sliced_stream_keeps_one_second_overlap() {
    let mut s = SlicedStream::new();
    let data: Vec<u8> = (0..SLICE_BYTES + 10).map(|i| (i % 251) as u8).collect();
    let slice = s.push(&data).unwrap();
    assert_eq!(slice.len(), SLICE_BYTES);
    assert_eq!(slice[..], data[..SLICE_BYTES]);
    assert_eq!(s.buf.len(), SLICE_OVERLAP_BYTES + 10);
    assert_eq!(s.buf[..], data[SLICE_BYTES - SLICE_OVERLAP_BYTES..]);
    assert!(s.push(&[0u8; 5]).is_none());
}

#[test]
fn sliced_stream_segments() {
    let mut s = SlicedStream::new();
    assert!(s.transcribed(String::new()).is_none());
    let seg = s.transcribed("hello".into()).unwrap();
    assert_eq!((seg.index, seg.text.as_str()), (0, "hello"));
    assert_eq!(s.index, 1);
}

#[test]
fn vad_stream_reports_new_text_only() {
    let mut v = VadStream::new();
    assert!(v.transcribed("   ".to_string()).is_none());
    let a = v.transcribed(" 你好 ".to_string()).unwrap();
    assert_eq!((a.index, a.text.as_str(), a.is_final), (0, "你好", true));
    let b = v.transcribed(" 你好 世界 ".to_string()).unwrap();
    assert_eq!((b.index, b.text.as_str()), (1, "世界"));
    // the same text again adds nothing
    assert!(v.transcribed(" 你好 世界 ".to_string()).is_none());
    assert_eq!(v.index, 2);
    // text that does not extend the previous one is reported whole
    let c = v.transcribed("再见 ".to_string()).unwrap();
    assert_eq!((c.index, c.text.as_str()), (2, "再见 "));
    assert_eq!(v.prev_text, "再见 ");
}
