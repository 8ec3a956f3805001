use prism_agent::models::TranscriptSegment;
use prism_agent::retranscribe::{
    final_segments, pcm_blocks, recording_pcm, RetranscribeError, BLOCK_BYTES,
};

fn seg(index: i32, text: &str, is_final: bool) -> TranscriptSegment {
    TranscriptSegment { index, text: text.into(), is_final, translated: None, speaker_id: None }
}

#[test]
fn header_is_skipped() {
    let mut wav = vec![0u8; 44];
    wav.extend_from_slice(&[1, 2, 3]);
    assert_eq!(recording_pcm(&wav), Ok(vec![1, 2, 3]));
    assert_eq!(recording_pcm(&vec![0u8; 44]), Err(RetranscribeError::EmptyRecording));
    assert_eq!(RetranscribeError::EmptyRecording.message(), "录音文件为空");
}

#[test]
fn audio_is_cut_in_two_second_blocks() {
    let pcm: Vec<u8> = (0..(2 * BLOCK_BYTES + 5)).map(|i| (i % 7) as u8).collect();
    let blocks = pcm_blocks(&pcm);
    assert_eq!(blocks.len(), 3);
    assert_eq!(blocks[0].len(), BLOCK_BYTES);
    assert_eq!(blocks[2], pcm[2 * BLOCK_BYTES..].to_vec());
    assert!(pcm_blocks(&vec![]).is_empty());
    assert_eq!(pcm_blocks(&vec![1u8; BLOCK_BYTES]).len(), 1);
}

#[test]
fn finals_kept_in_index_order() {
    let r = final_segments(vec![seg(2, "c", true), seg(0, "a", true), seg(1, "b", false), seg(1, "b2", true)]).unwrap();
    let texts: Vec<&str> = r.iter().map(|s| s.text.as_str()).collect();
    assert_eq!(texts, vec!["a", "b2", "c"]);
}

#[test]
fn all_kept_when_none_final() {
    let r = final_segments(vec![seg(1, "y", false), seg(0, "x", false)]).unwrap();
    let texts: Vec<&str> = r.iter().map(|s| s.text.as_str()).collect();
    assert_eq!(texts, vec!["x", "y"]);
    assert_eq!(final_segments(vec![]).unwrap_err(), RetranscribeError::NoResult);
}
