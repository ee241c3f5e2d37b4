use flate2::read::GzDecoder;
use logic::battle::{average_team_level, compress_round_steps, frame_round_steps, round_steps_reply};
use logic::error::LogicError;
use std::io::Read;

#[test]
fn team_level_is_absent_when_no_entity_has_a_level() {
    assert_eq!(average_team_level(&[]), None);
    assert_eq!(average_team_level(&[Some(10), None, Some(20)]), Some(15));
}

#[test]
fn team_level_rounds_toward_zero() {
    assert_eq!(average_team_level(&[Some(1), Some(2)]), Some(1));
    assert_eq!(average_team_level(&[Some(-1), Some(-2)]), Some(-1));
    assert_eq!(average_team_level(&[None, None]), None);
}

#[test]
fn begin_round_steps_use_the_clients_compressed_framing() {
    let (total, compressed) = compress_round_steps(&vec![Vec::new(), Vec::new()]).unwrap();

    assert_eq!(total, 2);

    let mut decoder = GzDecoder::new(compressed.as_slice());
    let mut framed = Vec::new();
    decoder.read_to_end(&mut framed).unwrap();
    assert_eq!(framed, [0, 0, 0, 2, 0, 0, 0, 0, 0, 0, 0, 0]);
}

#[test]
fn framing_writes_each_step_after_its_length() {
    let framed = frame_round_steps(&vec![vec![7, 8, 9], vec![], vec![1]]).unwrap();
    assert_eq!(framed, [0, 0, 0, 3, 0, 0, 0, 3, 7, 8, 9, 0, 0, 0, 0, 0, 0, 0, 1, 1]);
    let (total, compressed) = compress_round_steps(&vec![vec![5; 300]]).unwrap();
    assert_eq!(total, 1);
    let mut decoder = GzDecoder::new(compressed.as_slice());
    let mut out = Vec::new();
    decoder.read_to_end(&mut out).unwrap();
    assert_eq!(&out[..8], &[0, 0, 0, 1, 0, 0, 1, 44]);
    assert_eq!(out.len(), 308);
}

#[test]
fn round_reply_carries_the_count_or_the_compression_failure() {
    assert_eq!(round_steps_reply(3, Ok(vec![1, 2])), Ok((3, vec![1, 2])));
    assert_eq!(round_steps_reply(3, Err("broken pipe".to_string())), Err(LogicError::Io("broken pipe".to_string())));
}
