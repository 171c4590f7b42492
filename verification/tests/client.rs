use room_relay::client::{
    answer_binary, command_for, payload, piece_for, Answer, Number, Piece, FILLER, PIECE_LEN,
};

fn count(n: usize) -> Vec<u8> {
    n.to_be_bytes().to_vec()
}

#[test]
fn start_line_sends_the_ready_text() {
    assert_eq!(command_for(&"start\n".to_string()), Some("ready send".to_string()));
}

#[test]
fn other_lines_send_nothing() {
    for line in ["", "start", "start\r\n", "Start\n", " start\n", "stop\n", "ready send"] {
        assert_eq!(command_for(&line.to_string()), None);
    }
}

#[test]
fn count_is_read_most_significant_byte_first() {
    let mut bytes = vec![0u8; std::mem::size_of::<usize>()];
    let last = bytes.len() - 1;
    bytes[last] = 2;
    bytes[last - 1] = 1;
    assert_eq!(Number::try_from(bytes), Ok(Number(258)));
    assert_eq!(Number::try_from(count(0)), Ok(Number(0)));
    assert_eq!(Number::try_from(count(9)), Ok(Number(9)));
    assert_eq!(Number::try_from(count(usize::MAX)), Ok(Number(usize::MAX)));
    assert_eq!(Number::try_from(count(0x0102_0304)), Ok(Number(0x0102_0304)));
}

#[test]
fn payload_of_another_length_is_no_count() {
    assert_eq!(Number::try_from(vec![1, 2, 3]), Err("[1, 2, 3]".to_string()));
    assert_eq!(Number::try_from(vec![]), Err("[]".to_string()));
    let mut long = count(1);
    long.push(255);
    assert!(Number::try_from(long).is_err());
}

#[test]
fn count_picks_the_piece() {
    assert_eq!(piece_for(0), Some(Piece::First));
    assert_eq!(piece_for(1), Some(Piece::Continue));
    assert_eq!(piece_for(5), Some(Piece::Continue));
    assert_eq!(piece_for(8), Some(Piece::Continue));
    assert_eq!(piece_for(9), Some(Piece::Last));
    assert_eq!(piece_for(10), None);
    assert_eq!(piece_for(usize::MAX), None);
}

#[test]
fn piece_is_filled() {
    let bytes = payload();
    assert_eq!(PIECE_LEN, 4097);
    assert_eq!(FILLER, 78);
    assert_eq!(bytes.len(), 4097);
    assert!(bytes.iter().all(|b| *b == 78));
}

#[test]
fn binary_frame_is_answered_by_its_count() {
    assert_eq!(answer_binary(count(0)), Answer::Send(Piece::First, vec![78u8; 4097]));
    assert_eq!(answer_binary(count(3)), Answer::Send(Piece::Continue, vec![78u8; 4097]));
    assert_eq!(answer_binary(count(8)), Answer::Send(Piece::Continue, vec![78u8; 4097]));
    assert_eq!(answer_binary(count(9)), Answer::Send(Piece::Last, vec![78u8; 4097]));
    assert_eq!(answer_binary(count(10)), Answer::End);
    assert_eq!(answer_binary(count(usize::MAX)), Answer::End);
    assert_eq!(answer_binary(vec![0, 9]), Answer::Nothing);
    assert_eq!(answer_binary(vec![]), Answer::Nothing);
}
