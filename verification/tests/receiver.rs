use agave_votor_messages::consensus_message::ConsensusMessage;
use agave_votor_messages::vote::Vote;
use sigverify::receiver::{receive_message, ReceivedMessage};

// A vote to skip slot 5, signed by the validator of rank 7.
fn encoded_vote() -> Vec<u8> {
    let mut bytes = vec![0; 4];
    bytes.extend_from_slice(&2u32.to_le_bytes());
    bytes.extend_from_slice(&5u64.to_le_bytes());
    bytes.extend_from_slice(&[8; 192]);
    bytes.extend_from_slice(&7u16.to_le_bytes());
    bytes
}

// A certificate that slot 9 is skipped.
fn encoded_certificate() -> Vec<u8> {
    let mut bytes = 1u32.to_le_bytes().to_vec();
    bytes.extend_from_slice(&4u32.to_le_bytes());
    bytes.extend_from_slice(&9u64.to_le_bytes());
    bytes.extend_from_slice(&[8; 192]);
    bytes.extend_from_slice(&1u64.to_le_bytes());
    bytes.push(3);
    bytes
}

#[test]
fn votes_are_received() {
    let message = receive_message(&encoded_vote()).unwrap();
    assert_eq!(message.heading(), "decoded ConsensusMessage::Vote");
    match message {
        ReceivedMessage::Vote { rank, vote, signature } => {
            assert_eq!(rank, 7);
            assert_eq!(vote, format!("{:?}", Vote::new_skip_vote(5)));
            assert!(!signature.is_empty());
        }
        ReceivedMessage::Certificate { .. } => panic!("not a certificate"),
    }
}

#[test]
fn certificates_are_received() {
    let bytes = encoded_certificate();
    let message = receive_message(&bytes).unwrap();
    assert_eq!(message.heading(), "decoded ConsensusMessage::Certificate");
    let expected: ConsensusMessage = wincode::deserialize(&bytes).unwrap();
    match (message, expected) {
        (
            ReceivedMessage::Certificate { certificate },
            ConsensusMessage::Certificate(expected),
        ) => {
            assert!(certificate.contains("Skip(9)"));
            assert_eq!(certificate, format!("{expected:?}"));
        }
        _ => panic!("not a vote"),
    }
}

#[test]
fn other_bytes_are_refused() {
    for bytes in [vec![], vec![1], vec![0xff; 300]] {
        match receive_message(&bytes) {
            Err(text) => assert!(!text.is_empty()),
            Ok(_) => panic!("no message"),
        }
    }
}

#[test]
fn trailing_bytes_are_ignored() {
    let mut bytes = encoded_vote();
    bytes.push(0);
    assert!(receive_message(&bytes).is_ok());
    bytes.truncate(200);
    assert!(receive_message(&bytes).is_err());
}
