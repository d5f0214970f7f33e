//! Reading consensus messages.

use agave_votor_messages::consensus_message::ConsensusMessage;
use vstd::prelude::*;

verus! {

/// A consensus message, as far as it is shown to people.
#[derive(Debug)]
pub enum ReceivedMessage {
    /// A vote of a single validator.
    Vote {
        /// The rank of the validator.
        rank: u16,
        /// What is voted for.
        vote: String,
        /// The signature.
        signature: String,
    },
    /// A certificate.
    Certificate {
        /// The certificate.
        certificate: String,
    },
}

/// A consensus message, with its texts as sequences of characters.
pub enum MessageView {
    /// A vote of a single validator.
    Vote {
        /// The rank of the validator.
        rank: u16,
        /// What is voted for.
        vote: Seq<char>,
        /// The signature.
        signature: Seq<char>,
    },
    /// A certificate.
    Certificate {
        /// The certificate.
        certificate: Seq<char>,
    },
}

impl View for ReceivedMessage {
    type V = MessageView;

    open spec fn view(&self) -> MessageView {
        match *self {
            ReceivedMessage::Vote { rank, vote, signature } => MessageView::Vote {
                rank,
                vote: vote@,
                signature: signature@,
            },
            ReceivedMessage::Certificate { certificate } => MessageView::Certificate {
                certificate: certificate@,
            },
        }
    }
}

impl ReceivedMessage {
    /// The heading under which the message is shown.
    pub fn heading(&self) -> (heading: &'static str)
        ensures
            heading@ == match *self {
                ReceivedMessage::Vote { .. } => "decoded ConsensusMessage::Vote"@,
                ReceivedMessage::Certificate { .. } => "decoded ConsensusMessage::Certificate"@,
            },
    {
        match self {
            ReceivedMessage::Vote { .. } => "decoded ConsensusMessage::Vote",
            ReceivedMessage::Certificate { .. } => "decoded ConsensusMessage::Certificate",
        }
    }
}

/// The message that `wincode::deserialize` reads from bytes, if they start with one. Votes,
/// signatures and certificates are given by their debug texts.
pub uninterp spec fn decoded_message(bytes: Seq<u8>) -> Option<MessageView>;

/// `wincode::deserialize`: the message that the bytes start with, or the text of an error if they
/// start with none. The format of the bytes and the debug texts are not spelled out here, and
/// nothing is claimed of the text of an error.
#[verifier::external_body]
fn decode(bytes: &[u8]) -> (message: Result<ReceivedMessage, String>)
    ensures
        match message {
            Ok(message) => decoded_message(bytes@) == Some(message@),
            Err(_) => decoded_message(bytes@) is None,
        },
{
    match wincode::deserialize(bytes).map_err(|err| format!("{err}"))? {
        ConsensusMessage::Vote(vote) => Ok(ReceivedMessage::Vote {
            rank: vote.rank,
            vote: format!("{:?}", vote.vote),
            signature: format!("{:?}", vote.signature),
        }),
        ConsensusMessage::Certificate(certificate) => {
            Ok(ReceivedMessage::Certificate { certificate: format!("{certificate:?}") })
        }
    }
}

/// Reads a message. An error is given by its text.
pub fn receive_message(bytes: &[u8]) -> (received: Result<ReceivedMessage, String>)
    ensures
        match decoded_message(bytes@) {
            Some(message) => received matches Ok(received) && received@ == message,
            None => received is Err,
        },
{
    decode(bytes)
}

/// Messages are viewed as they are: rank and texts of a vote stay in place, and so does the text of
/// a certificate.
pub proof fn messages_are_viewed_as_they_are(message: ReceivedMessage)
    ensures
        message matches ReceivedMessage::Vote { rank, vote, signature } ==> (message@
            matches MessageView::Vote { rank: r, vote: v, signature: s } && r == rank && v == vote@
            && s == signature@),
        message matches ReceivedMessage::Certificate { certificate } ==> (message@
            matches MessageView::Certificate { certificate: seen } && seen == certificate@),
{
}

} // verus!
