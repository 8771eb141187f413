use vstd::prelude::*;

use crate::codec::{response_of, Error, Message};

verus! {

/// How a probe exchange can fail, each cause told apart.
#[derive(Debug)]
pub enum ClientError {
    /// The reply frame could not be decoded.
    Codec(Error),
    /// The reply was a message other than the acknowledgment.
    UnexpectedMessage(Message),
    /// The stream ended before any reply came.
    UnexpectedEof,
}

/// The message the client sends.
pub open spec fn probe() -> Message {
    Message::Ping
}

/// Whether the first frame read back after the probe (`None` when the
/// stream ended first) is the acknowledgment that the probe expects.
pub open spec fn reply_outcome_ok(reply: Option<Result<Message, Error>>) -> bool {
    match reply {
        Some(Ok(m)) => response_of(probe()) == Some(m),
        _ => false,
    }
}

/// The message that opens a probe exchange.
pub fn probe_message() -> (r: Message)
    ensures
        r == probe(),
{
    Message::Ping
}

/// Judges the first frame read back after the probe was sent: the
/// acknowledgment is success, any other message is unexpected, a decode
/// error is handed on as it is, and no frame at all is a premature end.
pub fn check_reply(reply: Option<Result<Message, Error>>) -> (r: Result<(), ClientError>)
    ensures
        r is Ok <==> reply_outcome_ok(reply),
        reply is None ==> r == Err::<(), ClientError>(ClientError::UnexpectedEof),
        forall|e: Error| reply == Some(Err::<Message, Error>(e)) ==> r == Err::<(), ClientError>(
            ClientError::Codec(e),
        ),
        forall|m: Message|
            reply == Some(Ok::<Message, Error>(m)) && response_of(probe()) != Some(m) ==> r
                == Err::<(), ClientError>(ClientError::UnexpectedMessage(m)),
{
    match reply {
        Some(Ok(m)) => {
            let expected = probe_message().response();
            match expected {
                Some(ack) => {
                    if ack == m {
                        Ok(())
                    } else {
                        Err(ClientError::UnexpectedMessage(m))
                    }
                },
                None => Err(ClientError::UnexpectedMessage(m)),
            }
        },
        Some(Err(e)) => Err(ClientError::Codec(e)),
        None => Err(ClientError::UnexpectedEof),
    }
}

} // verus!
