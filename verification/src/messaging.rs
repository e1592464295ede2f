//! What the message queue makes of a delivered message.
use vstd::prelude::*;

use crate::error::Error;

verus! {

/// The content of a delivered message, or the error for a message that came
/// without content.
pub fn message_payload(content: Option<Vec<u8>>) -> (res: Result<Vec<u8>, Error>)
    ensures
        match content {
            Some(bytes) => res == Ok::<Vec<u8>, Error>(bytes),
            None => res == Err::<Vec<u8>, Error>(Error::MessageQueueNoMessage),
        },
{
    match content {
        Some(bytes) => Ok(bytes),
        None => Err(Error::MessageQueueNoMessage),
    }
}

} // verus!
