//! Endpoints and the typed envelopes that travel between them.
use vstd::prelude::*;
use crate::error::SendError;

verus! {

/// An opaque reference to an actor's mailbox. Two references are the same
/// endpoint exactly when their ids are equal.
#[derive(Clone, Copy, Debug, PartialEq, Eq, Hash, Structural)]
pub struct Endpoint {
    pub id: u64,
}

/// A payload together with the tag of the type it was made from.
#[derive(Debug, PartialEq, Eq)]
pub struct Envelope {
    pub type_tag: u64,
    pub payload: Vec<u8>,
}

impl View for Envelope {
    type V = (u64, Seq<u8>);

    open spec fn view(&self) -> (u64, Seq<u8>) {
        (self.type_tag, self.payload@)
    }
}

/// What reading an envelope as a value of the type tagged `expected` gives:
/// the payload where the tags agree, a type mismatch where they do not.
pub open spec fn interpreted(envelope: (u64, Seq<u8>), expected: u64) -> Result<Seq<u8>, SendError> {
    if envelope.0 == expected {
        Ok(envelope.1)
    } else {
        Err(SendError::TypeMismatch)
    }
}

/// `interpreted`, with the payload seen through its view.
pub open spec fn same_reading(got: Result<Vec<u8>, SendError>, want: Result<Seq<u8>, SendError>) -> bool {
    match (got, want) {
        (Ok(bytes), Ok(seq)) => bytes@ == seq,
        (Err(e), Err(f)) => e == f,
        _ => false,
    }
}

impl Clone for Envelope {
    fn clone(&self) -> (copy: Envelope)
        ensures
            copy@ == self@,
    {
        self.duplicate()
    }
}

impl Envelope {
    /// Wraps `payload` as a value of the type tagged `type_tag`.
    pub fn new(type_tag: u64, payload: Vec<u8>) -> (envelope: Envelope)
        ensures
            envelope@ == (type_tag, payload@),
    {
        Envelope { type_tag, payload }
    }

    /// A second envelope with the same tag and the same bytes.
    pub fn duplicate(&self) -> (copy: Envelope)
        ensures
            copy@ == self@,
    {
        let mut payload: Vec<u8> = Vec::new();
        let mut i: usize = 0;
        while i < self.payload.len()
            invariant
                i <= self.payload.len(),
                payload@ == self.payload@.take(i as int),
            decreases self.payload.len() - i,
        {
            payload.push(self.payload[i]);
            i += 1;
        }
        assert(self.payload@.take(self.payload.len() as int) =~= self.payload@);
        Envelope { type_tag: self.type_tag, payload }
    }

    /// Reads the envelope as a value of the type tagged `expected`: the one
    /// handler for that type takes the payload, the fallback reports a
    /// mismatch.
    pub fn interpret(self, expected: u64) -> (reading: Result<Vec<u8>, SendError>)
        ensures
            same_reading(reading, interpreted(self@, expected)),
    {
        if self.type_tag == expected {
            Ok(self.payload)
        } else {
            Err(SendError::TypeMismatch)
        }
    }
}

} // verus!
