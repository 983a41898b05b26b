use vstd::prelude::*;

verus! {

/// The one failure the encoder reports: the caller asked it to encode a
/// value shape the flat format cannot represent. The payload is the name
/// of the rejected shape.
#[derive(Clone, Copy, Debug)]
pub enum Error {
    Unsupported(&'static str),
}

impl Error {
    /// The name of the shape that was rejected.
    pub fn shape(&self) -> (r: &'static str)
        ensures
            self matches Error::Unsupported(m) && r@ == m@,
    {
        match self {
            Error::Unsupported(m) => m,
        }
    }
}

} // verus!
