use vstd::prelude::*;

verus! {

/// Errors raised while walking a tape container.
///
/// `UnexpectedEndOfInput` is fatal: a sequential format cannot be trusted
/// past a truncation. `InvalidFlag` and `InvalidHeaderKind` mark an
/// unrecognized tag byte. `MalformedArrayHeader` is raised only under the
/// strict decoding policy, when an array header's trailing reserved bytes
/// do not carry their conventional value.
#[derive(Clone, Copy, Debug, PartialEq, Eq, Structural)]
pub enum TapeError {
    UnexpectedEndOfInput,
    InvalidFlag,
    InvalidHeaderKind,
    MalformedArrayHeader,
}

/// How a decoder treats the soft anomaly of an array header whose
/// reserved bytes differ from the conventional `[0x00, 0x80]`:
/// `Strict` fails with `MalformedArrayHeader`, `Lenient` (the default
/// policy of this format's tooling) keeps the decoded-but-suspect fields.
#[derive(Clone, Copy, Debug, PartialEq, Eq, Structural)]
pub enum DecodePolicy {
    Strict,
    Lenient,
}

} // verus!
