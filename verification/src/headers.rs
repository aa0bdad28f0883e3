//! The two custom request headers the listener reads. The transport-level
//! header extraction lives outside the library; these types carry the values.
use vstd::prelude::*;

verus! {

/// The value of the `x-signature-timestamp` header.
pub struct XSignatureTimestamp(pub String);

impl XSignatureTimestamp {
    /// The header's name on the wire.
    pub fn name() -> (r: &'static str)
        ensures
            r@ == "x-signature-timestamp"@,
    {
        "x-signature-timestamp"
    }
}

/// The value of the `x-signature-ed25519` header: the hex-encoded signature.
pub struct XSignatureEd25519(pub String);

impl XSignatureEd25519 {
    /// The header's name on the wire.
    pub fn name() -> (r: &'static str)
        ensures
            r@ == "x-signature-ed25519"@,
    {
        "x-signature-ed25519"
    }
}

} // verus!
