//! A UUID in front of a payload: a sender puts its 16 UUID bytes before the
//! payload, a receiver takes them off again.
use vstd::prelude::*;

verus! {

/// The 16 bytes of a UUID, in the order that `uuid::Uuid::as_bytes` gives them.
#[derive(Debug, Clone, Copy, PartialEq, Eq)]
pub struct UuidBytes {
    pub bytes: [u8; 16],
}

impl View for UuidBytes {
    type V = Seq<u8>;

    open spec fn view(&self) -> Seq<u8> {
        self.bytes@
    }
}

/// Why a buffer does not start with a UUID.
#[derive(Debug, Clone, Copy, PartialEq, Eq, Structural)]
pub enum ExtractUuidError {
    /// The buffer is shorter than a UUID.
    MissingUuid,
    /// The `uuid` crate refused the 16 leading bytes.
    InvalidUuid,
}

#[verifier::external_type_specification]
#[verifier::external_body]
pub struct ExUuidError(uuid::Error);

/// Calls `uuid::Uuid::from_slice` and hands back the bytes of the UUID it
/// builds. Trusted: the `uuid` crate documents, and its source shows, that the
/// call succeeds exactly on a slice of 16 bytes and that the UUID then holds
/// those bytes in order.
#[verifier::external_body]
fn uuid_from_slice(bytes: &[u8]) -> (result: Result<[u8; 16], uuid::Error>)
    ensures
        result is Ok <==> bytes@.len() == 16,
        result matches Ok(b) ==> b@ == bytes@,
{
    match uuid::Uuid::from_slice(bytes) {
        Ok(u) => Ok(u.into_bytes()),
        Err(e) => Err(e),
    }
}

/// Puts the 16 bytes of `uuid` in front of `bytes`.
pub fn inject_uuid(bytes: Vec<u8>, uuid: UuidBytes) -> (framed: Vec<u8>)
    ensures
        framed@ == uuid@ + bytes@,
{
    let mut new_bytes: Vec<u8> = Vec::new();
    let mut i: usize = 0;
    while i < 16
        invariant
            i <= 16,
            new_bytes@ == uuid@.take(i as int),
        decreases 16 - i,
    {
        new_bytes.push(uuid.bytes[i]);
        i = i + 1;
        assert(new_bytes@ =~= uuid@.take(i as int));
    }
    let mut j: usize = 0;
    while j < bytes.len()
        invariant
            j <= bytes@.len(),
            new_bytes@ == uuid@ + bytes@.take(j as int),
        decreases bytes@.len() - j,
    {
        new_bytes.push(bytes[j]);
        j = j + 1;
        assert(new_bytes@ =~= uuid@ + bytes@.take(j as int));
    }
    assert(bytes@.take(bytes@.len() as int) =~= bytes@);
    new_bytes
}

/// Takes the UUID off the front of `buf` and returns it with the payload
/// that follows it. Fails with `MissingUuid` exactly when `buf` is shorter than
/// 16 bytes.
pub fn extract_uuid(buf: &[u8]) -> (result: Result<(UuidBytes, Vec<u8>), ExtractUuidError>)
    ensures
        result is Ok <==> buf@.len() >= 16,
        result matches Ok((uuid, payload)) ==> uuid@ == buf@.take(16) && payload@ == buf@.skip(
            16,
        ),
        result matches Err(e) ==> e == ExtractUuidError::MissingUuid,
{
    if buf.len() < 16 {
        return Err(ExtractUuidError::MissingUuid);
    }
    let head = vstd::slice::slice_subrange(buf, 0, 16);
    let bytes = match uuid_from_slice(head) {
        Ok(b) => b,
        Err(_) => {
            return Err(ExtractUuidError::InvalidUuid);
        },
    };
    let payload = vstd::slice::slice_to_vec(vstd::slice::slice_subrange(buf, 16, buf.len()));
    assert(payload@ =~= buf@.skip(16));
    assert(head@ =~= buf@.take(16));
    Ok((UuidBytes { bytes }, payload))
}

/// Taking the UUID off a buffer that `inject_uuid` built gives back the UUID
/// and the payload it was given: the two functions undo each other.
pub proof fn lemma_extract_inject(uuid: UuidBytes, payload: Seq<u8>)
    ensures
        (uuid@ + payload).len() >= 16,
        (uuid@ + payload).take(16) == uuid@,
        (uuid@ + payload).skip(16) == payload,
{
    assert((uuid@ + payload).take(16) =~= uuid@);
    assert((uuid@ + payload).skip(16) =~= payload);
}

} // verus!
