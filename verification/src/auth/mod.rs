//! Authentication of a client by SSH signatures over a random token: the messages
//! exchanged, the signatures carried in them, and the choice of the authorized key.

use vstd::prelude::*;
use vstd::slice::slice_to_vec;

use ssh_encoding::Decode;

pub mod keys;

verus! {

/// The namespace in which signatures over the token are made.
pub const SIGNATURE_NAMESPACE: &'static str = "review";

/// The bytes of an authentication token.
pub const TOKEN_LENGTH: usize = 128;

/// Whether `ssh_key::SshSig::decode` accepts `encoded`.
pub uninterp spec fn ssh_signature_decodes(encoded: Seq<u8>) -> bool;

/// Whether the public key whose SSH wire encoding is `public_key` verifies the
/// signature encoded as `signature` over `message` in the namespace `review`.
pub uninterp spec fn ssh_signature_verifies(
    public_key: Seq<u8>,
    message: Seq<u8>,
    signature: Seq<u8>,
) -> bool;

/// `rand::random::<[u8; 128]>()`, as a vector. Only its length is stated: the bytes
/// are random.
#[verifier::external_body]
fn random_token_bytes() -> (r: Vec<u8>)
    ensures
        r.len() == TOKEN_LENGTH,
{
    let token: [u8; 128] = rand::random();
    token.to_vec()
}

/// Whether `ssh_encoding::Decode::decode` reads an `ssh_key::SshSig` from `encoded`.
/// The answer is named: it depends on the bytes alone.
#[verifier::external_body]
fn signature_decodes(encoded: &[u8]) -> (r: bool)
    ensures
        r == ssh_signature_decodes(encoded@),
{
    let mut reader: &[u8] = encoded;
    ssh_key::SshSig::decode(&mut reader).is_ok()
}

/// `ssh_key::PublicKey::verify` in the namespace `review`, of the key read by
/// `PublicKey::from_bytes` from `public_key` and the signature read by
/// `SshSig::decode` from `signature`; `false` where either cannot be read. The answer
/// is named: it depends on the three byte strings alone.
#[verifier::external_body]
fn verify_signature(public_key: &[u8], message: &[u8], signature: &[u8]) -> (r: bool)
    ensures
        r == ssh_signature_verifies(public_key@, message@, signature@),
{
    let Ok(key) = ssh_key::PublicKey::from_bytes(public_key) else { return false };
    let mut reader: &[u8] = signature;
    let Ok(signature) = ssh_key::SshSig::decode(&mut reader) else { return false };
    key.verify(SIGNATURE_NAMESPACE, message, &signature).is_ok()
}

/// The random token that the server asks the client to sign.
#[derive(Debug, Clone, PartialEq, Eq)]
pub struct AuthentificationToken {
    pub token: Vec<u8>,
}

/// An SSH signature, held in its wire encoding, which always decodes.
#[derive(Debug, PartialEq, Eq)]
pub struct SshSignature {
    encoded: Vec<u8>,
}

/// The client's signatures over the token, each in SSH wire encoding.
#[derive(Debug, Clone, PartialEq, Eq)]
pub struct Signatures {
    pub encoded_signatures: Vec<Vec<u8>>,
}

/// The position, among the signatures the client sent, of the one that an
/// authorized key verifies.
#[derive(Debug, Clone, Copy, PartialEq, Eq, Structural)]
pub struct AuthorizedPublicKey {
    pub index: usize,
}

/// Why authentication failed.
#[derive(Debug, Clone, Copy, PartialEq, Eq, Structural)]
pub enum AuthError {
    /// A signature received could not be decoded.
    SignatureDecoding,
    /// No authorized key verifies any of the signatures.
    NoAuthorizedKey,
    /// None of the private keys could sign the token.
    NoSigningKey,
}

/// The signature found and the authorized key that verifies it.
#[derive(Debug, Clone, Copy, PartialEq, Eq, Structural)]
pub struct KeyMatch {
    /// Position among the signatures received.
    pub signature_index: usize,
    /// Position among the authorized keys.
    pub key_index: usize,
}

impl AuthentificationToken {
    /// A fresh token of random bytes.
    pub fn generate() -> (r: AuthentificationToken)
        ensures
            r.token.len() == TOKEN_LENGTH,
    {
        AuthentificationToken { token: random_token_bytes() }
    }
}

impl View for SshSignature {
    type V = Seq<u8>;

    closed spec fn view(&self) -> Seq<u8> {
        self.encoded@
    }
}

impl Clone for SshSignature {
    fn clone(&self) -> (r: SshSignature)
        ensures
            r@ == self@,
    {
        proof {
            use_type_invariant(self);
        }
        SshSignature { encoded: slice_to_vec(self.encoded.as_slice()) }
    }
}

impl SshSignature {
    #[verifier::type_invariant]
    spec fn decodes(self) -> bool {
        ssh_signature_decodes(self.encoded@)
    }

    /// The signature encoded as `encoded`, where that decodes.
    pub fn decode(encoded: Vec<u8>) -> (r: Option<SshSignature>)
        ensures
            (r is Some) <==> ssh_signature_decodes(encoded@),
            r matches Some(s) ==> s@ == encoded@,
    {
        if signature_decodes(encoded.as_slice()) {
            Some(SshSignature { encoded })
        } else {
            None
        }
    }

    /// A signature whose encoding is known to decode.
    pub(crate) fn from_decodable(encoded: Vec<u8>) -> (r: SshSignature)
        requires
            ssh_signature_decodes(encoded@),
        ensures
            r@ == encoded@,
    {
        SshSignature { encoded }
    }

    /// The wire encoding.
    pub fn encoded(&self) -> (r: &[u8])
        ensures
            r@ == self@,
            ssh_signature_decodes(self@),
    {
        proof {
            use_type_invariant(self);
        }
        self.encoded.as_slice()
    }
}

/// The wire encodings of `signatures`, in order.
pub open spec fn signature_views(signatures: Seq<SshSignature>) -> Seq<Seq<u8>> {
    signatures.map_values(|s: SshSignature| s@)
}

/// Every signature in `encoded` decodes.
pub open spec fn all_signatures_decode(encoded: Seq<Seq<u8>>) -> bool {
    forall|i: int| 0 <= i < encoded.len() ==> ssh_signature_decodes(#[trigger] encoded[i])
}

/// What decoding the signatures `encoded` gives: each in order, where all decode.
pub open spec fn spec_decode_signatures(encoded: Seq<Seq<u8>>) -> Option<Seq<Seq<u8>>> {
    if all_signatures_decode(encoded) {
        Some(encoded)
    } else {
        None
    }
}

impl Signatures {
    /// The wire encodings of `signatures`, in order. Never refused: each signature
    /// is held in its encoding already.
    pub fn try_from(signatures: &Vec<SshSignature>) -> (r: Result<Signatures, AuthError>)
        ensures
            r matches Ok(s) && s.encoded_signatures.deep_view() == signature_views(signatures@),
            all_signatures_decode(signature_views(signatures@)),
    {
        let mut encoded_signatures: Vec<Vec<u8>> = Vec::new();
        let mut i: usize = 0;
        while i < signatures.len()
            invariant
                i <= signatures.len(),
                encoded_signatures.len() == i,
                forall|k: int|
                    0 <= k < i ==> (#[trigger] encoded_signatures@[k])@ == signatures@[k]@
                        && ssh_signature_decodes(signatures@[k]@),
            decreases signatures.len() - i,
        {
            let encoded = signatures[i].encoded();
            encoded_signatures.push(slice_to_vec(encoded));
            i = i + 1;
        }
        proof {
            assert forall|k: int| 0 <= k < signatures.len() implies #[trigger] encoded_signatures.deep_view()[k]
                == signature_views(signatures@)[k] by {
                assert(encoded_signatures@[k]@ == signatures@[k]@);
            }
            assert(encoded_signatures.deep_view() =~= signature_views(signatures@));
            assert forall|k: int| 0 <= k < signatures.len() implies ssh_signature_decodes(
                #[trigger] signature_views(signatures@)[k],
            ) by {
                assert(encoded_signatures@[k]@ == signatures@[k]@);
            }
        }
        Ok(Signatures { encoded_signatures })
    }

    /// The signatures decoded, in order; refused where any of them does not decode.
    pub fn try_into(self) -> (r: Result<Vec<SshSignature>, AuthError>)
        ensures
            match r {
                Ok(v) => spec_decode_signatures(self.encoded_signatures.deep_view()) == Some(
                    signature_views(v@),
                ),
                Err(e) => e == AuthError::SignatureDecoding && spec_decode_signatures(
                    self.encoded_signatures.deep_view(),
                ) is None,
            },
    {
        let ghost encoded = self.encoded_signatures.deep_view();
        let mut decoded: Vec<SshSignature> = Vec::new();
        let mut i: usize = 0;
        while i < self.encoded_signatures.len()
            invariant
                i <= self.encoded_signatures.len(),
                encoded == self.encoded_signatures.deep_view(),
                signature_views(decoded@) == encoded.take(i as int),
                forall|j: int| 0 <= j < i ==> ssh_signature_decodes(#[trigger] encoded[j]),
            decreases self.encoded_signatures.len() - i,
        {
            assert(encoded[i as int] == self.encoded_signatures[i as int]@);
            let bytes = slice_to_vec(self.encoded_signatures[i].as_slice());
            match SshSignature::decode(bytes) {
                Some(signature) => {
                    let ghost before = decoded@;
                    decoded.push(signature);
                    proof {
                        assert(decoded@ == before.push(signature));
                        assert(signature_views(decoded@) =~= signature_views(before).push(
                            signature@,
                        ));
                        assert(encoded.take(i + 1) =~= encoded.take(i as int).push(
                            encoded[i as int],
                        ));
                    }
                },
                None => return Err(AuthError::SignatureDecoding),
            }
            i = i + 1;
        }
        assert(encoded.take(i as int) =~= encoded);
        Ok(decoded)
    }
}

/// Decoding what `Signatures::try_from` encoded gives back the same signatures, in
/// the same order.
pub proof fn lemma_signature_roundtrip(signatures: Seq<SshSignature>)
    requires
        all_signatures_decode(signature_views(signatures)),
    ensures
        spec_decode_signatures(signature_views(signatures)) == Some(signature_views(signatures)),
{
}

/// `j` is the first of the `keys` that verifies `signature` over `token`.
pub open spec fn is_first_verifying_key(
    keys: Seq<Seq<u8>>,
    token: Seq<u8>,
    signature: Seq<u8>,
    j: int,
) -> bool {
    &&& 0 <= j < keys.len()
    &&& ssh_signature_verifies(keys[j], token, signature)
    &&& forall|k: int|
        0 <= k < j ==> !ssh_signature_verifies(#[trigger] keys[k], token, signature)
}

/// Some of the `keys` verifies `signature` over `token`.
pub open spec fn some_key_verifies(keys: Seq<Seq<u8>>, token: Seq<u8>, signature: Seq<u8>) -> bool {
    exists|j: int| 0 <= j < keys.len() && ssh_signature_verifies(#[trigger] keys[j], token, signature)
}

/// `i` is the first of the `signatures` that some of the `keys` verifies.
pub open spec fn is_first_authorized_signature(
    keys: Seq<Seq<u8>>,
    token: Seq<u8>,
    signatures: Seq<Seq<u8>>,
    i: int,
) -> bool {
    &&& 0 <= i < signatures.len()
    &&& some_key_verifies(keys, token, signatures[i])
    &&& forall|k: int|
        0 <= k < i ==> !some_key_verifies(keys, token, #[trigger] signatures[k])
}

/// The first authorized key that verifies `signature` over `token`.
pub open spec fn spec_matching_key(keys: Seq<Seq<u8>>, token: Seq<u8>, signature: Seq<u8>) -> Option<int> {
    if some_key_verifies(keys, token, signature) {
        Some(choose|j: int| is_first_verifying_key(keys, token, signature, j))
    } else {
        None
    }
}

/// The outcome of authentication: refused where a signature does not decode; else
/// the first signature that an authorized key verifies, with the first such key.
pub open spec fn spec_find_authorized_key(
    keys: Seq<Seq<u8>>,
    token: Seq<u8>,
    signatures: Seq<Seq<u8>>,
) -> Result<KeyMatch, AuthError> {
    if !all_signatures_decode(signatures) {
        Err(AuthError::SignatureDecoding)
    } else if exists|i: int| 0 <= i < signatures.len() && some_key_verifies(keys, token, #[trigger] signatures[i]) {
        let i = choose|i: int| is_first_authorized_signature(keys, token, signatures, i);
        let j = choose|j: int| is_first_verifying_key(keys, token, signatures[i], j);
        Ok(KeyMatch { signature_index: i as usize, key_index: j as usize })
    } else {
        Err(AuthError::NoAuthorizedKey)
    }
}

proof fn lemma_first_verifying_key_unique(
    keys: Seq<Seq<u8>>,
    token: Seq<u8>,
    signature: Seq<u8>,
    j: int,
)
    requires
        is_first_verifying_key(keys, token, signature, j),
    ensures
        (choose|k: int| is_first_verifying_key(keys, token, signature, k)) == j,
{
    let k = choose|k: int| is_first_verifying_key(keys, token, signature, k);
    assert(is_first_verifying_key(keys, token, signature, k));
    if k < j {
        assert(!ssh_signature_verifies(keys[k], token, signature));
    } else if j < k {
        assert(!ssh_signature_verifies(keys[j], token, signature));
    }
}

/// Every signature is tried, from the first on: where all signatures decode, the
/// client is authenticated by the signature at `i` and the authorized key at `j`
/// exactly when that key verifies it, no authorized key verifies any earlier
/// signature, and no earlier authorized key verifies it.
pub proof fn lemma_first_verified_signature_authenticates(
    keys: Seq<Seq<u8>>,
    token: Seq<u8>,
    signatures: Seq<Seq<u8>>,
    i: int,
    j: int,
)
    requires
        all_signatures_decode(signatures),
        0 <= i < signatures.len(),
        0 <= j < keys.len(),
        ssh_signature_verifies(keys[j], token, signatures[i]),
        forall|k: int, l: int|
            0 <= k < i && 0 <= l < keys.len() ==> !ssh_signature_verifies(
                #[trigger] keys[l],
                token,
                #[trigger] signatures[k],
            ),
        forall|l: int| 0 <= l < j ==> !ssh_signature_verifies(#[trigger] keys[l], token, signatures[i]),
    ensures
        spec_find_authorized_key(keys, token, signatures) == Ok::<KeyMatch, AuthError>(
            KeyMatch { signature_index: i as usize, key_index: j as usize },
        ),
{
    assert(some_key_verifies(keys, token, signatures[i]));
    assert forall|k: int| 0 <= k < i implies !some_key_verifies(keys, token, #[trigger] signatures[k]) by {
        if some_key_verifies(keys, token, signatures[k]) {
            let l = choose|l: int| 0 <= l < keys.len() && ssh_signature_verifies(#[trigger] keys[l], token, signatures[k]);
            assert(!ssh_signature_verifies(keys[l], token, signatures[k]));
        }
    }
    assert(is_first_authorized_signature(keys, token, signatures, i));
    let c = choose|c: int| is_first_authorized_signature(keys, token, signatures, c);
    assert(is_first_authorized_signature(keys, token, signatures, c));
    if c < i {
        assert(!some_key_verifies(keys, token, signatures[c]));
    } else if i < c {
        assert(!some_key_verifies(keys, token, signatures[i]));
    }
    assert(is_first_verifying_key(keys, token, signatures[i], j));
    lemma_first_verifying_key_unique(keys, token, signatures[i], j);
}

/// Where all signatures decode and no authorized key verifies any of them, the
/// client is refused as unauthorized; where one does not decode, it is refused for
/// that, whatever the keys.
pub proof fn lemma_unauthenticated_clients_are_refused(
    keys: Seq<Seq<u8>>,
    token: Seq<u8>,
    signatures: Seq<Seq<u8>>,
)
    ensures
        (exists|k: int| 0 <= k < signatures.len() && !ssh_signature_decodes(#[trigger] signatures[k]))
            ==> spec_find_authorized_key(keys, token, signatures) == Err::<KeyMatch, AuthError>(
            AuthError::SignatureDecoding,
        ),
        (all_signatures_decode(signatures) && forall|k: int, l: int|
            0 <= k < signatures.len() && 0 <= l < keys.len() ==> !ssh_signature_verifies(
                #[trigger] keys[l],
                token,
                #[trigger] signatures[k],
            )) ==> spec_find_authorized_key(keys, token, signatures) == Err::<KeyMatch, AuthError>(
            AuthError::NoAuthorizedKey,
        ),
{
    if all_signatures_decode(signatures) && forall|k: int, l: int|
        0 <= k < signatures.len() && 0 <= l < keys.len() ==> !ssh_signature_verifies(
            #[trigger] keys[l],
            token,
            #[trigger] signatures[k],
        ) {
        assert forall|k: int| 0 <= k < signatures.len() implies !some_key_verifies(
            keys,
            token,
            #[trigger] signatures[k],
        ) by {
            if some_key_verifies(keys, token, signatures[k]) {
                let l = choose|l: int| 0 <= l < keys.len() && ssh_signature_verifies(#[trigger] keys[l], token, signatures[k]);
                assert(!ssh_signature_verifies(keys[l], token, signatures[k]));
            }
        }
    }
}

/// The position of the first of `authorized_keys` (each in SSH wire encoding) that
/// verifies `signature` over `token`.
pub fn get_authorized_key_matching_signature(
    token: &Vec<u8>,
    signature: &Vec<u8>,
    authorized_keys: &Vec<Vec<u8>>,
) -> (r: Option<usize>)
    ensures
        match r {
            Some(j) => is_first_verifying_key(authorized_keys.deep_view(), token@, signature@, j as int)
                && spec_matching_key(authorized_keys.deep_view(), token@, signature@) == Some(j as int),
            None => !some_key_verifies(authorized_keys.deep_view(), token@, signature@)
                && spec_matching_key(authorized_keys.deep_view(), token@, signature@) is None,
        },
{
    let ghost keys = authorized_keys.deep_view();
    let mut j: usize = 0;
    while j < authorized_keys.len()
        invariant
            j <= authorized_keys.len(),
            keys == authorized_keys.deep_view(),
            forall|k: int| 0 <= k < j ==> !ssh_signature_verifies(#[trigger] keys[k], token@, signature@),
        decreases authorized_keys.len() - j,
    {
        assert(keys[j as int] == authorized_keys[j as int]@);
        if verify_signature(authorized_keys[j].as_slice(), token.as_slice(), signature.as_slice()) {
            proof {
                assert(is_first_verifying_key(keys, token@, signature@, j as int));
                lemma_first_verifying_key_unique(keys, token@, signature@, j as int);
            }
            return Some(j);
        }
        j = j + 1;
    }
    None
}

/// Decides which of the client's signatures over `token` authenticates it, against
/// the `authorized_keys` of the device (each in SSH wire encoding).
pub fn find_authorized_key(
    token: &Vec<u8>,
    signatures: &Signatures,
    authorized_keys: &Vec<Vec<u8>>,
) -> (r: Result<KeyMatch, AuthError>)
    ensures
        r == spec_find_authorized_key(
            authorized_keys.deep_view(),
            token@,
            signatures.encoded_signatures.deep_view(),
        ),
{
    let ghost keys = authorized_keys.deep_view();
    let ghost sigs = signatures.encoded_signatures.deep_view();
    let n = signatures.encoded_signatures.len();
    let mut i: usize = 0;
    while i < n
        invariant
            n == signatures.encoded_signatures.len(),
            sigs == signatures.encoded_signatures.deep_view(),
            i <= n,
            forall|j: int| 0 <= j < i ==> ssh_signature_decodes(#[trigger] sigs[j]),
        decreases n - i,
    {
        assert(sigs[i as int] == signatures.encoded_signatures[i as int]@);
        if !signature_decodes(signatures.encoded_signatures[i].as_slice()) {
            return Err(AuthError::SignatureDecoding);
        }
        i = i + 1;
    }
    let mut i: usize = 0;
    while i < n
        invariant
            n == signatures.encoded_signatures.len(),
            sigs == signatures.encoded_signatures.deep_view(),
            keys == authorized_keys.deep_view(),
            all_signatures_decode(sigs),
            i <= n,
            forall|k: int| 0 <= k < i ==> !some_key_verifies(keys, token@, #[trigger] sigs[k]),
        decreases n - i,
    {
        assert(sigs[i as int] == signatures.encoded_signatures[i as int]@);
        match get_authorized_key_matching_signature(token, &signatures.encoded_signatures[i], authorized_keys) {
            Some(j) => {
                proof {
                    assert(is_first_authorized_signature(keys, token@, sigs, i as int));
                    let c = choose|c: int| is_first_authorized_signature(keys, token@, sigs, c);
                    assert(is_first_authorized_signature(keys, token@, sigs, c));
                    if c < i {
                        assert(!some_key_verifies(keys, token@, sigs[c]));
                    } else if i < c {
                        assert(!some_key_verifies(keys, token@, sigs[i as int]));
                    }
                    lemma_first_verifying_key_unique(keys, token@, sigs[i as int], j as int);
                }
                return Ok(KeyMatch { signature_index: i, key_index: j });
            },
            None => {},
        }
        i = i + 1;
    }
    Err(AuthError::NoAuthorizedKey)
}

} // verus!
