//! The client's side of authentication: the private SSH keys it tries, read from
//! their OpenSSH text, and the signatures they make over the server's token.

use vstd::prelude::*;

use ssh_encoding::Encode;

use super::{ssh_signature_decodes, AuthError, SshSignature, SIGNATURE_NAMESPACE};

verus! {

/// Whether `ssh_key::PrivateKey::from_openssh` reads a private key from `content`.
pub uninterp spec fn openssh_private_key_parses(content: Seq<char>) -> bool;

/// The SSH wire encoding of the signature that the private key in the OpenSSH text
/// `private_key` makes over `message` in the namespace `review` with SHA-512; none
/// where the key cannot be read or cannot sign.
pub uninterp spec fn ssh_signature_of(private_key: Seq<char>, message: Seq<u8>) -> Option<Seq<u8>>;

/// Whether `ssh_key::PrivateKey::from_openssh` accepts `content`. The answer is
/// named: it depends on the text alone.
#[verifier::external_body]
fn private_key_parses(content: &str) -> (r: bool)
    ensures
        r == openssh_private_key_parses(content@),
{
    ssh_key::PrivateKey::from_openssh(content).is_ok()
}

/// The key read by `ssh_key::PrivateKey::from_openssh` from `private_key` signs
/// `message` with `PrivateKey::sign` in the namespace `review` with SHA-512, and the
/// signature is written out by `ssh_encoding::Encode::encode`; none where any of the
/// three fails. The result is named: the keys that can sign here sign
/// deterministically (Ed25519; ECDSA by RFC 6979; RSA by PKCS#1 v1.5; DSA support
/// is not built, so such keys fail), so it depends on the two arguments alone. What
/// `Encode` writes for an `SshSig`, its `Decode` reads back.
#[verifier::external_body]
fn sign_encoded(private_key: &str, message: &[u8]) -> (r: Option<Vec<u8>>)
    ensures
        r matches Some(b) ==> ssh_signature_of(private_key@, message@) == Some(b@)
            && ssh_signature_decodes(b@),
        r is None ==> ssh_signature_of(private_key@, message@) is None,
{
    let Ok(key) = ssh_key::PrivateKey::from_openssh(private_key) else { return None };
    let hash = ssh_key::HashAlg::Sha512;
    let Ok(signature) = key.sign(SIGNATURE_NAMESPACE, hash, message) else { return None };
    let mut encoded: Vec<u8> = Vec::new();
    match signature.encode(&mut encoded) {
        Ok(()) => Some(encoded),
        Err(_) => None,
    }
}

/// A private SSH key, held as the OpenSSH text it was read from, which always
/// parses.
#[derive(Debug, PartialEq, Eq)]
pub struct SshPrivateKey {
    openssh: String,
}

/// Why no private key could be had.
#[derive(Debug, Clone, Copy, PartialEq, Eq, Structural)]
pub enum KeyError {
    /// The key file given explicitly could not be read.
    ExplicitKeyUnreadable,
    /// The text is not a private key in the OpenSSH format.
    InvalidKey,
}

/// Where the private keys to try come from: the file given explicitly, or every
/// file of the SSH directory. A file is given by its content, or by `None` where it
/// could not be read as text.
#[derive(Debug, Clone, PartialEq, Eq)]
pub enum KeyFiles {
    Explicit(Option<String>),
    Directory(Vec<Option<String>>),
}

/// A signature over the token and the position of the private key that made it.
#[derive(Debug, Clone, PartialEq, Eq)]
pub struct KeySignature {
    pub key_index: usize,
    pub signature: SshSignature,
}

impl View for SshPrivateKey {
    type V = Seq<char>;

    closed spec fn view(&self) -> Seq<char> {
        self.openssh@
    }
}

impl Clone for SshPrivateKey {
    fn clone(&self) -> (r: SshPrivateKey)
        ensures
            r@ == self@,
    {
        proof {
            use_type_invariant(self);
        }
        SshPrivateKey { openssh: self.openssh.clone() }
    }
}

impl SshPrivateKey {
    #[verifier::type_invariant]
    spec fn parses(self) -> bool {
        openssh_private_key_parses(self.openssh@)
    }

    /// The OpenSSH text of the key.
    pub fn openssh(&self) -> (r: &str)
        ensures
            r@ == self@,
            openssh_private_key_parses(self@),
    {
        proof {
            use_type_invariant(self);
        }
        self.openssh.as_str()
    }
}

/// The private key in the OpenSSH text `content`.
pub fn load_private_key(content: &str) -> (r: Result<SshPrivateKey, KeyError>)
    ensures
        match r {
            Ok(key) => openssh_private_key_parses(content@) && key@ == content@,
            Err(e) => e == KeyError::InvalidKey && !openssh_private_key_parses(content@),
        },
{
    if private_key_parses(content) {
        Ok(SshPrivateKey { openssh: content.to_owned() })
    } else {
        Err(KeyError::InvalidKey)
    }
}

/// The texts of `keys`, in order.
pub open spec fn key_views(keys: Seq<SshPrivateKey>) -> Seq<Seq<char>> {
    keys.map_values(|k: SshPrivateKey| k@)
}

/// The contents among `files` that are private keys, in order.
pub open spec fn parsing_keys(files: Seq<Option<String>>) -> Seq<Seq<char>>
    decreases files.len(),
{
    if files.len() == 0 {
        seq![]
    } else {
        let rest = parsing_keys(files.drop_last());
        match files.last() {
            Some(content) => if openssh_private_key_parses(content@) {
                rest.push(content@)
            } else {
                rest
            },
            None => rest,
        }
    }
}

/// The keys read from a directory are its readable files that are private keys,
/// each in its place: the positions returned are files that parse, increasing, the
/// key at each is that file's text, and every readable file that parses, wherever it
/// stands, is among them.
pub proof fn lemma_parsing_keys_positions(files: Seq<Option<String>>) -> (positions: Seq<int>)
    ensures
        positions.len() == parsing_keys(files).len(),
        forall|k: int|
            0 <= k < positions.len() ==> 0 <= #[trigger] positions[k] < files.len() && (
            files[positions[k]] matches Some(c) && c@ == parsing_keys(files)[k]
                && openssh_private_key_parses(c@)),
        forall|k: int, m: int|
            0 <= k < m < positions.len() ==> #[trigger] positions[k] < #[trigger] positions[m],
        forall|i: int|
            0 <= i < files.len() && ((#[trigger] files[i]) matches Some(c)
                && openssh_private_key_parses(c@)) ==> positions.contains(i),
    decreases files.len(),
{
    if files.len() == 0 {
        Seq::empty()
    } else {
        let init = files.drop_last();
        let n = files.len() - 1;
        let before = lemma_parsing_keys_positions(init);
        assert forall|i: int| 0 <= i < init.len() implies #[trigger] init[i] == files[i] by {}
        let parses_last = match files.last() {
            Some(c) => openssh_private_key_parses(c@),
            None => false,
        };
        let positions = if parses_last {
            before.push(n)
        } else {
            before
        };
        assert forall|k: int| 0 <= k < before.len() implies #[trigger] positions[k] == before[k] by {}
        assert forall|k: int| 0 <= k < positions.len() implies 0 <= #[trigger] positions[k] < files.len()
            && (files[positions[k]] matches Some(c) && c@ == parsing_keys(files)[k]
            && openssh_private_key_parses(c@)) by {
            if k < before.len() {
                assert(before[k] < init.len());
                assert(files[before[k]] == init[before[k]]);
            }
        }
        assert forall|i: int|
            0 <= i < files.len() && ((#[trigger] files[i]) matches Some(c)
                && openssh_private_key_parses(c@)) implies positions.contains(i) by {
            if i < n {
                assert(init[i] == files[i]);
                assert(before.contains(i));
                let w = choose|w: int| 0 <= w < before.len() && before[w] == i;
                assert(positions[w] == i);
            } else {
                assert(positions[positions.len() - 1] == i);
            }
        }
        positions
    }
}

/// The private keys to try. A file given explicitly is the only key, and it must be
/// readable and a key; else every readable file of the directory that is a key, in
/// order, the others left out.
pub fn get_keys_to_check(files: &KeyFiles) -> (r: Result<Vec<SshPrivateKey>, KeyError>)
    ensures
        match files {
            KeyFiles::Explicit(None) => r == Err::<Vec<SshPrivateKey>, KeyError>(
                KeyError::ExplicitKeyUnreadable,
            ),
            KeyFiles::Explicit(Some(content)) => if openssh_private_key_parses(content@) {
                r matches Ok(v) && key_views(v@) == seq![content@]
            } else {
                r == Err::<Vec<SshPrivateKey>, KeyError>(KeyError::InvalidKey)
            },
            KeyFiles::Directory(contents) => r matches Ok(v) && key_views(v@) == parsing_keys(
                contents@,
            ),
        },
{
    match files {
        KeyFiles::Explicit(None) => Err(KeyError::ExplicitKeyUnreadable),
        KeyFiles::Explicit(Some(content)) => match load_private_key(content.as_str()) {
            Ok(key) => {
                let mut keys: Vec<SshPrivateKey> = Vec::new();
                keys.push(key);
                assert(key_views(keys@) =~= seq![content@]);
                Ok(keys)
            },
            Err(e) => Err(e),
        },
        KeyFiles::Directory(contents) => {
            let mut keys: Vec<SshPrivateKey> = Vec::new();
            let mut i: usize = 0;
            while i < contents.len()
                invariant
                    i <= contents.len(),
                    key_views(keys@) == parsing_keys(contents@.take(i as int)),
                decreases contents.len() - i,
            {
                let ghost before = keys@;
                assert(contents@.take(i + 1).drop_last() =~= contents@.take(i as int));
                match &contents[i] {
                    Some(content) => match load_private_key(content.as_str()) {
                        Ok(key) => {
                            keys.push(key);
                            assert(key_views(keys@) =~= key_views(before).push(key@));
                        },
                        Err(_) => {},
                    },
                    None => {},
                }
                i = i + 1;
            }
            assert(contents@.take(contents.len() as int) =~= contents@);
            Ok(keys)
        },
    }
}

/// The signatures that `keys` make over `token`, in the order of the keys, each with
/// the position of its key; the keys that cannot sign are left out.
pub open spec fn signatures_made(keys: Seq<Seq<char>>, token: Seq<u8>) -> Seq<(int, Seq<u8>)>
    decreases keys.len(),
{
    if keys.len() == 0 {
        seq![]
    } else {
        let rest = signatures_made(keys.drop_last(), token);
        match ssh_signature_of(keys.last(), token) {
            Some(signature) => rest.push((keys.len() - 1, signature)),
            None => rest,
        }
    }
}

/// The key positions and signature encodings of `signatures`, in order.
pub open spec fn key_signature_views(signatures: Seq<KeySignature>) -> Seq<(int, Seq<u8>)> {
    signatures.map_values(|s: KeySignature| (s.key_index as int, s.signature@))
}

/// Every key that can sign contributes its signature, once, and nothing else is
/// made: each signature made is the one its key makes over `token`, the key
/// positions increase, and every key that can sign is among them with its
/// signature.
pub proof fn lemma_signatures_made_exactly(keys: Seq<Seq<char>>, token: Seq<u8>)
    ensures
        forall|k: int|
            0 <= k < signatures_made(keys, token).len() ==> {
                let (i, s) = #[trigger] signatures_made(keys, token)[k];
                0 <= i < keys.len() && ssh_signature_of(keys[i], token) == Some(s)
            },
        forall|k: int, m: int|
            0 <= k < m < signatures_made(keys, token).len() ==> (#[trigger] signatures_made(
                keys,
                token,
            )[k]).0 < (#[trigger] signatures_made(keys, token)[m]).0,
        forall|i: int|
            0 <= i < keys.len() ==> ((#[trigger] ssh_signature_of(keys[i], token)) matches Some(s)
                ==> signatures_made(keys, token).contains((i, s))),
    decreases keys.len(),
{
    if keys.len() > 0 {
        let init = keys.drop_last();
        let n = keys.len() - 1;
        lemma_signatures_made_exactly(init, token);
        let before = signatures_made(init, token);
        let after = signatures_made(keys, token);
        assert forall|i: int| 0 <= i < init.len() implies #[trigger] init[i] == keys[i] by {}
        assert forall|k: int| 0 <= k < before.len() implies #[trigger] after[k] == before[k] by {}
        assert forall|k: int| 0 <= k < before.len() implies (#[trigger] before[k]).0 < n by {
            let (i, s) = before[k];
            assert(0 <= i < init.len());
        }
        assert forall|k: int| 0 <= k < after.len() implies {
            let (i, s) = #[trigger] after[k];
            0 <= i < keys.len() && ssh_signature_of(keys[i], token) == Some(s)
        } by {
            if k < before.len() {
                let (i, s) = before[k];
                assert(ssh_signature_of(init[i], token) == Some(s));
                assert(init[i] == keys[i]);
            }
        }
        assert forall|k: int, m: int| 0 <= k < m < after.len() implies (#[trigger] after[k]).0 < (
        #[trigger] after[m]).0 by {
            assert(before[k].0 < n);
            if m < before.len() {
                assert(before[k].0 < before[m].0);
            }
        }
        assert forall|i: int|
            0 <= i < keys.len() implies ((#[trigger] ssh_signature_of(keys[i], token)) matches Some(s)
                ==> after.contains((i, s))) by {
            if let Some(s) = ssh_signature_of(keys[i], token) {
                if i < n {
                    assert(init[i] == keys[i]);
                    assert(ssh_signature_of(init[i], token) == Some(s));
                    assert(before.contains((i, s)));
                    let w = choose|w: int| 0 <= w < before.len() && before[w] == (i, s);
                    assert(after[w] == (i, s));
                } else {
                    assert(keys.last() == keys[i]);
                    assert(after[after.len() - 1] == (i, s));
                }
            }
        }
    }
}

/// No signature is made over `token` exactly where none of `keys` can sign it.
pub proof fn lemma_no_signature_made(keys: Seq<Seq<char>>, token: Seq<u8>)
    ensures
        (signatures_made(keys, token).len() == 0) <==> forall|i: int|
            0 <= i < keys.len() ==> (#[trigger] ssh_signature_of(keys[i], token)) is None,
    decreases keys.len(),
{
    if keys.len() > 0 {
        let init = keys.drop_last();
        lemma_no_signature_made(init, token);
        if signatures_made(keys, token).len() == 0 {
            assert forall|i: int| 0 <= i < keys.len() implies (#[trigger] ssh_signature_of(
                keys[i],
                token,
            )) is None by {
                if i < keys.len() - 1 {
                    assert(keys[i] == init[i]);
                }
            }
        } else {
            if forall|i: int| 0 <= i < keys.len() ==> (#[trigger] ssh_signature_of(keys[i], token)) is None {
                assert(ssh_signature_of(keys[keys.len() - 1], token) is None);
                assert forall|i: int| 0 <= i < init.len() implies (#[trigger] ssh_signature_of(
                    init[i],
                    token,
                )) is None by {
                    assert(init[i] == keys[i]);
                }
            }
        }
    }
}

/// Signs `token` with each of `keys`; the signatures that were made, in the order of
/// the keys and each with the position of its key, where at least one was.
pub fn sign_token_with_keys(keys: &Vec<SshPrivateKey>, token: &Vec<u8>) -> (r: Result<
    Vec<KeySignature>,
    AuthError,
>)
    ensures
        match r {
            Ok(v) => key_signature_views(v@) == signatures_made(key_views(keys@), token@)
                && v.len() > 0,
            Err(e) => e == AuthError::NoSigningKey && signatures_made(key_views(keys@), token@).len()
                == 0,
        },
        (r is Err) <==> forall|i: int|
            0 <= i < keys.len() ==> (#[trigger] ssh_signature_of(keys@[i]@, token@)) is None,
{
    let ghost views = key_views(keys@);
    let mut made: Vec<KeySignature> = Vec::new();
    let mut i: usize = 0;
    while i < keys.len()
        invariant
            i <= keys.len(),
            views == key_views(keys@),
            key_signature_views(made@) == signatures_made(views.take(i as int), token@),
        decreases keys.len() - i,
    {
        let ghost before = made@;
        assert(views.take(i + 1).drop_last() =~= views.take(i as int));
        assert(views.take(i + 1).last() == keys@[i as int]@);
        match sign_encoded(keys[i].openssh(), token.as_slice()) {
            Some(encoded) => {
                let signature = SshSignature::from_decodable(encoded);
                let made_one = KeySignature { key_index: i, signature };
                made.push(made_one);
                assert(key_signature_views(made@) =~= key_signature_views(before).push(
                    (i as int, signature@),
                ));
            },
            None => {},
        }
        i = i + 1;
    }
    proof {
        assert(views.take(keys.len() as int) =~= views);
        lemma_no_signature_made(views, token@);
        assert forall|i: int| 0 <= i < keys.len() implies (#[trigger] ssh_signature_of(
            keys@[i]@,
            token@,
        )) == ssh_signature_of(views[i], token@) by {
            assert(views[i] == keys@[i]@);
        }
    }
    if made.len() == 0 {
        return Err(AuthError::NoSigningKey);
    }
    Ok(made)
}

/// The position of the private key that made the signature at `index`, the one the
/// server reports authorized; none where there is no such signature.
pub fn signing_key_index(signatures: &Vec<KeySignature>, index: usize) -> (r: Option<usize>)
    ensures
        match r {
            Some(k) => index < signatures.len() && k == signatures@[index as int].key_index,
            None => index >= signatures.len(),
        },
{
    if index < signatures.len() {
        Some(signatures[index].key_index)
    } else {
        None
    }
}

} // verus!
