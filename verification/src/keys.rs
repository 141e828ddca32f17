//! Stored keys: a pair for encryption and a pair for signatures, in full or
//! with the public halves alone.

use crate::encoding::Base64Data;
use crate::sodium::{crypto_box, signing};
use crate::text::str_eq;
use vstd::prelude::*;
use vstd::string::*;

verus! {

/// What a stored key holds.
#[derive(Clone, Copy, Debug, PartialEq, Eq, Structural)]
pub enum KeyType {
    /// Public and secret halves.
    FullKey,
    /// The public halves alone.
    PublicKey,
}

impl KeyType {
    /// The word that stands for the type in a stored key.
    pub open spec fn spec_name(self) -> Seq<char> {
        match self {
            KeyType::PublicKey => "public"@,
            KeyType::FullKey => "full"@,
        }
    }

    /// The word that stands for the type in a stored key.
    pub fn name(self) -> (res: &'static str)
        ensures
            res@ == self.spec_name(),
    {
        match self {
            KeyType::PublicKey => "public",
            KeyType::FullKey => "full",
        }
    }

    /// The type that `word` stands for, if it stands for one.
    pub open spec fn of_name(word: Seq<char>) -> Option<KeyType> {
        if word == "public"@ {
            Some(KeyType::PublicKey)
        } else if word == "full"@ {
            Some(KeyType::FullKey)
        } else {
            None
        }
    }

    /// The type that `word` stands for, if it stands for one.
    pub fn parse(word: &str) -> (res: Option<KeyType>)
        ensures
            res == Self::of_name(word@),
    {
        if str_eq(word, "public") {
            Some(KeyType::PublicKey)
        } else if str_eq(word, "full") {
            Some(KeyType::FullKey)
        } else {
            None
        }
    }

    /// Every type is the type that its own word stands for.
    pub proof fn lemma_name_round_trip(kind: KeyType)
        ensures
            Self::of_name(kind.spec_name()) == Some(kind),
    {
        reveal_strlit("public");
        reveal_strlit("full");
        assert("public"@.len() != "full"@.len());
    }

    /// The ending of the name of the file that holds a key of this type.
    pub open spec fn spec_extension(self) -> Seq<char> {
        match self {
            KeyType::FullKey => ".key"@,
            KeyType::PublicKey => ".pub"@,
        }
    }
}

/// A stored key.
#[derive(Debug)]
pub struct Key {
    /// What the key holds.
    pub key_type: KeyType,
    /// The public key for encryption.
    pub enc_pk: Base64Data,
    /// The secret key for encryption, in a full key.
    pub enc_sk: Option<Base64Data>,
    /// The public key for signatures.
    pub sig_pk: Base64Data,
    /// The secret key for signatures, in a full key.
    pub sig_sk: Option<Base64Data>,
}

/// A stored key, as plain values.
pub struct KeyView {
    /// What the key holds.
    pub key_type: KeyType,
    /// The public key for encryption.
    pub enc_pk: Seq<u8>,
    /// The secret key for encryption, in a full key.
    pub enc_sk: Option<Seq<u8>>,
    /// The public key for signatures.
    pub sig_pk: Seq<u8>,
    /// The secret key for signatures, in a full key.
    pub sig_sk: Option<Seq<u8>>,
}

/// Bytes that may be there, as a sequence.
pub open spec fn data_view(data: Option<Base64Data>) -> Option<Seq<u8>> {
    match data {
        Some(data) => Some(data@),
        None => None,
    }
}

impl View for Key {
    type V = KeyView;

    open spec fn view(&self) -> KeyView {
        KeyView {
            key_type: self.key_type,
            enc_pk: self.enc_pk@,
            enc_sk: data_view(self.enc_sk),
            sig_pk: self.sig_pk@,
            sig_sk: data_view(self.sig_sk),
        }
    }
}

impl Key {
    /// The full key that two freshly generated key pairs make.
    pub fn full(enc_keypair: crypto_box::Keypair, sig_keypair: signing::Keypair) -> (res: Self)
        ensures
            res@ == (KeyView {
                key_type: KeyType::FullKey,
                enc_pk: enc_keypair.pk@,
                enc_sk: Some(enc_keypair.sk@),
                sig_pk: sig_keypair.public_key@,
                sig_sk: Some(sig_keypair.private_key@),
            }),
    {
        Key {
            key_type: KeyType::FullKey,
            enc_pk: Base64Data(enc_keypair.pk),
            enc_sk: Some(Base64Data(enc_keypair.sk)),
            sig_pk: Base64Data(sig_keypair.public_key),
            sig_sk: Some(Base64Data(sig_keypair.private_key)),
        }
    }

    /// The key with its public halves alone.
    pub fn export_public(&self) -> (res: Self)
        ensures
            res@ == (KeyView {
                key_type: KeyType::PublicKey,
                enc_pk: self@.enc_pk,
                enc_sk: None,
                sig_pk: self@.sig_pk,
                sig_sk: None,
            }),
    {
        Key {
            key_type: KeyType::PublicKey,
            enc_pk: self.enc_pk.clone(),
            enc_sk: None,
            sig_pk: self.sig_pk.clone(),
            sig_sk: None,
        }
    }
}

/// The name of the file that holds the key called `name`, or the key called
/// `key` where no name is given.
pub open spec fn key_file(name: Option<Seq<char>>, key_type: KeyType) -> Seq<char> {
    (match name {
        Some(name) => name,
        None => "key"@,
    }) + key_type.spec_extension()
}

/// The name of the file that holds the key called `name`, or the key called
/// `key` where no name is given: the name with `.key` behind it for a full
/// key and `.pub` for a public one.
pub fn key_file_name(name: Option<&str>, key_type: KeyType) -> (res: String)
    ensures
        res@ == key_file(
            match name {
                Some(name) => Some(name@),
                None => None,
            },
            key_type,
        ),
{
    let mut res = match name {
        Some(name) => String::from_str(name),
        None => String::from_str("key"),
    };
    match key_type {
        KeyType::FullKey => res.append(".key"),
        KeyType::PublicKey => res.append(".pub"),
    }
    res
}

/// Where a key of the type `key_type` is looked for when the file of that
/// type cannot be opened: a public key is then taken from the full key; a
/// full key has no stand-in.
pub fn fallback(key_type: KeyType) -> (res: Option<KeyType>)
    ensures
        res == if key_type == KeyType::PublicKey {
            Some(KeyType::FullKey)
        } else {
            None
        },
{
    match key_type {
        KeyType::PublicKey => Some(KeyType::FullKey),
        KeyType::FullKey => None,
    }
}

} // verus!
