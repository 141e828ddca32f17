//! A key with two key pairs, one for boxes and one for encapsulation.

use crate::kyber;
use crate::sodium::crypto_box;
use vstd::prelude::*;

verus! {

/// The two key pairs of a key.
#[derive(Debug)]
pub struct Key {
    box_keypair: crypto_box::Keypair,
    kyber_keypair: kyber::Keypair,
}

/// The public halves of a key.
#[derive(Debug)]
pub struct PublicKey {
    /// The public key for boxes.
    pub box_pk: Vec<u8>,
    /// The public key for encapsulation.
    pub kyber_pk: Vec<u8>,
}

impl Key {
    /// The public key for boxes.
    pub closed spec fn box_pk(&self) -> Seq<u8> {
        self.box_keypair.pk@
    }

    /// The public key for encapsulation.
    pub closed spec fn kyber_pk(&self) -> Seq<u8> {
        self.kyber_keypair.pk@
    }

    /// The private key for boxes.
    pub closed spec fn box_sk(&self) -> Seq<u8> {
        self.box_keypair.sk@
    }

    /// The secret key for encapsulation.
    pub closed spec fn kyber_sk(&self) -> Seq<u8> {
        self.kyber_keypair.sk@
    }

    /// A key from two key pairs that the caller has generated.
    pub fn generate(box_keypair: crypto_box::Keypair, kyber_keypair: kyber::Keypair) -> (res: Self)
        ensures
            res.box_pk() == box_keypair.pk@,
            res.box_sk() == box_keypair.sk@,
            res.kyber_pk() == kyber_keypair.pk@,
            res.kyber_sk() == kyber_keypair.sk@,
    {
        Key { box_keypair, kyber_keypair }
    }

    /// The public halves of the key.
    pub fn export_public_keys(&self) -> (res: PublicKey)
        ensures
            res.box_pk@ == self.box_pk(),
            res.kyber_pk@ == self.kyber_pk(),
    {
        PublicKey { box_pk: self.box_keypair.pk.clone(), kyber_pk: self.kyber_keypair.pk.clone() }
    }

    /// The key pair for boxes.
    pub fn box_keypair(&self) -> (res: &crypto_box::Keypair)
        ensures
            res.pk@ == self.box_pk(),
            res.sk@ == self.box_sk(),
    {
        &self.box_keypair
    }

    /// The key pair for encapsulation.
    pub fn kyber_keypair(&self) -> (res: &kyber::Keypair)
        ensures
            res.pk@ == self.kyber_pk(),
            res.sk@ == self.kyber_sk(),
    {
        &self.kyber_keypair
    }
}

} // verus!
