//! The parts of a transaction that a signature hash reads, and the bytes
//! that each of them stands for on the wire.

use vstd::prelude::*;

use crate::encoding::{
    le_bytes, lemma_le_bytes_injective, lemma_le_bytes_len, lemma_prefixed_bytes_unique,
    lemma_radix_powers, lemma_twos_complement_injective, prefixed_bytes, twos_complement_64,
    write_i64_le, write_prefixed_bytes, write_u32_le,
};

verus! {

/// Version group of Overwinter transactions.
pub const OVERWINTER_VERSION_GROUP_ID: u32 = 0x03C4_8270;

/// Transaction version that Overwinter introduced.
pub const OVERWINTER_TX_VERSION: u32 = 3;

/// Transaction version that Sapling introduced.
pub const SAPLING_TX_VERSION: u32 = 4;

/// The bit of the header that marks an overwintered transaction.
pub const OVERWINTERED_FLAG: u32 = 0x8000_0000;

/// An amount of money in the smallest unit; it may be negative.
#[derive(Clone, Copy, Debug, PartialEq, Eq)]
pub struct Amount(pub i64);

/// A script: any string of bytes.
#[derive(Clone, Debug, PartialEq, Eq)]
pub struct Script(pub Vec<u8>);

/// A reference to one output of an earlier transaction.
#[derive(Clone, Debug, PartialEq, Eq)]
pub struct OutPoint {
    pub hash: [u8; 32],
    pub n: u32,
}

/// A transparent input.
#[derive(Clone, Debug, PartialEq, Eq)]
pub struct TxIn {
    pub prevout: OutPoint,
    pub script_sig: Script,
    pub sequence: u32,
}

/// A transparent output.
#[derive(Clone, Debug, PartialEq, Eq)]
pub struct TxOut {
    pub value: Amount,
    pub script_pubkey: Script,
}

/// A JoinSplit description, held as the bytes of its encoding. A signature
/// hash only copies those bytes and never looks inside.
#[derive(Clone, Debug, PartialEq, Eq)]
pub struct JSDescription {
    pub encoding: Vec<u8>,
}

/// A transaction, as far as a signature hash reads it.
#[derive(Clone, Debug, PartialEq, Eq)]
pub struct Transaction {
    pub overwintered: bool,
    pub version: u32,
    pub version_group_id: u32,
    pub vin: Vec<TxIn>,
    pub vout: Vec<TxOut>,
    pub lock_time: u32,
    pub expiry_height: u32,
    pub joinsplits: Vec<JSDescription>,
    pub joinsplit_pubkey: [u8; 32],
}

/// What an [`OutPoint`] stands for.
pub struct OutPointView {
    pub hash: Seq<u8>,
    pub n: u32,
}

/// What a [`TxIn`] stands for.
pub struct TxInView {
    pub prevout: OutPointView,
    pub script_sig: Seq<u8>,
    pub sequence: u32,
}

/// What a [`TxOut`] stands for.
pub struct TxOutView {
    pub value: int,
    pub script_pubkey: Seq<u8>,
}

/// What a [`Transaction`] stands for. A JoinSplit description stands for
/// the bytes of its encoding.
pub struct TransactionView {
    pub overwintered: bool,
    pub version: u32,
    pub version_group_id: u32,
    pub vin: Seq<TxInView>,
    pub vout: Seq<TxOutView>,
    pub lock_time: u32,
    pub expiry_height: u32,
    pub joinsplits: Seq<Seq<u8>>,
    pub joinsplit_pubkey: Seq<u8>,
}

impl View for Amount {
    type V = int;

    open spec fn view(&self) -> int {
        self.0 as int
    }
}

impl View for Script {
    type V = Seq<u8>;

    open spec fn view(&self) -> Seq<u8> {
        self.0@
    }
}

impl View for OutPoint {
    type V = OutPointView;

    open spec fn view(&self) -> OutPointView {
        OutPointView { hash: self.hash@, n: self.n }
    }
}

impl View for TxIn {
    type V = TxInView;

    open spec fn view(&self) -> TxInView {
        TxInView { prevout: self.prevout@, script_sig: self.script_sig@, sequence: self.sequence }
    }
}

impl View for TxOut {
    type V = TxOutView;

    open spec fn view(&self) -> TxOutView {
        TxOutView { value: self.value@, script_pubkey: self.script_pubkey@ }
    }
}

impl View for JSDescription {
    type V = Seq<u8>;

    open spec fn view(&self) -> Seq<u8> {
        self.encoding@
    }
}

impl View for Transaction {
    type V = TransactionView;

    open spec fn view(&self) -> TransactionView {
        TransactionView {
            overwintered: self.overwintered,
            version: self.version,
            version_group_id: self.version_group_id,
            vin: self.vin@.map_values(|input: TxIn| input@),
            vout: self.vout@.map_values(|output: TxOut| output@),
            lock_time: self.lock_time,
            expiry_height: self.expiry_height,
            joinsplits: self.joinsplits@.map_values(|description: JSDescription| description@),
            joinsplit_pubkey: self.joinsplit_pubkey@,
        }
    }
}

/// An amount on the wire: eight bytes, two's complement, little-endian.
pub open spec fn amount_encoding(value: int) -> Seq<u8> {
    le_bytes(twos_complement_64(value), 8)
}

impl OutPointView {
    /// An outpoint on the wire: the hash, then the index in four
    /// little-endian bytes.
    pub open spec fn encoding(self) -> Seq<u8> {
        self.hash + le_bytes(self.n as nat, 4)
    }

    /// What holds of the view of every outpoint: the hash has 32 bytes.
    pub open spec fn well_formed(self) -> bool {
        self.hash.len() == 32
    }

    /// An outpoint can be read back from the front of a longer string in
    /// one way only.
    pub proof fn lemma_encoding_unique(
        self,
        rest: Seq<u8>,
        other: OutPointView,
        other_rest: Seq<u8>,
    )
        requires
            self.well_formed(),
            other.well_formed(),
            self.encoding() + rest == other.encoding() + other_rest,
        ensures
            self == other,
            rest == other_rest,
    {
        let whole = self.encoding() + rest;
        let other_whole = other.encoding() + other_rest;
        lemma_le_bytes_len(self.n as nat, 4);
        lemma_le_bytes_len(other.n as nat, 4);
        assert(self.hash =~= whole.subrange(0, 32));
        assert(other.hash =~= other_whole.subrange(0, 32));
        assert(le_bytes(self.n as nat, 4) =~= whole.subrange(32, 36));
        assert(le_bytes(other.n as nat, 4) =~= other_whole.subrange(32, 36));
        lemma_radix_powers();
        lemma_le_bytes_injective(self.n as nat, other.n as nat, 4);
        assert(rest =~= whole.skip(36));
        assert(other_rest =~= other_whole.skip(36));
    }
}

impl TxOutView {
    /// An output on the wire: the amount, then the script behind its
    /// length prefix.
    pub open spec fn encoding(self) -> Seq<u8> {
        amount_encoding(self.value) + prefixed_bytes(self.script_pubkey)
    }

    /// What holds of the view of every output: the amount fits a signed
    /// 64-bit integer and the script's length an unsigned one.
    pub open spec fn well_formed(self) -> bool {
        &&& -0x8000_0000_0000_0000 <= self.value < 0x8000_0000_0000_0000
        &&& self.script_pubkey.len() < 0x1_0000_0000_0000_0000
    }

    /// An output can be read back from the front of a longer string in
    /// one way only.
    pub proof fn lemma_encoding_unique(
        self,
        rest: Seq<u8>,
        other: TxOutView,
        other_rest: Seq<u8>,
    )
        requires
            self.well_formed(),
            other.well_formed(),
            self.encoding() + rest == other.encoding() + other_rest,
        ensures
            self == other,
            rest == other_rest,
    {
        let whole = self.encoding() + rest;
        let other_whole = other.encoding() + other_rest;
        lemma_le_bytes_len(twos_complement_64(self.value), 8);
        lemma_le_bytes_len(twos_complement_64(other.value), 8);
        assert(amount_encoding(self.value) =~= whole.subrange(0, 8));
        assert(amount_encoding(other.value) =~= other_whole.subrange(0, 8));
        lemma_radix_powers();
        lemma_twos_complement_injective(self.value, self.value);
        lemma_twos_complement_injective(other.value, other.value);
        lemma_le_bytes_injective(
            twos_complement_64(self.value),
            twos_complement_64(other.value),
            8,
        );
        lemma_twos_complement_injective(self.value, other.value);
        assert(prefixed_bytes(self.script_pubkey) + rest =~= whole.skip(8));
        assert(prefixed_bytes(other.script_pubkey) + other_rest =~= other_whole.skip(8));
        lemma_prefixed_bytes_unique(self.script_pubkey, rest, other.script_pubkey, other_rest);
    }
}

impl TransactionView {
    /// What holds of the view of every transaction: hashes and the
    /// JoinSplit public key have 32 bytes, amounts fit a signed 64-bit
    /// integer, and the length of a script fits an unsigned one.
    pub open spec fn well_formed(self) -> bool {
        &&& self.joinsplit_pubkey.len() == 32
        &&& forall|i: int|
            0 <= i < self.vin.len() ==> (#[trigger] self.vin[i]).prevout.well_formed()
        &&& forall|i: int| 0 <= i < self.vout.len() ==> (#[trigger] self.vout[i]).well_formed()
    }

    /// The header word: the version, with the top bit set on an
    /// overwintered transaction.
    pub open spec fn header(self) -> u32 {
        if self.overwintered {
            self.version | OVERWINTERED_FLAG
        } else {
            self.version
        }
    }
}

impl Amount {
    /// Appends the encoding of the amount to `out`.
    pub fn write(&self, out: &mut Vec<u8>)
        ensures
            final(out)@ == old(out)@ + amount_encoding(self@),
    {
        write_i64_le(out, self.0);
    }
}

impl Script {
    /// Appends the script to `out` behind its length prefix.
    pub fn write(&self, out: &mut Vec<u8>)
        ensures
            final(out)@ == old(out)@ + prefixed_bytes(self@),
    {
        write_prefixed_bytes(out, self.0.as_slice());
    }
}

impl OutPoint {
    /// Appends the 36 bytes of the outpoint's encoding to `out`.
    pub fn write(&self, out: &mut Vec<u8>)
        ensures
            final(out)@ == old(out)@ + self@.encoding(),
            final(out)@.len() == old(out)@.len() + 36,
    {
        out.extend_from_slice(self.hash.as_slice());
        write_u32_le(out, self.n);
        proof {
            lemma_le_bytes_len(self.n as nat, 4);
        }
        assert(out@ =~= old(out)@ + self@.encoding());
    }
}

impl TxOut {
    /// Appends the encoding of the output to `out`.
    pub fn write(&self, out: &mut Vec<u8>)
        ensures
            final(out)@ == old(out)@ + self@.encoding(),
    {
        self.value.write(out);
        self.script_pubkey.write(out);
        assert(out@ =~= old(out)@ + self@.encoding());
    }
}

impl JSDescription {
    /// Appends the encoding of the description to `out`.
    pub fn write(&self, out: &mut Vec<u8>)
        ensures
            final(out)@ == old(out)@ + self@,
    {
        out.extend_from_slice(self.encoding.as_slice());
    }
}

impl Transaction {
    /// The view of a transaction is well formed.
    pub proof fn lemma_view_well_formed(&self)
        ensures
            self@.well_formed(),
    {
        assert forall|i: int| 0 <= i < self@.vout.len() implies (#[trigger] self@.vout[
            i
        ]).well_formed() by {
            assert(self.vout@[i].script_pubkey.0.len() <= usize::MAX);
        }
    }

    /// The header word: the version, with the top bit set on an
    /// overwintered transaction.
    pub fn header(&self) -> (header: u32)
        ensures
            header == self@.header(),
    {
        if self.overwintered {
            self.version | OVERWINTERED_FLAG
        } else {
            self.version
        }
    }
}

} // verus!
