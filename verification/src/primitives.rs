use bitcoin::absolute::LockTime;
use bitcoin::hashes::Hash as Hashed;
use bitcoin::transaction::Version;
use bitcoin::{Amount, ScriptBuf, Sequence};
use vstd::prelude::*;

verus! {

/// Height of a block in the chain.
pub type BlockHeight = u32;

/// A transaction identifier: the 32 bytes of the double-SHA256 hash, in internal byte order.
#[derive(Clone, Copy, Debug, Eq, Hash)]
pub struct Txid {
    pub bytes: [u8; 32],
}

impl PartialEq for Txid {
    fn eq(&self, other: &Self) -> (r: bool) {
        for i in 0..32usize
            invariant
                forall|j: int| 0 <= j < i ==> self.bytes[j] == other.bytes[j],
        {
            if self.bytes[i] != other.bytes[i] {
                return false;
            }
        }
        assert(self.bytes =~= other.bytes);
        true
    }
}

impl vstd::std_specs::cmp::PartialEqSpecImpl for Txid {
    open spec fn obeys_eq_spec() -> bool {
        true
    }

    open spec fn eq_spec(&self, other: &Self) -> bool {
        *self == *other
    }
}

/// A reference to one output of a transaction.
#[derive(Clone, Copy, Debug, Eq, Hash)]
pub struct OutPoint {
    pub txid: Txid,
    pub vout: u32,
}

impl PartialEq for OutPoint {
    fn eq(&self, other: &Self) -> (r: bool) {
        self.txid == other.txid && self.vout == other.vout
    }
}

impl vstd::std_specs::cmp::PartialEqSpecImpl for OutPoint {
    open spec fn obeys_eq_spec() -> bool {
        true
    }

    open spec fn eq_spec(&self, other: &Self) -> bool {
        *self == *other
    }
}

/// A public key as the 33 bytes of its compressed form, with the flag that says whether it is to be
/// serialised compressed.
#[derive(Clone, Copy, Debug, PartialEq, Eq, Structural)]
pub struct PublicKey {
    pub compressed: bool,
    pub parity: u8,
    pub x_hi: u128,
    pub x_lo: u128,
}

/// A fee multiplier, held as the bits of an IEEE 754 double. Positive doubles are ordered as their
/// bits are, so range checks need no floating point; products are computed by the caller.
#[derive(Clone, Copy, Debug, PartialEq, Eq, Structural)]
pub struct Multiplier {
    pub bits: u64,
}

/// The sign bit of a double.
pub const SIGN_BIT: u64 = 0x8000_0000_0000_0000;

/// The bits of positive infinity. A double whose bits without the sign exceed them is not a number.
pub const INFINITY_BITS: u64 = 0x7ff0_0000_0000_0000;

impl Multiplier {
    /// The bits without the sign.
    pub open spec fn magnitude(self) -> int {
        if self.bits >= SIGN_BIT {
            self.bits - SIGN_BIT
        } else {
            self.bits as int
        }
    }

    /// The double is not a number.
    pub open spec fn is_nan(self) -> bool {
        self.magnitude() > INFINITY_BITS
    }

    /// The place of the double among the numbers: two numbers are ordered as their ranks are, and both
    /// zeros have the same.
    pub open spec fn rank(self) -> int {
        if self.bits >= SIGN_BIT {
            -self.magnitude()
        } else {
            self.magnitude()
        }
    }

    /// This double is greater than the other, as doubles are ordered: a double that is not a number is
    /// never greater nor less.
    pub open spec fn greater_than(self, other: Multiplier) -> bool {
        !self.is_nan() && !other.is_nan() && self.rank() > other.rank()
    }

    /// True when this double is greater than the other, as doubles are ordered.
    pub fn exceeds(self, other: Multiplier) -> (r: bool)
        ensures
            r == self.greater_than(other),
    {
        let mine: u64 = if self.bits >= SIGN_BIT {
            self.bits - SIGN_BIT
        } else {
            self.bits
        };
        let theirs: u64 = if other.bits >= SIGN_BIT {
            other.bits - SIGN_BIT
        } else {
            other.bits
        };
        if mine > INFINITY_BITS || theirs > INFINITY_BITS {
            false
        } else if self.bits >= SIGN_BIT {
            other.bits >= SIGN_BIT && mine < theirs
        } else if other.bits >= SIGN_BIT {
            mine > 0 || theirs > 0
        } else {
            mine > theirs
        }
    }
}

/// The space that the items of a witness can take, with at most nine bytes for the length of each.
pub open spec fn witness_size(items: Seq<Seq<u8>>) -> int
    decreases items.len(),
{
    if items.len() == 0 {
        0
    } else {
        witness_size(items.drop_last()) + items.last().len() + 9
    }
}

/// The most that a witness can take: places in it are counted in 32 bits.
pub const MAX_WITNESS_SIZE: u32 = 0xffff_ffff;

proof fn lemma_witness_size_grows(items: Seq<Seq<u8>>, i: int)
    requires
        0 <= i <= items.len(),
    ensures
        0 <= witness_size(items.take(i)) <= witness_size(items),
    decreases items.len(),
{
    if i == items.len() {
        assert(items.take(i) =~= items);
        if items.len() > 0 {
            lemma_witness_size_grows(items.drop_last(), i - 1);
            assert(items.drop_last().take(i - 1) =~= items.drop_last());
        }
    } else {
        lemma_witness_size_grows(items.drop_last(), i);
        assert(items.drop_last().take(i) =~= items.take(i));
    }
}

/// The witness of an input: byte strings that together take no more than `MAX_WITNESS_SIZE`.
#[derive(Debug, PartialEq, Eq)]
pub struct Witness {
    items: Vec<Vec<u8>>,
}

impl View for Witness {
    type V = Seq<Seq<u8>>;

    closed spec fn view(&self) -> Seq<Seq<u8>> {
        views(self.items@)
    }
}

impl Witness {
    #[verifier::type_invariant]
    spec fn fits(self) -> bool {
        witness_size(views(self.items@)) <= MAX_WITNESS_SIZE
    }

    /// A witness of these items; `None` when they take too much space.
    pub fn new(items: Vec<Vec<u8>>) -> (r: Option<Witness>)
        ensures
            match r {
                Some(witness) => witness_size(views(items@)) <= MAX_WITNESS_SIZE && witness@ == views(
                    items@,
                ),
                None => witness_size(views(items@)) > MAX_WITNESS_SIZE,
            },
    {
        let ghost all = views(items@);
        let mut size: u64 = 0;
        for i in 0..items.len()
            invariant
                all == views(items@),
                size == witness_size(all.take(i as int)),
                size <= MAX_WITNESS_SIZE,
        {
            proof {
                assert(all.take(i + 1).drop_last() =~= all.take(i as int));
                assert(all.take(i + 1).last() == items@[i as int]@);
                lemma_witness_size_grows(all, i + 1);
            }
            let len: usize = items[i].len();
            if len > MAX_WITNESS_SIZE as usize || size + len as u64 + 9 > MAX_WITNESS_SIZE as u64 {
                return None;
            }
            size = size + len as u64 + 9;
        }
        assert(all.take(all.len() as int) =~= all);
        Some(Witness { items })
    }

    /// The items.
    pub fn items(&self) -> (r: &Vec<Vec<u8>>)
        ensures
            views(r@) == self@,
    {
        &self.items
    }
}

impl Clone for Witness {
    fn clone(&self) -> (r: Self)
        ensures
            r@ == self@,
    {
        proof {
            use_type_invariant(self);
        }
        let mut items: Vec<Vec<u8>> = Vec::new();
        for i in 0..self.items.len()
            invariant
                items@.len() == i,
                forall|j: int| 0 <= j < i ==> (#[trigger] items@[j])@ == self.items@[j]@,
        {
            items.push(copy_bytes(&self.items[i]));
        }
        assert(views(items@) =~= views(self.items@));
        Witness { items }
    }
}

/// A transaction input.
#[derive(Debug, PartialEq, Eq)]
pub struct TxIn {
    pub previous_output: OutPoint,
    pub script_sig: Vec<u8>,
    pub sequence: u32,
    pub witness: Witness,
}

/// A transaction output; `value` is in satoshis.
#[derive(Debug, PartialEq, Eq)]
pub struct TxOut {
    pub value: u64,
    pub script_pubkey: Vec<u8>,
}

/// A bitcoin transaction. `version` and `lock_time` are the consensus-encoded integers.
#[derive(Debug, PartialEq, Eq)]
pub struct Transaction {
    pub version: i32,
    pub lock_time: u32,
    pub input: Vec<TxIn>,
    pub output: Vec<TxOut>,
}

#[verifier::ext_equal]
pub struct TxInView {
    pub previous_output: OutPoint,
    pub script_sig: Seq<u8>,
    pub sequence: u32,
    pub witness: Seq<Seq<u8>>,
}

#[verifier::ext_equal]
pub struct TxOutView {
    pub value: u64,
    pub script_pubkey: Seq<u8>,
}

#[verifier::ext_equal]
pub struct TransactionView {
    pub version: i32,
    pub lock_time: u32,
    pub input: Seq<TxInView>,
    pub output: Seq<TxOutView>,
}

/// The views of the elements of a sequence.
pub open spec fn views<T: View>(s: Seq<T>) -> Seq<T::V> {
    Seq::new(s.len(), |i: int| s[i]@)
}

impl View for TxIn {
    type V = TxInView;

    open spec fn view(&self) -> TxInView {
        TxInView {
            previous_output: self.previous_output,
            script_sig: self.script_sig@,
            sequence: self.sequence,
            witness: self.witness@,
        }
    }
}

impl View for TxOut {
    type V = TxOutView;

    open spec fn view(&self) -> TxOutView {
        TxOutView { value: self.value, script_pubkey: self.script_pubkey@ }
    }
}

impl View for Transaction {
    type V = TransactionView;

    open spec fn view(&self) -> TransactionView {
        TransactionView {
            version: self.version,
            lock_time: self.lock_time,
            input: views(self.input@),
            output: views(self.output@),
        }
    }
}

impl TransactionView {
    /// Virtual size in vbytes: the weight divided by four, rounded up.
    pub open spec fn vsize(self) -> int {
        (tx_weight(self) + 3) / 4
    }

    /// The outpoints that the transaction spends, in input order.
    pub open spec fn outpoints(self) -> Seq<OutPoint> {
        Seq::new(self.input.len(), |i: int| self.input[i].previous_output)
    }
}

/// A copy of a byte string.
fn copy_bytes(bytes: &Vec<u8>) -> (r: Vec<u8>)
    ensures
        r@ == bytes@,
{
    let r = bytes.clone();
    assert(r@ =~= bytes@);
    r
}

impl Clone for TxIn {
    fn clone(&self) -> (r: Self)
        ensures
            r@ == self@,
    {
        TxIn {
            previous_output: self.previous_output,
            script_sig: copy_bytes(&self.script_sig),
            sequence: self.sequence,
            witness: self.witness.clone(),
        }
    }
}

impl Clone for TxOut {
    fn clone(&self) -> (r: Self)
        ensures
            r@ == self@,
    {
        TxOut { value: self.value, script_pubkey: copy_bytes(&self.script_pubkey) }
    }
}

impl Clone for Transaction {
    fn clone(&self) -> (r: Self)
        ensures
            r@ == self@,
    {
        let mut input: Vec<TxIn> = Vec::new();
        for i in 0..self.input.len()
            invariant
                input@.len() == i,
                forall|j: int| 0 <= j < i ==> (#[trigger] input@[j])@ == self.input@[j]@,
        {
            input.push(self.input[i].clone());
        }
        let mut output: Vec<TxOut> = Vec::new();
        for i in 0..self.output.len()
            invariant
                output@.len() == i,
                forall|j: int| 0 <= j < i ==> (#[trigger] output@[j])@ == self.output@[j]@,
        {
            output.push(self.output[i].clone());
        }
        let r = Transaction { version: self.version, lock_time: self.lock_time, input, output };
        assert(r@.input =~= self@.input);
        assert(r@.output =~= self@.output);
        r
    }
}

/// What `bitcoin::Transaction::compute_txid` returns for a transaction with these contents.
pub uninterp spec fn tx_id(tx: TransactionView) -> Txid;

/// What `bitcoin::Transaction::weight` returns, in weight units, for a transaction with these
/// contents.
pub uninterp spec fn tx_weight(tx: TransactionView) -> u64;

/// `bitcoin::Transaction::compute_txid`: the double-SHA256 of the transaction without its witness
/// data. The contract says that the identifier is a function of the transaction's contents.
/// `bitcoin::Witness::from_slice` counts the start of each item in 32 bits, and every `Witness` fits in
/// them.
#[verifier::external_body]
fn outside_txid(tx: &Transaction) -> (id: Txid)
    ensures
        id == tx_id(tx@),
{
    let outside = bitcoin::Transaction {
        version: Version(tx.version),
        lock_time: LockTime::from_consensus(tx.lock_time),
        input: tx.input.iter().map(|i| bitcoin::TxIn {
            previous_output: bitcoin::OutPoint::new(Hashed::from_byte_array(i.previous_output.txid.bytes), i.previous_output.vout),
            script_sig: ScriptBuf::from_bytes(i.script_sig.clone()),
            sequence: Sequence(i.sequence),
            witness: bitcoin::Witness::from_slice(&i.witness.items),
        }).collect(),
        output: tx.output.iter().map(|o| bitcoin::TxOut { value: Amount::from_sat(o.value), script_pubkey: ScriptBuf::from_bytes(o.script_pubkey.clone()) }).collect(),
    };
    Txid { bytes: outside.compute_txid().to_byte_array() }
}

/// `bitcoin::Transaction::weight`: three times the size without witness data plus the total size, in
/// weight units. The contract says that it is a function of the transaction's contents. As for
/// `outside_txid`, every `Witness` fits in what `bitcoin::Witness::from_slice` can count.
#[verifier::external_body]
fn outside_weight(tx: &Transaction) -> (wu: u64)
    ensures
        wu == tx_weight(tx@),
{
    let outside = bitcoin::Transaction {
        version: Version(tx.version),
        lock_time: LockTime::from_consensus(tx.lock_time),
        input: tx.input.iter().map(|i| bitcoin::TxIn {
            previous_output: bitcoin::OutPoint::new(Hashed::from_byte_array(i.previous_output.txid.bytes), i.previous_output.vout),
            script_sig: ScriptBuf::from_bytes(i.script_sig.clone()),
            sequence: Sequence(i.sequence),
            witness: bitcoin::Witness::from_slice(&i.witness.items),
        }).collect(),
        output: tx.output.iter().map(|o| bitcoin::TxOut { value: Amount::from_sat(o.value), script_pubkey: ScriptBuf::from_bytes(o.script_pubkey.clone()) }).collect(),
    };
    outside.weight().to_wu()
}

impl Transaction {
    /// The transaction identifier.
    pub fn compute_txid(&self) -> (id: Txid)
        ensures
            id == tx_id(self@),
    {
        outside_txid(self)
    }

    /// The weight in weight units.
    pub fn weight(&self) -> (wu: u64)
        ensures
            wu == tx_weight(self@),
    {
        outside_weight(self)
    }

    /// The virtual size in vbytes.
    pub fn vsize(&self) -> (vbytes: u64)
        ensures
            vbytes == self@.vsize(),
    {
        let wu: u64 = outside_weight(self);
        wu / 4 + (if wu % 4 == 0 { 0 } else { 1 })
    }
}

} // verus!
