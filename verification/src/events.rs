use vstd::prelude::*;
use vstd::arithmetic::power::pow;

verus! {

/// Emitted when a deposit has been credited.
#[derive(Debug, Clone, Copy)]
pub struct DepositEvent {
    pub user: [u8; 32],
    pub mint: [u8; 32],
    pub amount: u64,
    pub shares: u64,
    pub timestamp: i64,
}

/// Emitted when a withdrawal has been paid out.
#[derive(Debug, Clone, Copy)]
pub struct WithdrawEvent {
    pub user: [u8; 32],
    pub mint: [u8; 32],
    pub amount: u64,
    pub shares: u64,
    pub timestamp: i64,
}

/// The bank's totals as seen by `user` at `timestamp`.
#[derive(Debug, Clone, Copy)]
pub struct BankSnapshot {
    pub user: [u8; 32],
    pub total_deposits: u64,
    pub total_deposit_shares: u64,
    pub timestamp: i64,
}

/// Kind of a recorded event.
#[derive(Debug, Clone, Copy, PartialEq, Eq, Structural)]
pub enum EventType {
    Deposit,
    Withdraw,
    BankSnapshot,
}

/// One line of the event stream: the kind of event, when and for whom it
/// happened, and the event itself in its binary encoding.
#[derive(Debug)]
pub struct EventJsonModel {
    pub step: u8,
    pub seed: u64,
    pub event_type: EventType,
    pub tx_id: String,
    pub timestamp: i64,
    pub user: String,
    pub data: Vec<u8>,
}

/// An event that can be written to the event stream.
pub trait BankEvent {
    fn to_json_model(&self) -> EventJsonModel;
}

/// The `n` low bytes of `x` in two's complement, least significant first.
pub open spec fn le_bytes(x: int, n: nat) -> Seq<u8> {
    Seq::new(n, |i: int| ((x / pow(256, i as nat)) % 256) as u8)
}

/// Binary encoding of a deposit or withdrawal record: both keys as they are,
/// then amount, shares and timestamp in eight little-endian bytes each.
pub open spec fn transfer_record_bytes(user: [u8; 32], mint: [u8; 32], amount: u64, shares: u64, timestamp: i64) -> Seq<u8> {
    user@ + mint@ + le_bytes(amount as int, 8) + le_bytes(shares as int, 8) + le_bytes(timestamp as int, 8)
}

/// Binary encoding of a snapshot record: the key as it is, then both totals
/// and the timestamp in eight little-endian bytes each.
pub open spec fn snapshot_record_bytes(user: [u8; 32], total_deposits: u64, total_deposit_shares: u64, timestamp: i64) -> Seq<u8> {
    user@ + le_bytes(total_deposits as int, 8) + le_bytes(total_deposit_shares as int, 8) + le_bytes(timestamp as int, 8)
}

/// Digit `d` (below 58) of the base58 alphabet `1-9A-HJ-NP-Za-km-z`,
/// which leaves out `0`, `I`, `O` and `l`.
pub open spec fn base58_digit(d: int) -> char {
    if d < 9 {
        ('1' as int + d) as char
    } else if d < 17 {
        ('A' as int + (d - 9)) as char
    } else if d < 22 {
        ('J' as int + (d - 17)) as char
    } else if d < 33 {
        ('P' as int + (d - 22)) as char
    } else if d < 44 {
        ('a' as int + (d - 33)) as char
    } else {
        ('m' as int + (d - 44)) as char
    }
}

/// The bytes read as one big-endian number.
pub open spec fn big_endian_value(bytes: Seq<u8>) -> nat
    decreases bytes.len(),
{
    if bytes.len() == 0 {
        0
    } else {
        big_endian_value(bytes.drop_last()) * 256 + bytes.last() as nat
    }
}

/// The base58 digits of `n`, most significant first, without leading zeros
/// (none at all for zero).
pub open spec fn base58_digits(n: nat) -> Seq<char>
    decreases n,
{
    if n == 0 {
        Seq::empty()
    } else {
        base58_digits(n / 58).push(base58_digit((n % 58) as int))
    }
}

/// Number of zero bytes the sequence starts with.
pub open spec fn leading_zero_bytes(bytes: Seq<u8>) -> nat
    decreases bytes.len(),
{
    if bytes.len() == 0 || bytes[0] != 0 {
        0
    } else {
        1 + leading_zero_bytes(bytes.drop_first())
    }
}

/// Base58 text of a key: one `1` for every leading zero byte, then the
/// digits of the key read as a big-endian number.
pub open spec fn base58_text(key: Seq<u8>) -> Seq<char> {
    Seq::new(leading_zero_bytes(key), |i: int| '1') + base58_digits(big_endian_value(key))
}

/// `borsh::to_vec` on the tuple `(user, mint, amount, shares, timestamp)`.
/// Borsh writes a tuple as its fields one after the other, a `[u8; 32]` as
/// its bytes and every integer in little-endian order; writing into a `Vec`
/// cannot fail.
#[verifier::external_body]
fn borsh_transfer_record(user: [u8; 32], mint: [u8; 32], amount: u64, shares: u64, timestamp: i64) -> (bytes: Vec<u8>)
    ensures
        bytes@ == transfer_record_bytes(user, mint, amount, shares, timestamp),
{
    borsh::to_vec(&(user, mint, amount, shares, timestamp)).unwrap()
}

/// `borsh::to_vec` on the tuple `(user, total_deposits, total_deposit_shares,
/// timestamp)`, laid out as for `borsh_transfer_record`.
#[verifier::external_body]
fn borsh_snapshot_record(user: [u8; 32], total_deposits: u64, total_deposit_shares: u64, timestamp: i64) -> (bytes: Vec<u8>)
    ensures
        bytes@ == snapshot_record_bytes(user, total_deposits, total_deposit_shares, timestamp),
{
    borsh::to_vec(&(user, total_deposits, total_deposit_shares, timestamp)).unwrap()
}

/// `Pubkey::to_string` of `anchor_lang`: `solana_pubkey`'s `Display`
/// writes the key with `five8::encode_32`, the base58 encoding with the
/// alphabet of `base58_digit`, leading zero bytes written as `1`.
#[verifier::external_body]
fn pubkey_text(key: [u8; 32]) -> (text: String)
    ensures
        text@ == base58_text(key@),
{
    anchor_lang::prelude::Pubkey::new_from_array(key).to_string()
}

impl EventJsonModel {
    /// A stream line for an event of `event_type` at `timestamp`, recorded
    /// for the key whose text is `user`, carrying the encoded event `data`;
    /// step, seed and transaction id are left empty.
    pub fn new_record(event_type: EventType, timestamp: i64, user: String, data: Vec<u8>) -> (model: EventJsonModel)
        ensures
            model.step == 0,
            model.seed == 0,
            model.event_type == event_type,
            model.tx_id@ == Seq::<char>::empty(),
            model.timestamp == timestamp,
            model.user@ == user@,
            model.data@ == data@,
    {
        EventJsonModel { step: 0, seed: 0, event_type, tx_id: String::new(), timestamp, user, data }
    }
}

impl BankEvent for DepositEvent {
    fn to_json_model(&self) -> (model: EventJsonModel)
        ensures
            model.step == 0,
            model.seed == 0,
            model.event_type == EventType::Deposit,
            model.tx_id@ == Seq::<char>::empty(),
            model.timestamp == self.timestamp,
            model.user@ == base58_text(self.user@),
            model.data@ == transfer_record_bytes(self.user, self.mint, self.amount, self.shares, self.timestamp),
    {
        let data = borsh_transfer_record(self.user, self.mint, self.amount, self.shares, self.timestamp);
        EventJsonModel::new_record(EventType::Deposit, self.timestamp, pubkey_text(self.user), data)
    }
}

impl BankEvent for WithdrawEvent {
    fn to_json_model(&self) -> (model: EventJsonModel)
        ensures
            model.step == 0,
            model.seed == 0,
            model.event_type == EventType::Withdraw,
            model.tx_id@ == Seq::<char>::empty(),
            model.timestamp == self.timestamp,
            model.user@ == base58_text(self.user@),
            model.data@ == transfer_record_bytes(self.user, self.mint, self.amount, self.shares, self.timestamp),
    {
        let data = borsh_transfer_record(self.user, self.mint, self.amount, self.shares, self.timestamp);
        EventJsonModel::new_record(EventType::Withdraw, self.timestamp, pubkey_text(self.user), data)
    }
}

impl BankEvent for BankSnapshot {
    fn to_json_model(&self) -> (model: EventJsonModel)
        ensures
            model.step == 0,
            model.seed == 0,
            model.event_type == EventType::BankSnapshot,
            model.tx_id@ == Seq::<char>::empty(),
            model.timestamp == self.timestamp,
            model.user@ == base58_text(self.user@),
            model.data@ == snapshot_record_bytes(self.user, self.total_deposits, self.total_deposit_shares, self.timestamp),
    {
        let data = borsh_snapshot_record(self.user, self.total_deposits, self.total_deposit_shares, self.timestamp);
        EventJsonModel::new_record(EventType::BankSnapshot, self.timestamp, pubkey_text(self.user), data)
    }
}

} // verus!
