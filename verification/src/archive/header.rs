//! Ledger headers as the archives keep them.

use vstd::prelude::*;
use stellar_xdr::curr as stellar;
use stellar_xdr::curr::ReadXdr;

verus! {

/// Who signed the value that a ledger was closed with.
#[derive(Debug, Clone, PartialEq, Eq)]
pub struct CloseSignature {
    /// The validator's ed25519 public key.
    pub node_id: [u8; 32],
    pub signature: Vec<u8>,
}

/// The value that the validators agreed on for a ledger.
#[derive(Debug, Clone, PartialEq, Eq)]
pub struct ConsensusValue {
    pub tx_set_hash: [u8; 32],
    pub close_time: u64,
    pub upgrades: Vec<Vec<u8>>,
    /// Absent in a value of the basic form.
    pub signature: Option<CloseSignature>,
}

/// The header of a ledger.
#[derive(Debug, Clone, PartialEq, Eq)]
pub struct LedgerHeader {
    pub ledger_version: u32,
    pub previous_ledger_hash: [u8; 32],
    pub scp_value: ConsensusValue,
    pub tx_set_result_hash: [u8; 32],
    pub bucket_list_hash: [u8; 32],
    pub ledger_seq: u32,
    pub total_coins: i64,
    pub fee_pool: i64,
    pub inflation_seq: u32,
    pub id_pool: u64,
    pub base_fee: u32,
    pub base_reserve: u32,
    pub max_tx_set_size: u32,
    pub skip_list: [[u8; 32]; 4],
    /// The flags of the header's extension, absent where it has none.
    pub flags: Option<u32>,
}

/// A ledger header with its hash.
#[derive(Debug, Clone, PartialEq, Eq)]
pub struct LedgerHeaderHistoryEntry {
    pub hash: [u8; 32],
    pub header: LedgerHeader,
}

/// The model of [`CloseSignature`].
pub struct CloseSignatureModel {
    pub node_id: [u8; 32],
    pub signature: Seq<u8>,
}

/// The model of [`ConsensusValue`].
pub struct ConsensusValueModel {
    pub tx_set_hash: [u8; 32],
    pub close_time: u64,
    pub upgrades: Seq<Seq<u8>>,
    pub signature: Option<CloseSignatureModel>,
}

/// The model of [`LedgerHeader`].
pub struct LedgerHeaderModel {
    pub ledger_version: u32,
    pub previous_ledger_hash: [u8; 32],
    pub scp_value: ConsensusValueModel,
    pub tx_set_result_hash: [u8; 32],
    pub bucket_list_hash: [u8; 32],
    pub ledger_seq: u32,
    pub total_coins: i64,
    pub fee_pool: i64,
    pub inflation_seq: u32,
    pub id_pool: u64,
    pub base_fee: u32,
    pub base_reserve: u32,
    pub max_tx_set_size: u32,
    pub skip_list: [[u8; 32]; 4],
    pub flags: Option<u32>,
}

/// The model of [`LedgerHeaderHistoryEntry`].
pub struct HistoryEntryModel {
    pub hash: [u8; 32],
    pub header: LedgerHeaderModel,
}

impl View for CloseSignature {
    type V = CloseSignatureModel;

    open spec fn view(&self) -> CloseSignatureModel {
        CloseSignatureModel { node_id: self.node_id, signature: self.signature@ }
    }
}

impl View for ConsensusValue {
    type V = ConsensusValueModel;

    open spec fn view(&self) -> ConsensusValueModel {
        ConsensusValueModel {
            tx_set_hash: self.tx_set_hash,
            close_time: self.close_time,
            upgrades: Seq::new(self.upgrades@.len(), |i: int| self.upgrades@[i]@),
            signature: match self.signature {
                Some(signature) => Some(signature@),
                None => None,
            },
        }
    }
}

impl View for LedgerHeader {
    type V = LedgerHeaderModel;

    open spec fn view(&self) -> LedgerHeaderModel {
        LedgerHeaderModel {
            ledger_version: self.ledger_version,
            previous_ledger_hash: self.previous_ledger_hash,
            scp_value: self.scp_value@,
            tx_set_result_hash: self.tx_set_result_hash,
            bucket_list_hash: self.bucket_list_hash,
            ledger_seq: self.ledger_seq,
            total_coins: self.total_coins,
            fee_pool: self.fee_pool,
            inflation_seq: self.inflation_seq,
            id_pool: self.id_pool,
            base_fee: self.base_fee,
            base_reserve: self.base_reserve,
            max_tx_set_size: self.max_tx_set_size,
            skip_list: self.skip_list,
            flags: self.flags,
        }
    }
}

impl View for LedgerHeaderHistoryEntry {
    type V = HistoryEntryModel;

    open spec fn view(&self) -> HistoryEntryModel {
        HistoryEntryModel { hash: self.hash, header: self.header@ }
    }
}

/// The models of a sequence of entries.
pub open spec fn history_models(entries: Seq<LedgerHeaderHistoryEntry>) -> Seq<HistoryEntryModel> {
    Seq::new(entries.len(), |i: int| entries[i]@)
}

/// The consensus value of the `stellar-xdr` crate.
#[verifier::external_type_specification]
#[verifier::external_body]
pub struct ExStellarValue(stellar_xdr::curr::StellarValue);

/// What a consensus value of the `stellar-xdr` crate holds.
pub uninterp spec fn consensus_contents(
    value: stellar_xdr::curr::StellarValue,
) -> ConsensusValueModel;

/// What `LedgerHeaderHistoryEntry::from_xdr` of the `stellar-xdr` crate makes of
/// `bytes`, without limits: the entry, or the text of the error.
pub uninterp spec fn decoded_record(bytes: Seq<u8>) -> Result<HistoryEntryModel, Seq<char>>;

/// An entry whose consensus value is not taken apart yet.
struct RawRecord {
    hash: [u8; 32],
    ledger_version: u32,
    previous_ledger_hash: [u8; 32],
    scp_value: stellar_xdr::curr::StellarValue,
    tx_set_result_hash: [u8; 32],
    bucket_list_hash: [u8; 32],
    ledger_seq: u32,
    total_coins: i64,
    fee_pool: i64,
    inflation_seq: u32,
    id_pool: u64,
    base_fee: u32,
    base_reserve: u32,
    max_tx_set_size: u32,
    skip_list: [[u8; 32]; 4],
    flags: Option<u32>,
}

impl RawRecord {
    spec fn model(self) -> HistoryEntryModel {
        HistoryEntryModel {
            hash: self.hash,
            header: LedgerHeaderModel {
                ledger_version: self.ledger_version,
                previous_ledger_hash: self.previous_ledger_hash,
                scp_value: consensus_contents(self.scp_value),
                tx_set_result_hash: self.tx_set_result_hash,
                bucket_list_hash: self.bucket_list_hash,
                ledger_seq: self.ledger_seq,
                total_coins: self.total_coins,
                fee_pool: self.fee_pool,
                inflation_seq: self.inflation_seq,
                id_pool: self.id_pool,
                base_fee: self.base_fee,
                base_reserve: self.base_reserve,
                max_tx_set_size: self.max_tx_set_size,
                skip_list: self.skip_list,
                flags: self.flags,
            },
        }
    }
}

/// Decodes one entry that takes up all of `bytes`.
///
/// Calls `stellar_xdr::curr::LedgerHeaderHistoryEntry::from_xdr` with `Limits::none()`
/// and copies the fields of what it returns, hashes as their bytes, the extension as
/// its flags; an error as it is displayed. Claimed: the outcome depends on `bytes`
/// alone.
#[verifier::external_body]
fn decode_raw(bytes: &[u8]) -> (decoded: Result<RawRecord, String>)
    ensures
        match decoded {
            Ok(raw) => decoded_record(bytes@) == Ok::<HistoryEntryModel, Seq<char>>(raw.model()),
            Err(text) => decoded_record(bytes@) == Err::<HistoryEntryModel, Seq<char>>(text@),
        },
{
    let entry = stellar::LedgerHeaderHistoryEntry::from_xdr(bytes, stellar::Limits::none())
        .map_err(|error| error.to_string())?;
    let h = entry.header;
    Ok(RawRecord {
        hash: entry.hash.0, ledger_version: h.ledger_version, previous_ledger_hash: h.previous_ledger_hash.0,
        scp_value: h.scp_value, tx_set_result_hash: h.tx_set_result_hash.0,
        bucket_list_hash: h.bucket_list_hash.0, ledger_seq: h.ledger_seq,
        total_coins: h.total_coins, fee_pool: h.fee_pool, inflation_seq: h.inflation_seq,
        id_pool: h.id_pool, base_fee: h.base_fee, base_reserve: h.base_reserve,
        max_tx_set_size: h.max_tx_set_size, skip_list: h.skip_list.map(|hash| hash.0),
        flags: if let stellar::LedgerHeaderExt::V1(v1) = h.ext { Some(v1.flags) } else { None },
    })
}

/// The parts of a consensus value.
///
/// Copies the fields of `stellar_xdr::curr::StellarValue`, byte strings as their bytes,
/// and tells `StellarValueExt::Basic` from `StellarValueExt::Signed`. Claimed: the
/// parts are what the value holds.
#[verifier::external_body]
fn consensus_parts(value: stellar_xdr::curr::StellarValue) -> (parts: ConsensusValue)
    ensures
        parts@ == consensus_contents(value),
{
    ConsensusValue {
        tx_set_hash: value.tx_set_hash.0,
        close_time: value.close_time.0,
        upgrades: value.upgrades.iter().map(|upgrade| upgrade.0.to_vec()).collect(),
        signature: match value.ext {
            stellar::StellarValueExt::Basic => None,
            stellar::StellarValueExt::Signed(s) => {
                let stellar::PublicKey::PublicKeyTypeEd25519(key) = s.node_id.0;
                Some(CloseSignature { node_id: key.0, signature: s.signature.0.into() })
            }
        },
    }
}

/// Decodes one entry that takes up all of `bytes`; the error is given as text.
pub fn decode_history_entry(bytes: &[u8]) -> (decoded: Result<LedgerHeaderHistoryEntry, String>)
    ensures
        match decoded {
            Ok(entry) => decoded_record(bytes@) == Ok::<HistoryEntryModel, Seq<char>>(entry@),
            Err(text) => decoded_record(bytes@) == Err::<HistoryEntryModel, Seq<char>>(text@),
        },
{
    match decode_raw(bytes) {
        Ok(raw) => Ok(
            LedgerHeaderHistoryEntry {
                hash: raw.hash,
                header: LedgerHeader {
                    ledger_version: raw.ledger_version,
                    previous_ledger_hash: raw.previous_ledger_hash,
                    scp_value: consensus_parts(raw.scp_value),
                    tx_set_result_hash: raw.tx_set_result_hash,
                    bucket_list_hash: raw.bucket_list_hash,
                    ledger_seq: raw.ledger_seq,
                    total_coins: raw.total_coins,
                    fee_pool: raw.fee_pool,
                    inflation_seq: raw.inflation_seq,
                    id_pool: raw.id_pool,
                    base_fee: raw.base_fee,
                    base_reserve: raw.base_reserve,
                    max_tx_set_size: raw.max_tx_set_size,
                    skip_list: raw.skip_list,
                    flags: raw.flags,
                },
            },
        ),
        Err(text) => Err(text),
    }
}

/// The fields of an entry are seen under their own names.
proof fn raw_record_is_seen_field_by_field(raw: RawRecord)
    ensures
        raw.model().hash == raw.hash,
        raw.model().header.ledger_version == raw.ledger_version,
        raw.model().header.previous_ledger_hash == raw.previous_ledger_hash,
        raw.model().header.scp_value == consensus_contents(raw.scp_value),
        raw.model().header.tx_set_result_hash == raw.tx_set_result_hash,
        raw.model().header.bucket_list_hash == raw.bucket_list_hash,
        raw.model().header.ledger_seq == raw.ledger_seq,
        raw.model().header.total_coins == raw.total_coins,
        raw.model().header.fee_pool == raw.fee_pool,
        raw.model().header.inflation_seq == raw.inflation_seq,
        raw.model().header.id_pool == raw.id_pool,
        raw.model().header.base_fee == raw.base_fee,
        raw.model().header.base_reserve == raw.base_reserve,
        raw.model().header.max_tx_set_size == raw.max_tx_set_size,
        raw.model().header.skip_list == raw.skip_list,
        raw.model().header.flags == raw.flags,
{
}

} // verus!
