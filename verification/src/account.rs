//! Account snapshots and the text of an account file.

use crate::address::{base58_text, Address};
use crate::text::{boolean, boolean_text, decimal, decimal_text};
use vstd::prelude::*;
use vstd::string::*;

verus! {

/// What a snapshot holds, as mathematical values.
#[verifier::ext_equal]
pub struct SnapshotView {
    pub lamports: u64,
    pub data: Seq<u8>,
    pub owner: Seq<u8>,
    pub executable: bool,
    pub rent_epoch: u64,
}

/// The longest payload whose base-64 text still fits in one buffer: the
/// text has four characters for every three bytes, rounded up, and a buffer
/// holds at most `isize::MAX` bytes.
pub open spec fn payload_limit() -> nat {
    3 * (isize::MAX / 4) as nat
}

/// The state of one address at one point in time. A snapshot is never
/// changed; every query yields a new one. Its payload is no longer than
/// [`payload_limit`].
#[derive(Debug, PartialEq, Eq)]
pub struct AccountSnapshot {
    lamports: u64,
    data: Vec<u8>,
    owner: Address,
    executable: bool,
    rent_epoch: u64,
}

impl View for AccountSnapshot {
    type V = SnapshotView;

    closed spec fn view(&self) -> SnapshotView {
        SnapshotView {
            lamports: self.lamports,
            data: self.data@,
            owner: self.owner@,
            executable: self.executable,
            rent_epoch: self.rent_epoch,
        }
    }
}

/// The standard padded base-64 text of `data`.
pub uninterp spec fn base64_text(data: Seq<u8>) -> Seq<char>;

/// The bytes that `text` stands for in standard padded base-64, if it stands
/// for any.
pub uninterp spec fn base64_bytes(text: Seq<char>) -> Option<Seq<u8>>;

/// `base64::Engine::encode` of the engine `general_purpose::STANDARD`. It
/// panics where the length of the text overflows or is more than a buffer
/// can hold, which `requires` leaves out. The text depends on the bytes
/// alone, and the same engine's `decode` gives the bytes back from it.
#[verifier::external_body]
fn encode_base64(data: &Vec<u8>) -> (text: String)
    requires
        data@.len() <= payload_limit(),
    ensures
        text@ == base64_text(data@),
        base64_bytes(text@) == Some(data@),
{
    base64::Engine::encode(&base64::engine::general_purpose::STANDARD, data)
}

/// `base64::Engine::decode` of the engine `general_purpose::STANDARD`, with
/// the crate's error turned into `None`. Whether a text decodes, and to
/// which bytes, depends on the text alone.
#[verifier::external_body]
fn decode_base64(text: &str) -> (data: Option<Vec<u8>>)
    ensures
        match data {
            Some(bytes) => base64_bytes(text@) == Some(bytes@),
            None => base64_bytes(text@) is None,
        },
{
    base64::Engine::decode(&base64::engine::general_purpose::STANDARD, text).ok()
}

fn bytes_equal(a: &Vec<u8>, b: &Vec<u8>) -> (same: bool)
    ensures
        same == (a@ == b@),
{
    if a.len() != b.len() {
        return false;
    }
    let mut i: usize = 0;
    while i < a.len()
        invariant
            i <= a.len(),
            a.len() == b.len(),
            forall|j: int| 0 <= j < i ==> a@[j] == b@[j],
        decreases a.len() - i,
    {
        if a[i] != b[i] {
            return false;
        }
        i = i + 1;
    }
    assert(a@ =~= b@);
    true
}

impl AccountSnapshot {
    #[verifier::type_invariant]
    spec fn payload_fits(self) -> bool {
        self.data@.len() <= payload_limit()
    }

    /// A snapshot of the given contents, or `None` where the payload is
    /// longer than [`payload_limit`].
    pub fn new(
        lamports: u64,
        data: Vec<u8>,
        owner: Address,
        executable: bool,
        rent_epoch: u64,
    ) -> (made: Option<AccountSnapshot>)
        ensures
            made is Some <==> data@.len() <= payload_limit(),
            made matches Some(snapshot) ==> snapshot@ == (SnapshotView {
                lamports,
                data: data@,
                owner: owner@,
                executable,
                rent_epoch,
            }),
    {
        if data.len() <= 3 * (isize::MAX as usize / 4) {
            Some(AccountSnapshot { lamports, data, owner, executable, rent_epoch })
        } else {
            None
        }
    }

    /// The balance.
    pub fn lamports(&self) -> (lamports: u64)
        ensures
            lamports == self@.lamports,
    {
        self.lamports
    }

    /// The raw payload.
    pub fn data(&self) -> (data: &Vec<u8>)
        ensures
            data@ == self@.data,
            data@.len() <= payload_limit(),
    {
        proof {
            use_type_invariant(self);
        }
        &self.data
    }

    /// The address of the owning program.
    pub fn owner(&self) -> (owner: Address)
        ensures
            owner@ == self@.owner,
    {
        self.owner
    }

    /// Whether the account holds a program.
    pub fn executable(&self) -> (executable: bool)
        ensures
            executable == self@.executable,
    {
        self.executable
    }

    /// The epoch counter of the rent bookkeeping.
    pub fn rent_epoch(&self) -> (rent_epoch: u64)
        ensures
            rent_epoch == self@.rent_epoch,
    {
        self.rent_epoch
    }

    /// Whether two snapshots agree in every field: balance, payload, owner,
    /// executable flag and epoch counter.
    pub fn same_as(&self, other: &AccountSnapshot) -> (same: bool)
        ensures
            same == (self@ == other@),
    {
        let same = self.lamports == other.lamports && self.executable == other.executable
            && self.rent_epoch == other.rent_epoch && self.owner.same_as(&other.owner)
            && bytes_equal(&self.data, &other.data);
        proof {
            if same {
                assert(self@ =~= other@);
            }
        }
        same
    }

    /// A snapshot with the same contents.
    pub fn duplicate(&self) -> (copy: AccountSnapshot)
        ensures
            copy@ == self@,
    {
        proof {
            use_type_invariant(self);
        }
        let data: Vec<u8> = vstd::slice::slice_to_vec(self.data.as_slice());
        let copy = AccountSnapshot {
            lamports: self.lamports,
            data,
            owner: self.owner,
            executable: self.executable,
            rent_epoch: self.rent_epoch,
        };
        assert(copy@ =~= self@);
        copy
    }
}

impl Clone for AccountSnapshot {
    fn clone(&self) -> (copy: AccountSnapshot)
        ensures
            copy@ == self@,
    {
        self.duplicate()
    }
}

/// The text of an account file, from the text of each field.
pub open spec fn account_json(
    pubkey: Seq<char>,
    lamports: u64,
    payload: Seq<char>,
    owner: Seq<char>,
    executable: bool,
    rent_epoch: u64,
    space: nat,
) -> Seq<char> {
    "{\n  \"pubkey\": \""@ + pubkey + "\",\n  \"account\": {\n    \"lamports\": "@ + decimal(
        lamports as nat,
    ) + ",\n    \"data\": [\n      \""@ + payload
        + "\",\n      \"base64\"\n    ],\n    \"owner\": \""@ + owner
        + "\",\n    \"executable\": "@ + boolean(executable) + ",\n    \"rentEpoch\": "@ + decimal(
        rent_epoch as nat,
    ) + ",\n    \"space\": "@ + decimal(space) + "\n  }\n}"@
}

/// The text of the account file for `snapshot` found at `address`: both
/// addresses in base-58, the payload in base-64, the payload's length as
/// `space`.
pub open spec fn account_record(address: Seq<u8>, snapshot: SnapshotView) -> Seq<char> {
    account_json(
        base58_text(address),
        snapshot.lamports,
        base64_text(snapshot.data),
        base58_text(snapshot.owner),
        snapshot.executable,
        snapshot.rent_epoch,
        snapshot.data.len(),
    )
}

/// Lays out an account file from the text of each field.
pub fn account_json_text(
    pubkey: &str,
    lamports: u64,
    payload: &str,
    owner: &str,
    executable: bool,
    rent_epoch: u64,
    space: usize,
) -> (text: String)
    ensures
        text@ == account_json(
            pubkey@,
            lamports,
            payload@,
            owner@,
            executable,
            rent_epoch,
            space as nat,
        ),
{
    let mut text: String = String::from_str("{\n  \"pubkey\": \"");
    text.append(pubkey);
    text.append("\",\n  \"account\": {\n    \"lamports\": ");
    text.append(decimal_text(lamports).as_str());
    text.append(",\n    \"data\": [\n      \"");
    text.append(payload);
    text.append("\",\n      \"base64\"\n    ],\n    \"owner\": \"");
    text.append(owner);
    text.append("\",\n    \"executable\": ");
    text.append(boolean_text(executable));
    text.append(",\n    \"rentEpoch\": ");
    text.append(decimal_text(rent_epoch).as_str());
    text.append(",\n    \"space\": ");
    text.append(decimal_text(space as u64).as_str());
    text.append("\n  }\n}");
    text
}

/// Writes down the account found at `address`. The payload field holds the
/// base-64 text of the snapshot's payload, from which decoding gives exactly
/// the payload back.
pub fn render_account(address: &Address, snapshot: &AccountSnapshot) -> (text: String)
    ensures
        text@ == account_record(address@, snapshot@),
        base64_bytes(base64_text(snapshot@.data)) == Some(snapshot@.data),
{
    let pubkey: String = address.to_text();
    let payload: String = encode_base64(snapshot.data());
    let owner: String = snapshot.owner().to_text();
    account_json_text(
        pubkey.as_str(),
        snapshot.lamports(),
        payload.as_str(),
        owner.as_str(),
        snapshot.executable(),
        snapshot.rent_epoch(),
        snapshot.data().len(),
    )
}

/// Reads a payload back from its base-64 text; `None` where the text is no
/// standard padded base-64.
pub fn decode_payload(text: &str) -> (data: Option<Vec<u8>>)
    ensures
        match data {
            Some(bytes) => base64_bytes(text@) == Some(bytes@),
            None => base64_bytes(text@) is None,
        },
{
    decode_base64(text)
}

} // verus!
