use vstd::prelude::*;
use vstd::utf8::valid_utf8;
use vstd::utf8::decode_utf8;
use crate::primitives::{AccountId32, H256};
use crate::utils::{cid_encoding_ok, is_base_32, is_base_58, str_from_utf8, base32_symbol, base58_symbol, law_base32_alphabet, law_base58_alphabet};

verus! {

/// What the registry stores for an anchored MTYPE.
#[derive(Debug)]
pub struct MTypeDetails {
    pub owner: AccountId32,
    pub stream_cid: Vec<u8>,
    pub block_number: u64,
}

/// The mathematical value of an [`MTypeDetails`].
pub struct MTypeRecord {
    pub owner: AccountId32,
    pub stream_cid: Seq<u8>,
    pub block_number: u64,
}

impl View for MTypeDetails {
    type V = MTypeRecord;

    open spec fn view(&self) -> MTypeRecord {
        MTypeRecord { owner: self.owner, stream_cid: self.stream_cid@, block_number: self.block_number }
    }
}

/// Errors of the MTYPE pallet.
#[derive(Clone, Copy, Debug, PartialEq, Eq)]
pub enum Error {
    /// There is no MTYPE with the given hash.
    MTypeNotFound,
    /// The MTYPE already exists.
    MTypeAlreadyExists,
    /// Invalid StreamId encoding.
    InvalidStreamCidEncoding,
}

/// Why a dispatch was refused: the origin check, or an error of the pallet.
#[derive(Clone, Copy, Debug, PartialEq, Eq)]
pub enum DispatchError {
    BadOrigin,
    Module(Error),
}

/// Events of the MTYPE pallet.
#[derive(Clone, Copy, Debug, PartialEq, Eq)]
pub enum Event {
    /// A new mtype has been created: owner identifier, mtype hash.
    MTypeAnchored(AccountId32, H256),
}

/// The MTYPE registry: a map from MTYPE hash to its details, and the events
/// that the pallet deposited.
pub struct Pallet {
    entries: Vec<(H256, MTypeDetails)>,
    events: Vec<Event>,
}

/// The map that a list of (hash, details) entries stands for.
pub open spec fn entries_map(s: Seq<(H256, MTypeDetails)>) -> Map<H256, MTypeRecord>
    decreases s.len(),
{
    if s.len() == 0 {
        Map::empty()
    } else {
        entries_map(s.drop_last()).insert(s.last().0, s.last().1@)
    }
}

/// No hash occurs twice among the entries.
pub open spec fn keys_distinct(s: Seq<(H256, MTypeDetails)>) -> bool {
    forall|i: int, j: int| 0 <= i < s.len() && 0 <= j < s.len() && i != j ==> s[i].0 != s[j].0
}

proof fn lemma_entries_map(s: Seq<(H256, MTypeDetails)>)
    requires
        keys_distinct(s),
    ensures
        forall|k: H256|
            entries_map(s).dom().contains(k) <==> exists|i: int| 0 <= i < s.len() && s[i].0 == k,
        forall|i: int| 0 <= i < s.len() ==> #[trigger] entries_map(s)[s[i].0] == s[i].1@,
    decreases s.len(),
{
    if s.len() > 0 {
        let t = s.drop_last();
        assert(keys_distinct(t));
        lemma_entries_map(t);
        assert(entries_map(s) == entries_map(t).insert(s.last().0, s.last().1@));
        assert forall|k: H256|
            entries_map(s).dom().contains(k) <==> exists|i: int| 0 <= i < s.len() && s[i].0 == k by {
            if entries_map(s).dom().contains(k) {
                if k == s.last().0 {
                    assert(s[s.len() - 1].0 == k);
                } else {
                    assert(entries_map(t).dom().contains(k));
                    let i = choose|i: int| 0 <= i < t.len() && t[i].0 == k;
                    assert(s[i].0 == k);
                }
            }
            if exists|i: int| 0 <= i < s.len() && s[i].0 == k {
                let i = choose|i: int| 0 <= i < s.len() && s[i].0 == k;
                if i < s.len() - 1 {
                    assert(t[i].0 == k);
                }
            }
        }
        assert forall|i: int| 0 <= i < s.len() implies #[trigger] entries_map(s)[s[i].0] == s[i].1@ by {
            if i < s.len() - 1 {
                assert(t[i] == s[i]);
                assert(s[i].0 != s[s.len() - 1].0);
            }
        }
    }
}

impl Pallet {
    /// The MTYPEs stored on chain, by hash.
    pub closed spec fn mtypes_map(&self) -> Map<H256, MTypeRecord> {
        entries_map(self.entries@)
    }

    /// The events deposited so far, oldest first.
    pub closed spec fn events_seq(&self) -> Seq<Event> {
        self.events@
    }

    /// Well-formedness: a hash has at most one entry.
    pub closed spec fn wf(&self) -> bool {
        keys_distinct(self.entries@)
    }

    /// An empty registry with no events.
    pub fn new() -> (p: Pallet)
        ensures
            p.wf(),
            p.mtypes_map() == Map::<H256, MTypeRecord>::empty(),
            p.events_seq() == Seq::<Event>::empty(),
    {
        Pallet { entries: Vec::new(), events: Vec::new() }
    }

    fn find(&self, hash: &H256) -> (r: Option<usize>)
        requires
            self.wf(),
        ensures
            match r {
                Some(i) => i < self.entries@.len() && self.entries@[i as int].0 == *hash,
                None => !self.mtypes_map().dom().contains(*hash),
            },
    {
        proof {
            lemma_entries_map(self.entries@);
        }
        let mut i: usize = 0;
        while i < self.entries.len()
            invariant
                i <= self.entries@.len(),
                forall|j: int| 0 <= j < i ==> self.entries@[j].0 != *hash,
            decreases self.entries@.len() - i,
        {
            if self.entries[i].0.same(hash) {
                return Some(i);
            }
            i = i + 1;
        }
        None
    }

    /// Whether an MTYPE with this hash is stored.
    pub fn contains_key(&self, hash: &H256) -> (r: bool)
        requires
            self.wf(),
        ensures
            r == self.mtypes_map().dom().contains(*hash),
    {
        proof {
            lemma_entries_map(self.entries@);
        }
        match self.find(hash) {
            Some(i) => {
                assert(self.entries@[i as int].0 == *hash);
                true
            },
            None => false,
        }
    }

    /// The details stored for an MTYPE hash, if any.
    pub fn mtypes(&self, hash: &H256) -> (r: Option<&MTypeDetails>)
        requires
            self.wf(),
        ensures
            r is Some <==> self.mtypes_map().dom().contains(*hash),
            r matches Some(d) ==> d@ == self.mtypes_map()[*hash],
    {
        proof {
            lemma_entries_map(self.entries@);
        }
        match self.find(hash) {
            Some(i) => {
                assert(self.entries@[i as int].0 == *hash);
                Some(&self.entries[i].1)
            },
            None => None,
        }
    }

    /// The events deposited so far, oldest first.
    pub fn events(&self) -> (r: &Vec<Event>)
        ensures
            r@ == self.events_seq(),
    {
        &self.events
    }

    /// Create a new MTYPE and associate it with its owner.
    ///
    /// * `owner`: the account that the origin check yielded, `None` where the
    ///   origin was rejected
    /// * `mtype_hash`: the MTYPE hash. It has to be unique.
    /// * `stream_cid`: CID of the MTYPE, as UTF-8 text in base 32 or base 58
    /// * `block_number`: the current block number
    ///
    /// A refused call leaves the registry and the events as they were.
    pub fn anchor(
        &mut self,
        owner: Option<AccountId32>,
        mtype_hash: H256,
        stream_cid: Vec<u8>,
        block_number: u64,
    ) -> (res: Result<(), DispatchError>)
        requires
            old(self).wf(),
            owner is Some && !old(self).mtypes_map().dom().contains(mtype_hash) ==> valid_utf8(
                stream_cid@,
            ),
        ensures
            final(self).wf(),
            res == anchor_result(old(self).mtypes_map(), owner, mtype_hash, stream_cid@),
            res is Ok ==> final(self).mtypes_map() == old(self).mtypes_map().insert(
                mtype_hash,
                MTypeRecord { owner: owner->0, stream_cid: stream_cid@, block_number },
            ),
            res is Ok ==> final(self).events_seq() == old(self).events_seq().push(
                Event::MTypeAnchored(owner->0, mtype_hash),
            ),
            res is Err ==> final(self).mtypes_map() == old(self).mtypes_map(),
            res is Err ==> final(self).events_seq() == old(self).events_seq(),
    {
        let who = match owner {
            Some(o) => o,
            None => return Err(DispatchError::BadOrigin),
        };
        if self.contains_key(&mtype_hash) {
            return Err(DispatchError::Module(Error::MTypeAlreadyExists));
        }
        let cid_base = str_from_utf8(stream_cid.as_slice()).unwrap();
        if !(is_base_32(cid_base) || is_base_58(cid_base)) {
            return Err(DispatchError::Module(Error::InvalidStreamCidEncoding));
        }
        let ghost old_entries = self.entries@;
        proof {
            lemma_entries_map(old_entries);
        }
        self.entries.push((mtype_hash, MTypeDetails { owner: who, stream_cid, block_number }));
        assert(self.entries@.drop_last() == old_entries);
        assert(keys_distinct(self.entries@)) by {
            assert forall|i: int, j: int|
                0 <= i < self.entries@.len() && 0 <= j < self.entries@.len() && i != j implies
                self.entries@[i].0 != self.entries@[j].0 by {
                if i < old_entries.len() && j < old_entries.len() {
                    assert(self.entries@[i] == old_entries[i]);
                    assert(self.entries@[j] == old_entries[j]);
                } else if i < old_entries.len() {
                    assert(self.entries@[i] == old_entries[i]);
                    assert(entries_map(old_entries).dom().contains(old_entries[i].0));
                } else {
                    assert(self.entries@[j] == old_entries[j]);
                    assert(entries_map(old_entries).dom().contains(old_entries[j].0));
                }
            }
        }
        self.events.push(Event::MTypeAnchored(who, mtype_hash));
        Ok(())
    }
}

/// What `anchor` answers: the origin check first, then uniqueness of the
/// hash, then the encoding of the CID text.
pub open spec fn anchor_result(
    mtypes: Map<H256, MTypeRecord>,
    owner: Option<AccountId32>,
    mtype_hash: H256,
    stream_cid: Seq<u8>,
) -> Result<(), DispatchError> {
    if owner is None {
        Err(DispatchError::BadOrigin)
    } else if mtypes.dom().contains(mtype_hash) {
        Err(DispatchError::Module(Error::MTypeAlreadyExists))
    } else if !cid_encoding_ok(decode_utf8(stream_cid)) {
        Err(DispatchError::Module(Error::InvalidStreamCidEncoding))
    } else {
        Ok(())
    }
}

} // verus!

verus! {

/// The registry after a successful `anchor`.
pub open spec fn anchored(
    mtypes: Map<H256, MTypeRecord>,
    owner: AccountId32,
    mtype_hash: H256,
    stream_cid: Seq<u8>,
    block_number: u64,
) -> Map<H256, MTypeRecord> {
    mtypes.insert(mtype_hash, MTypeRecord { owner, stream_cid, block_number })
}

/// An MTYPE is written once: after a successful `anchor`, the registry gives
/// back what was anchored, keeps every MTYPE stored before, and refuses with
/// `MTypeAlreadyExists` every later `anchor` of the same hash from any signed
/// origin, whatever its CID.
pub proof fn law_anchor_write_once(
    mtypes: Map<H256, MTypeRecord>,
    owner: AccountId32,
    mtype_hash: H256,
    stream_cid: Seq<u8>,
    block_number: u64,
    other: H256,
    later_owner: AccountId32,
    later_cid: Seq<u8>,
)
    requires
        anchor_result(mtypes, Some(owner), mtype_hash, stream_cid) is Ok,
    ensures
        anchored(mtypes, owner, mtype_hash, stream_cid, block_number)[mtype_hash] == (MTypeRecord {
            owner,
            stream_cid,
            block_number,
        }),
        mtypes.dom().contains(other) ==> anchored(
            mtypes,
            owner,
            mtype_hash,
            stream_cid,
            block_number,
        ).dom().contains(other) && anchored(mtypes, owner, mtype_hash, stream_cid, block_number)[other]
            == mtypes[other],
        anchor_result(
            anchored(mtypes, owner, mtype_hash, stream_cid, block_number),
            Some(later_owner),
            mtype_hash,
            later_cid,
        ) == Err::<(), DispatchError>(DispatchError::Module(Error::MTypeAlreadyExists)),
{
    assert(!mtypes.dom().contains(mtype_hash));
    if mtypes.dom().contains(other) {
        assert(other != mtype_hash);
    }
}

/// An origin that the check rejects is refused with `BadOrigin`, whatever the
/// registry holds and whatever the hash and the CID.
pub proof fn law_anchor_bad_origin_first(
    mtypes: Map<H256, MTypeRecord>,
    mtype_hash: H256,
    stream_cid: Seq<u8>,
)
    ensures
        anchor_result(mtypes, None, mtype_hash, stream_cid) == Err::<(), DispatchError>(
            DispatchError::BadOrigin,
        ),
{
}

} // verus!

verus! {

/// For a signed origin and a fresh hash, `anchor` succeeds exactly when the
/// whole CID text is in the base-32 alphabet or the whole text is in the
/// base-58 alphabet; otherwise it is refused with `InvalidStreamCidEncoding`.
/// A text that mixes symbols of the two alphabets (such as `Hello`: `H` is not
/// base 32, `l` is not base 58) is refused.
pub proof fn law_anchor_whole_cid_in_one_alphabet(
    mtypes: Map<H256, MTypeRecord>,
    owner: AccountId32,
    mtype_hash: H256,
    stream_cid: Seq<u8>,
)
    requires
        !mtypes.dom().contains(mtype_hash),
    ensures
        anchor_result(mtypes, Some(owner), mtype_hash, stream_cid) is Ok <==> ((forall|i: int|
            0 <= i < decode_utf8(stream_cid).len() ==> base32_symbol(
                #[trigger] decode_utf8(stream_cid)[i],
            )) || (forall|i: int|
            0 <= i < decode_utf8(stream_cid).len() ==> base58_symbol(
                #[trigger] decode_utf8(stream_cid)[i],
            ))),
        anchor_result(mtypes, Some(owner), mtype_hash, stream_cid) is Err ==> anchor_result(
            mtypes,
            Some(owner),
            mtype_hash,
            stream_cid,
        ) == Err::<(), DispatchError>(DispatchError::Module(Error::InvalidStreamCidEncoding)),
{
    law_base32_alphabet(decode_utf8(stream_cid));
    law_base58_alphabet(decode_utf8(stream_cid));
}

} // verus!
