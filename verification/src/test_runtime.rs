use vstd::prelude::*;
use crate::primitives::AccountId32;
use crate::data::{Data, DataModel};
use crate::identity::{IdentityInfo, Username, MAX_USERNAME_LENGTH};

verus! {

/// A hook that the runtime runs at a block boundary, with its block number.
#[derive(Clone, Copy, Debug, PartialEq, Eq)]
pub enum Hook {
    IdentityFinalize(u64),
    SystemFinalize(u64),
    SystemInitialize(u64),
    IdentityInitialize(u64),
}

/// The hooks run to move from block `b` to block `b + 1`: the identity and
/// system pallets finalize `b`, then the system and identity pallets
/// initialize `b + 1`.
pub open spec fn block_hooks(b: u64) -> Seq<Hook> {
    seq![
        Hook::IdentityFinalize(b),
        Hook::SystemFinalize(b),
        Hook::SystemInitialize((b + 1) as u64),
        Hook::IdentityInitialize((b + 1) as u64),
    ]
}

/// The hooks run to move from block `from` to block `to`, in order.
pub open spec fn hooks_between(from: u64, to: u64) -> Seq<Hook>
    decreases to - from,
{
    if to <= from {
        Seq::empty()
    } else {
        hooks_between(from, (to - 1) as u64) + block_hooks((to - 1) as u64)
    }
}

/// The state of the test runtime's system pallet: the current block number,
/// and the hooks run so far, in order.
pub struct System {
    block_number: u64,
    hooks: Vec<Hook>,
}

impl System {
    /// The current block number.
    pub closed spec fn spec_block_number(&self) -> u64 {
        self.block_number
    }

    /// The hooks run so far, oldest first.
    pub closed spec fn hook_log(&self) -> Seq<Hook> {
        self.hooks@
    }

    /// The current block number.
    pub fn block_number(&self) -> (r: u64)
        ensures
            r == self.spec_block_number(),
    {
        self.block_number
    }

    /// Set the current block number.
    pub fn set_block_number(&mut self, n: u64)
        ensures
            final(self).spec_block_number() == n,
            final(self).hook_log() == old(self).hook_log(),
    {
        self.block_number = n;
    }

    /// The hooks run so far, oldest first.
    pub fn hooks(&self) -> (r: &Vec<Hook>)
        ensures
            r@ == self.hook_log(),
    {
        &self.hooks
    }
}

/// A fresh test runtime, at block 1, with no hook run.
pub fn new_test_ext() -> (r: System)
    ensures
        r.spec_block_number() == 1,
        r.hook_log() == Seq::<Hook>::empty(),
{
    System { block_number: 1, hooks: Vec::new() }
}

/// Advance block by block until block `n`, running the hooks of each
/// boundary; a runtime at block `n` or later stays as it is.
pub fn run_to_block(system: &mut System, n: u64)
    ensures
        final(system).spec_block_number() == if old(system).spec_block_number() < n {
            n
        } else {
            old(system).spec_block_number()
        },
        final(system).hook_log() == old(system).hook_log() + hooks_between(
            old(system).spec_block_number(),
            final(system).spec_block_number(),
        ),
{
    let ghost start = system.block_number;
    let ghost log0 = system.hooks@;
    assert(log0 + hooks_between(start, start) =~= log0);
    while system.block_number < n
        invariant
            start <= system.block_number,
            start < n ==> system.block_number <= n,
            start >= n ==> system.block_number == start,
            system.hooks@ == log0 + hooks_between(start, system.block_number),
        decreases n - system.block_number,
    {
        let b = system.block_number;
        system.hooks.push(Hook::IdentityFinalize(b));
        system.hooks.push(Hook::SystemFinalize(b));
        system.block_number = b + 1;
        system.hooks.push(Hook::SystemInitialize(b + 1));
        system.hooks.push(Hook::IdentityInitialize(b + 1));
        assert(hooks_between(start, (b + 1) as u64) == hooks_between(start, b) + block_hooks(b));
        assert(system.hooks@ =~= log0 + hooks_between(start, system.block_number));
    }
}

/// Running to block `m` and then to block `n` runs the same hooks, in the
/// same order, as moving from the first block to the last in one go.
pub proof fn law_hooks_compose(a: u64, b: u64, c: u64)
    requires
        a <= b <= c,
    ensures
        hooks_between(a, b) + hooks_between(b, c) == hooks_between(a, c),
        hooks_between(a, c).len() == 4 * (c - a),
    decreases c - b,
{
    if c == b {
        assert(hooks_between(a, b) + hooks_between(b, c) =~= hooks_between(a, c));
        lemma_hooks_len(a, c);
    } else {
        law_hooks_compose(a, b, (c - 1) as u64);
        assert(hooks_between(a, b) + hooks_between(b, c) =~= hooks_between(a, b) + hooks_between(
            b,
            (c - 1) as u64,
        ) + block_hooks((c - 1) as u64));
        lemma_hooks_len(a, c);
    }
}

proof fn lemma_hooks_len(a: u64, c: u64)
    requires
        a <= c,
    ensures
        hooks_between(a, c).len() == 4 * (c - a),
    decreases c - a,
{
    if c > a {
        lemma_hooks_len(a, (c - 1) as u64);
    }
}

/// The account whose 32 bytes are all `id`.
pub fn account(id: u8) -> (r: AccountId32)
    ensures
        is_account_of(r, id),
{
    let r = AccountId32([id; 32]);
    assert(r.0@ =~= Seq::new(32, |_i: int| id));
    r
}

/// Byte `k` (0 to 3) of the little-endian encoding of `id`.
pub open spec fn le_byte(id: u32, k: int) -> u8 {
    ((id >> ((8 * k) as u32)) & 0xff) as u8
}

/// The account whose 32 bytes repeat the little-endian bytes of `id` eight times.
pub fn account_from_u32(id: u32) -> (r: AccountId32)
    ensures
        forall|i: int| 0 <= i < 32 ==> #[trigger] r.0@[i] == le_byte(id, i % 4),
        bytes_from_u32(r, id),
{
    let mut buffer: [u8; 32] = [255u8; 32];
    let id_size: usize = 4;
    let mut ii: usize = 0;
    while ii < 32 / id_size
        invariant
            id_size == 4,
            ii <= 8,
            buffer@.len() == 32,
            forall|i: int| 0 <= i < 4 * ii ==> #[trigger] buffer@[i] == le_byte(id, i % 4),
        decreases 8 - ii,
    {
        let s = ii * id_size;
        let mut k: usize = 0;
        while k < id_size
            invariant
                id_size == 4,
                ii < 8,
                s == 4 * ii,
                k <= 4,
                buffer@.len() == 32,
                forall|i: int| 0 <= i < s + k ==> #[trigger] buffer@[i] == le_byte(id, i % 4),
            decreases 4 - k,
        {
            let shift: u32 = 8 * (k as u32);
            let byte: u8 = ((id >> shift) & 0xff) as u8;
            assert((s + k) as int % 4 == k as int);
            buffer[s + k] = byte;
            k = k + 1;
        }
        ii = ii + 1;
    }
    AccountId32(buffer)
}

/// Every byte of `r` is the little-endian byte of `id` at its place in its
/// 4-byte chunk.
pub open spec fn bytes_from_u32(r: AccountId32, id: u32) -> bool {
    forall|i: int| 0 <= i < 32 ==> #[trigger] r.0@[i] == le_byte(id, i % 4)
}

/// Each of the eight 4-byte chunks of `account_from_u32(id)` reads back as
/// `id` in little-endian order (the chunk is `id.to_le_bytes()`), so different
/// ids give different accounts.
pub proof fn law_account_from_u32_le(r: AccountId32, id: u32, other: u32, j: int)
    requires
        bytes_from_u32(r, id),
        0 <= j < 8,
    ensures
        r.0@[4 * j] + 256 * r.0@[4 * j + 1] + 65536 * r.0@[4 * j + 2] + 16777216 * r.0@[4 * j
            + 3] == id,
        bytes_from_u32(r, other) ==> other == id,
{
    assert(r.0@[4 * j] == le_byte(id, 0));
    assert(r.0@[4 * j + 1] == le_byte(id, 1));
    assert(r.0@[4 * j + 2] == le_byte(id, 2));
    assert(r.0@[4 * j + 3] == le_byte(id, 3));
    assert(((id >> 0u32) & 0xff) as u8 + 256 * (((id >> 8u32) & 0xff) as u8) + 65536 * (((id
        >> 16u32) & 0xff) as u8) + 16777216 * (((id >> 24u32) & 0xff) as u8) == id)
        by (bit_vector);
    if bytes_from_u32(r, other) {
        assert(r.0@[4 * j] == le_byte(other, 0));
        assert(r.0@[4 * j + 1] == le_byte(other, 1));
        assert(r.0@[4 * j + 2] == le_byte(other, 2));
        assert(r.0@[4 * j + 3] == le_byte(other, 3));
        assert(((other >> 0u32) & 0xff) as u8 + 256 * (((other >> 8u32) & 0xff) as u8) + 65536 * (((
        other >> 16u32) & 0xff) as u8) + 16777216 * (((other >> 24u32) & 0xff) as u8) == other)
            by (bit_vector);
    }
}

/// The eight funded and unfunded accounts that the tests use.
pub fn accounts() -> (r: [AccountId32; 8])
    ensures
        is_account_of(r[0], 1),
        is_account_of(r[1], 2),
        is_account_of(r[2], 3),
        is_account_of(r[3], 4),
        is_account_of(r[4], 10),
        is_account_of(r[5], 20),
        is_account_of(r[6], 30),
        is_account_of(r[7], 40),
{
    [
        account(1),
        account(2),
        account(3),
        account(4),
        account(10),
        account(20),
        account(30),
        account(40),
    ]
}

/// The accounts that hold no funds.
pub fn unfunded_accounts() -> (r: [AccountId32; 2])
    ensures
        is_account_of(r[0], 100),
        is_account_of(r[1], 101),
{
    [account(100), account(101)]
}

/// Whether the 32 bytes of `a` are all `id`.
pub open spec fn is_account_of(a: AccountId32, id: u8) -> bool {
    a.0@ == Seq::new(32, |_i: int| id)
}

} // verus!

verus! {

/// The bytes `testusername`.
pub open spec fn username_base() -> Seq<u8> {
    seq![
        116u8, 101u8, 115u8, 116u8, 117u8, 115u8, 101u8, 114u8, 110u8, 97u8,
        109u8, 101u8,
    ]
}

fn push_all(v: &mut Vec<u8>, src: &Vec<u8>)
    ensures
        final(v)@ == old(v)@ + src@,
{
    let ghost v0 = v@;
    let mut i: usize = 0;
    while i < src.len()
        invariant
            i <= src@.len(),
            v@ == v0 + src@.take(i as int),
        decreases src@.len() - i,
    {
        v.push(src[i]);
        i = i + 1;
        assert(src@.take(i as int) =~= src@.take((i - 1) as int).push(src@[i - 1]));
        assert(v@ =~= v0 + src@.take(i as int));
    }
    assert(src@.take(src@.len() as int) =~= src@);
}

/// A username for the tests: `testusername` followed by `number`, as submitted to
/// the pallet, and the same followed by `@` and `suffix`, as a user signs it.
/// The full username has to fit within the bound of 32 bytes.
pub fn test_username_of(number: Vec<u8>, suffix: Vec<u8>) -> (r: (Vec<u8>, Username))
    requires
        username_base().len() + number@.len() + 1 + suffix@.len() <= MAX_USERNAME_LENGTH,
    ensures
        r.0@ == username_base() + number@,
        r.1@ == username_base() + number@ + seq![64u8] + suffix@,
{
    let base: Vec<u8> = vec![
        116u8, 101u8, 115u8, 116u8, 117u8, 115u8, 101u8, 114u8, 110u8, 97u8,
        109u8, 101u8,
    ];
    assert(base@ =~= username_base());
    let mut username: Vec<u8> = Vec::new();
    push_all(&mut username, &base);
    push_all(&mut username, &number);
    assert(username@ =~= username_base() + number@);
    let mut bounded_username: Vec<u8> = Vec::new();
    push_all(&mut bounded_username, &username);
    bounded_username.push(64u8);  // the byte of `@`
    push_all(&mut bounded_username, &suffix);
    assert(bounded_username@ =~= username_base() + number@ + seq![64u8] + suffix@);
    let bounded_username = Username::try_from(bounded_username).unwrap();
    (username, bounded_username)
}

/// The bytes `ten`.
pub open spec fn ten_display() -> Seq<u8> {
    seq![116u8, 101u8, 110u8]
}

/// The bytes `The Right Ordinal Ten, Esq.`.
pub open spec fn ten_legal() -> Seq<u8> {
    seq![
        84u8, 104u8, 101u8, 32u8, 82u8, 105u8, 103u8, 104u8, 116u8, 32u8,
        79u8, 114u8, 100u8, 105u8, 110u8, 97u8, 108u8, 32u8, 84u8, 101u8,
        110u8, 44u8, 32u8, 69u8, 115u8, 113u8, 46u8,
    ]
}

/// The bytes `twenty`.
pub open spec fn twenty_display() -> Seq<u8> {
    seq![116u8, 119u8, 101u8, 110u8, 116u8, 121u8]
}

/// The bytes `The Right Ordinal Twenty, Esq.`.
pub open spec fn twenty_legal() -> Seq<u8> {
    seq![
        84u8, 104u8, 101u8, 32u8, 82u8, 105u8, 103u8, 104u8, 116u8, 32u8,
        79u8, 114u8, 100u8, 105u8, 110u8, 97u8, 108u8, 32u8, 84u8, 119u8,
        101u8, 110u8, 116u8, 121u8, 44u8, 32u8, 69u8, 115u8, 113u8, 46u8,
    ]
}

/// An identity with a display name and a legal name, and nothing else.
pub open spec fn named_identity(info: IdentityInfo, display: Seq<u8>, legal: Seq<u8>) -> bool {
    &&& info.wf()
    &&& info.display@ == DataModel::Raw(display)
    &&& info.legal@ == DataModel::Raw(legal)
    &&& info.web@ is Empty
    &&& info.email@ is Empty
    &&& info.image@ is Empty
    &&& info.additional@.len() == 0
}

/// The identity of account ten: display `ten`, legal name
/// `The Right Ordinal Ten, Esq.`.
pub fn infoof_ten() -> (r: IdentityInfo)
    ensures
        named_identity(r, ten_display(), ten_legal()),
{
    let display: Vec<u8> = vec![116u8, 101u8, 110u8];
    let legal: Vec<u8> = vec![
        84u8, 104u8, 101u8, 32u8, 82u8, 105u8, 103u8, 104u8, 116u8, 32u8,
        79u8, 114u8, 100u8, 105u8, 110u8, 97u8, 108u8, 32u8, 84u8, 101u8,
        110u8, 44u8, 32u8, 69u8, 115u8, 113u8, 46u8,
    ];
    assert(display@ =~= ten_display());
    assert(legal@ =~= ten_legal());
    let mut info = IdentityInfo::default();
    info.display = Data::raw(display).unwrap();
    info.legal = Data::raw(legal).unwrap();
    info
}

/// The identity of account twenty: display `twenty`, legal name
/// `The Right Ordinal Twenty, Esq.`.
pub fn infoof_twenty() -> (r: IdentityInfo)
    ensures
        named_identity(r, twenty_display(), twenty_legal()),
{
    let display: Vec<u8> = vec![116u8, 119u8, 101u8, 110u8, 116u8, 121u8];
    let legal: Vec<u8> = vec![
        84u8, 104u8, 101u8, 32u8, 82u8, 105u8, 103u8, 104u8, 116u8, 32u8,
        79u8, 114u8, 100u8, 105u8, 110u8, 97u8, 108u8, 32u8, 84u8, 119u8,
        101u8, 110u8, 116u8, 121u8, 44u8, 32u8, 69u8, 115u8, 113u8, 46u8,
    ];
    assert(display@ =~= twenty_display());
    assert(legal@ =~= twenty_legal());
    let mut info = IdentityInfo::default();
    info.display = Data::raw(display).unwrap();
    info.legal = Data::raw(legal).unwrap();
    info
}

} // verus!
