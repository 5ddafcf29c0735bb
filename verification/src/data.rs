use vstd::prelude::*;

verus! {

/// Either underlying data blob if it is at most 32 bytes, or a hash of it.
/// If the data is greater than 32 bytes then a hash is stored.
#[derive(Clone, Debug, PartialEq, Eq)]
pub enum Data {
    /// No data here.
    Empty,
    /// The data is stored directly (at most 32 bytes).
    Raw(Vec<u8>),
    /// Only the Blake2 hash of the data is stored.
    BlakeTwo256([u8; 32]),
    /// Only the SHA2-256 hash of the data is stored.
    Sha256([u8; 32]),
    /// Only the Keccak-256 hash of the data is stored.
    Keccak256([u8; 32]),
    /// Only the SHA3-256 hash of the data is stored.
    ShaThree256([u8; 32]),
}

/// The mathematical value of a [`Data`].
pub enum DataModel {
    Empty,
    Raw(Seq<u8>),
    BlakeTwo256(Seq<u8>),
    Sha256(Seq<u8>),
    Keccak256(Seq<u8>),
    ShaThree256(Seq<u8>),
}

/// The largest raw blob that a [`Data`] holds.
pub const MAX_RAW_LEN: usize = 32;

impl View for Data {
    type V = DataModel;

    open spec fn view(&self) -> DataModel {
        match self {
            Data::Empty => DataModel::Empty,
            Data::Raw(x) => DataModel::Raw(x@),
            Data::BlakeTwo256(h) => DataModel::BlakeTwo256(h@),
            Data::Sha256(h) => DataModel::Sha256(h@),
            Data::Keccak256(h) => DataModel::Keccak256(h@),
            Data::ShaThree256(h) => DataModel::ShaThree256(h@),
        }
    }
}

/// A model value that some [`Data`] can hold: a raw blob of at most 32 bytes,
/// or a hash of exactly 32 bytes.
pub open spec fn model_wf(d: DataModel) -> bool {
    match d {
        DataModel::Empty => true,
        DataModel::Raw(x) => x.len() <= 32,
        DataModel::BlakeTwo256(h) => h.len() == 32,
        DataModel::Sha256(h) => h.len() == 32,
        DataModel::Keccak256(h) => h.len() == 32,
        DataModel::ShaThree256(h) => h.len() == 32,
    }
}

/// The encoding of a data value: a leading byte that tells the variant (for raw
/// data, one more than its length), then the bytes. Raw data is cut at 32 bytes.
pub open spec fn encode_data(d: DataModel) -> Seq<u8> {
    match d {
        DataModel::Empty => seq![0u8],
        DataModel::Raw(x) => {
            let l: nat = if x.len() < 32 { x.len() } else { 32 };
            seq![(l + 1) as u8] + x.take(l as int)
        },
        DataModel::BlakeTwo256(h) => seq![34u8] + h,
        DataModel::Sha256(h) => seq![35u8] + h,
        DataModel::Keccak256(h) => seq![36u8] + h,
        DataModel::ShaThree256(h) => seq![37u8] + h,
    }
}

/// Why decoding failed.
#[derive(Clone, Copy, Debug, PartialEq, Eq)]
pub enum DecodeError {
    /// The input ended before the value did.
    NotEnoughData,
    /// The leading byte names no variant.
    InvalidLeadingByte,
}

/// Whether `n` more bytes can be read from a stream whose remaining bytes are
/// `rem`; a zero-padded stream never runs out.
pub open spec fn can_read(rem: Seq<u8>, zeros: bool, n: nat) -> bool {
    n <= rem.len() || zeros
}

/// The next `n` bytes of the stream: those of `rem`, then zeros.
pub open spec fn take_padded(rem: Seq<u8>, n: nat) -> Seq<u8> {
    Seq::new(n, |j: int| if j < rem.len() { rem[j] } else { 0u8 })
}

/// What remains of `rem` after `n` bytes were read.
pub open spec fn skip_clamped(rem: Seq<u8>, n: nat) -> Seq<u8> {
    if n <= rem.len() {
        rem.skip(n as int)
    } else {
        Seq::empty()
    }
}

/// The hash variant named by a leading byte in 34..=37.
pub open spec fn hash_variant(b: u8, h: Seq<u8>) -> DataModel {
    if b == 34 {
        DataModel::BlakeTwo256(h)
    } else if b == 35 {
        DataModel::Sha256(h)
    } else if b == 36 {
        DataModel::Keccak256(h)
    } else {
        DataModel::ShaThree256(h)
    }
}

/// Decoding one data value from a stream whose remaining bytes are `rem`
/// (zero-padded where `zeros` holds): the value and the number of bytes read.
pub open spec fn decode_data(rem: Seq<u8>, zeros: bool) -> Result<(DataModel, nat), DecodeError> {
    if !can_read(rem, zeros, 1) {
        Err(DecodeError::NotEnoughData)
    } else {
        let b = take_padded(rem, 1)[0];
        let rest = skip_clamped(rem, 1);
        if b == 0 {
            Ok((DataModel::Empty, 1))
        } else if b <= 33 {
            if can_read(rest, zeros, (b - 1) as nat) {
                Ok((DataModel::Raw(take_padded(rest, (b - 1) as nat)), b as nat))
            } else {
                Err(DecodeError::NotEnoughData)
            }
        } else if b <= 37 {
            if can_read(rest, zeros, 32) {
                Ok((hash_variant(b, take_padded(rest, 32)), 33))
            } else {
                Err(DecodeError::NotEnoughData)
            }
        } else {
            Err(DecodeError::InvalidLeadingByte)
        }
    }
}

/// What remains of the stream after a failed decode: nothing was read where
/// not even the leading byte could be; else the leading byte was read.
pub open spec fn rest_after_failure(rem: Seq<u8>, zeros: bool) -> Seq<u8> {
    if can_read(rem, zeros, 1) {
        skip_clamped(rem, 1)
    } else {
        rem
    }
}

/// Decoding two data values in a row.
pub open spec fn decode_data_pair(rem: Seq<u8>, zeros: bool) -> Result<
    ((DataModel, DataModel), nat),
    DecodeError,
> {
    match decode_data(rem, zeros) {
        Err(e) => Err(e),
        Ok((a, n)) => match decode_data(skip_clamped(rem, n), zeros) {
            Err(e) => Err(e),
            Ok((b, m)) => Ok(((a, b), n + m)),
        },
    }
}

/// A stream of bytes to decode from: a byte slice, which fails where it runs
/// out, or a byte slice followed by as many zeros as are read.
pub struct Input {
    bytes: Vec<u8>,
    pos: usize,
    zeros: bool,
}

impl Input {
    #[verifier::type_invariant]
    spec fn inv(self) -> bool {
        self.pos <= self.bytes@.len()
    }

    /// The bytes not read yet (before any padding).
    pub closed spec fn remaining(&self) -> Seq<u8> {
        self.bytes@.skip(self.pos as int)
    }

    /// Whether reads past the end give zeros.
    pub closed spec fn pads(&self) -> bool {
        self.zeros
    }

    /// A stream over `bytes` that fails where they run out.
    pub fn new(bytes: Vec<u8>) -> (r: Input)
        ensures
            r.remaining() == bytes@,
            !r.pads(),
    {
        let r = Input { bytes, pos: 0, zeros: false };
        assert(r.bytes@.skip(0) =~= r.bytes@);
        r
    }

    /// A stream over `bytes` followed by zeros, as many as are read.
    pub fn append_zeros(bytes: Vec<u8>) -> (r: Input)
        ensures
            r.remaining() == bytes@,
            r.pads(),
    {
        let r = Input { bytes, pos: 0, zeros: true };
        assert(r.bytes@.skip(0) =~= r.bytes@);
        r
    }

    /// Read one byte.
    pub fn read_byte(&mut self) -> (r: Result<u8, DecodeError>)
        ensures
            final(self).pads() == old(self).pads(),
            can_read(old(self).remaining(), old(self).pads(), 1) ==> r == Ok::<u8, DecodeError>(
                take_padded(old(self).remaining(), 1)[0],
            ) && final(self).remaining() == skip_clamped(old(self).remaining(), 1),
            !can_read(old(self).remaining(), old(self).pads(), 1) ==> r == Err::<u8, DecodeError>(
                DecodeError::NotEnoughData,
            ) && final(self).remaining() == old(self).remaining(),
    {
        proof {
            use_type_invariant(&*self);
        }
        if self.pos < self.bytes.len() {
            let b = self.bytes[self.pos];
            let ghost old_rem = self.bytes@.skip(self.pos as int);
            self.pos = self.pos + 1;
            assert(self.bytes@.skip(self.pos as int) =~= old_rem.skip(1));
            Ok(b)
        } else if self.zeros {
            assert(self.bytes@.skip(self.pos as int) =~= Seq::<u8>::empty());
            Ok(0)
        } else {
            Err(DecodeError::NotEnoughData)
        }
    }

    /// Read `n` bytes.
    pub fn read(&mut self, n: usize) -> (r: Result<Vec<u8>, DecodeError>)
        ensures
            final(self).pads() == old(self).pads(),
            can_read(old(self).remaining(), old(self).pads(), n as nat) ==> (r matches Ok(v) && v@
                == take_padded(old(self).remaining(), n as nat) && final(self).remaining()
                == skip_clamped(old(self).remaining(), n as nat)),
            !can_read(old(self).remaining(), old(self).pads(), n as nat) ==> r == Err::<
                Vec<u8>,
                DecodeError,
            >(DecodeError::NotEnoughData) && final(self).remaining() == old(self).remaining(),
    {
        proof {
            use_type_invariant(&*self);
        }
        if !self.zeros && n > self.bytes.len() - self.pos {
            return Err(DecodeError::NotEnoughData);
        }
        let ghost old_rem = self.bytes@.skip(self.pos as int);
        let ghost old_pos = self.pos;
        let ghost old_zeros = self.zeros;
        let mut out: Vec<u8> = Vec::new();
        let mut k: usize = 0;
        while k < n
            invariant
                k <= n,
                self.zeros == old_zeros,
                can_read(old_rem, self.zeros, n as nat),
                old_rem == self.bytes@.skip(old_pos as int),
                old_pos <= self.pos <= self.bytes@.len(),
                self.pos as int == if old_pos + k <= self.bytes@.len() {
                    old_pos + k
                } else {
                    self.bytes@.len() as int
                },
                out@ =~= take_padded(old_rem, k as nat),
            decreases n - k,
        {
            proof {
                use_type_invariant(&*self);
            }
            if self.pos < self.bytes.len() {
                out.push(self.bytes[self.pos]);
                self.pos = self.pos + 1;
            } else {
                out.push(0);
            }
            k = k + 1;
        }
        assert(self.bytes@.skip(self.pos as int) =~= skip_clamped(old_rem, n as nat));
        Ok(out)
    }
}

impl Data {
    /// Whether this value can be held: a raw blob is at most 32 bytes.
    pub open spec fn wf(&self) -> bool {
        model_wf(self@)
    }

    /// Raw data, where `bytes` fit within the bound of 32 bytes.
    pub fn raw(bytes: Vec<u8>) -> (r: Option<Data>)
        ensures
            r is Some <==> bytes@.len() <= 32,
            r matches Some(d) ==> d@ == DataModel::Raw(bytes@) && d.wf(),
    {
        if bytes.len() <= MAX_RAW_LEN {
            Some(Data::Raw(bytes))
        } else {
            None
        }
    }

    /// Whether this is `Data::Empty`.
    pub fn is_none(&self) -> (r: bool)
        ensures
            r == (self@ is Empty),
    {
        match self {
            Data::Empty => true,
            _ => false,
        }
    }

    /// The encoding of this value.
    pub fn encode(&self) -> (r: Vec<u8>)
        ensures
            r@ == encode_data(self@),
    {
        match self {
            Data::Empty => {
                let mut r: Vec<u8> = Vec::new();
                r.push(0u8);
                assert(r@ =~= seq![0u8]);
                r
            },
            Data::Raw(x) => {
                let l: usize = if x.len() < MAX_RAW_LEN {
                    x.len()
                } else {
                    MAX_RAW_LEN
                };
                let mut r: Vec<u8> = Vec::new();
                r.push((l + 1) as u8);
                let mut i: usize = 0;
                while i < l
                    invariant
                        i <= l,
                        l <= x@.len(),
                        l <= 32,
                        r@ =~= seq![(l + 1) as u8] + x@.take(i as int),
                    decreases l - i,
                {
                    r.push(x[i]);
                    i = i + 1;
                    assert(x@.take(i as int) =~= x@.take((i - 1) as int).push(x@[i - 1]));
                }
                r
            },
            Data::BlakeTwo256(h) => tagged_hash(34u8, h),
            Data::Sha256(h) => tagged_hash(35u8, h),
            Data::Keccak256(h) => tagged_hash(36u8, h),
            Data::ShaThree256(h) => tagged_hash(37u8, h),
        }
    }

    /// Decode one value from `input`.
    pub fn decode(input: &mut Input) -> (r: Result<Data, DecodeError>)
        ensures
            final(input).pads() == old(input).pads(),
            match decode_data(old(input).remaining(), old(input).pads()) {
                Ok((m, n)) => r matches Ok(d) && d@ == m && d.wf() && final(input).remaining()
                    == skip_clamped(old(input).remaining(), n),
                Err(e) => r == Err::<Data, DecodeError>(e) && final(input).remaining()
                    == rest_after_failure(old(input).remaining(), old(input).pads()),
            },
    {
        let ghost rem = input.remaining();
        let ghost zeros = input.pads();
        let b = match input.read_byte() {
            Ok(b) => b,
            Err(e) => return Err(e),
        };
        let ghost rest = skip_clamped(rem, 1);
        proof {
            lemma_skip_clamped_twice(rem, 1, 32);
        }
        if b == 0 {
            Ok(Data::Empty)
        } else if b <= 33 {
            proof {
                lemma_skip_clamped_twice(rem, 1, (b - 1) as nat);
            }
            match input.read((b - 1) as usize) {
                Ok(v) => Ok(Data::Raw(v)),
                Err(e) => Err(e),
            }
        } else if b <= 37 {
            match input.read(32) {
                Ok(v) => {
                    let h = to_array32(&v);
                    if b == 34 {
                        Ok(Data::BlakeTwo256(h))
                    } else if b == 35 {
                        Ok(Data::Sha256(h))
                    } else if b == 36 {
                        Ok(Data::Keccak256(h))
                    } else {
                        Ok(Data::ShaThree256(h))
                    }
                },
                Err(e) => Err(e),
            }
        } else {
            Err(DecodeError::InvalidLeadingByte)
        }
    }
}

/// Decode two values in a row from `input`.
pub fn decode_pair(input: &mut Input) -> (r: Result<(Data, Data), DecodeError>)
    ensures
        final(input).pads() == old(input).pads(),
        match decode_data_pair(old(input).remaining(), old(input).pads()) {
            Ok(((a, b), n)) => r matches Ok((x, y)) && x@ == a && y@ == b && x.wf() && y.wf()
                && final(input).remaining() == skip_clamped(old(input).remaining(), n),
            Err(e) => r == Err::<(Data, Data), DecodeError>(e) && final(input).remaining() == match
            decode_data(old(input).remaining(), old(input).pads()) {
                Ok((_, n)) => rest_after_failure(
                    skip_clamped(old(input).remaining(), n),
                    old(input).pads(),
                ),
                Err(_) => rest_after_failure(old(input).remaining(), old(input).pads()),
            },
        },
{
    let ghost rem = input.remaining();
    let a = match Data::decode(input) {
        Ok(a) => a,
        Err(e) => return Err(e),
    };
    let ghost n = decode_data(rem, input.pads())->Ok_0.1;
    let b = match Data::decode(input) {
        Ok(b) => b,
        Err(e) => return Err(e),
    };
    proof {
        let m = decode_data(skip_clamped(rem, n), input.pads())->Ok_0.1;
        lemma_skip_clamped_twice(rem, n, m);
    }
    Ok((a, b))
}


/// A raw blob cut to the 32 bytes that its encoding keeps.
pub open spec fn truncate_raw(d: DataModel) -> DataModel {
    match d {
        DataModel::Raw(x) => DataModel::Raw(if x.len() <= 32 { x } else { x.take(32) }),
        _ => d,
    }
}

/// Decoding gives back what was encoded: decoding the encoding of a value,
/// followed by any bytes, yields the value (a raw blob cut at 32 bytes) and
/// reads exactly its encoding, on a plain stream and on a zero-padded one.
pub proof fn law_decode_encode(d: DataModel, rest: Seq<u8>, zeros: bool)
    requires
        d matches DataModel::Raw(_) || model_wf(d),
    ensures
        decode_data(encode_data(d) + rest, zeros) == Ok::<(DataModel, nat), DecodeError>(
            (truncate_raw(d), encode_data(d).len()),
        ),
        skip_clamped(encode_data(d) + rest, encode_data(d).len()) == rest,
{
    let e = encode_data(d);
    let s = e + rest;
    assert(s.skip(e.len() as int) =~= rest);
    assert(take_padded(s, 1)[0] == e[0]);
    let tail = skip_clamped(s, 1);
    assert(tail =~= e.skip(1) + rest);
    match d {
        DataModel::Empty => {},
        DataModel::Raw(x) => {
            let l: nat = if x.len() < 32 { x.len() } else { 32 };
            assert(e[0] == (l + 1) as u8);
            assert(take_padded(tail, l) =~= x.take(l as int));
            if x.len() <= 32 {
                assert(x.take(l as int) =~= x);
            }
        },
        DataModel::BlakeTwo256(h) => {
            assert(take_padded(tail, 32) =~= h);
        },
        DataModel::Sha256(h) => {
            assert(take_padded(tail, 32) =~= h);
        },
        DataModel::Keccak256(h) => {
            assert(take_padded(tail, 32) =~= h);
        },
        DataModel::ShaThree256(h) => {
            assert(take_padded(tail, 32) =~= h);
        },
    }
}

/// The encoding of a value that a [`Data`] holds is never empty and never
/// longer than 33 bytes, and different values have different encodings.
pub proof fn law_encode_injective(a: DataModel, b: DataModel)
    requires
        model_wf(a),
        model_wf(b),
        encode_data(a) == encode_data(b),
    ensures
        a == b,
        1 <= encode_data(a).len() <= 33,
{
    law_decode_encode(a, Seq::empty(), false);
    law_decode_encode(b, Seq::empty(), false);
    assert(encode_data(a) + Seq::<u8>::empty() =~= encode_data(a));
    assert(encode_data(b) + Seq::<u8>::empty() =~= encode_data(b));
}

/// Once the bytes run out, a zero-padded stream decodes to `Data::Empty`
/// (its leading byte reads as zero), while a plain stream fails. So a value
/// encoded alone decodes as a pair only from the zero-padded stream, with
/// `Data::Empty` as the second member.
pub proof fn law_trailing_zeros_decode_to_empty(d: DataModel)
    requires
        model_wf(d),
    ensures
        decode_data(Seq::empty(), true) == Ok::<(DataModel, nat), DecodeError>(
            (DataModel::Empty, 1),
        ),
        decode_data(Seq::empty(), false) == Err::<(DataModel, nat), DecodeError>(
            DecodeError::NotEnoughData,
        ),
        decode_data_pair(encode_data(d), false) == Err::<((DataModel, DataModel), nat), DecodeError>(
            DecodeError::NotEnoughData,
        ),
        decode_data_pair(encode_data(d), true) == Ok::<((DataModel, DataModel), nat), DecodeError>(
            ((d, DataModel::Empty), encode_data(d).len() + 1),
        ),
{
    let e = encode_data(d);
    law_decode_encode(d, Seq::empty(), false);
    law_decode_encode(d, Seq::empty(), true);
    assert(e + Seq::<u8>::empty() =~= e);
    assert(take_padded(Seq::<u8>::empty(), 1)[0] == 0u8);
    match d {
        DataModel::Raw(x) => {
            assert(x.len() <= 32);
        },
        _ => {},
    }
    assert(truncate_raw(d) == d);
}

/// Decoding a pair gives back both encoded values: the first from the start of
/// the stream, the second from the bytes right after the first, and it reads
/// exactly the two encodings, on a plain stream and on a zero-padded one.
pub proof fn law_decode_pair_encode(a: DataModel, b: DataModel, rest: Seq<u8>, zeros: bool)
    requires
        model_wf(a),
        model_wf(b),
    ensures
        decode_data_pair(encode_data(a) + encode_data(b) + rest, zeros) == Ok::<
            ((DataModel, DataModel), nat),
            DecodeError,
        >(((a, b), encode_data(a).len() + encode_data(b).len())),
{
    let ea = encode_data(a);
    let eb = encode_data(b);
    assert(ea + eb + rest =~= ea + (eb + rest));
    law_decode_encode(a, eb + rest, zeros);
    law_decode_encode(b, rest, zeros);
    assert(truncate_raw(a) == a) by {
        if let DataModel::Raw(x) = a {
            assert(x.len() <= 32);
        }
    }
    assert(truncate_raw(b) == b) by {
        if let DataModel::Raw(x) = b {
            assert(x.len() <= 32);
        }
    }
}

/// The leading byte of an encoding names the variant by a fixed table: 0 for
/// no data, one more than the length for raw data, 34 for BLAKE2-256, 35 for
/// SHA2-256, 36 for Keccak-256, 37 for SHA3-256; the 32 hash bytes follow. A
/// stream that starts with one of these hash bytes decodes to that variant.
pub proof fn law_leading_byte_table(x: Seq<u8>, h: Seq<u8>, rest: Seq<u8>, zeros: bool)
    requires
        x.len() <= 32,
        h.len() == 32,
    ensures
        encode_data(DataModel::Empty) == seq![0u8],
        encode_data(DataModel::Raw(x)) == seq![(x.len() + 1) as u8] + x,
        encode_data(DataModel::BlakeTwo256(h)) == seq![34u8] + h,
        encode_data(DataModel::Sha256(h)) == seq![35u8] + h,
        encode_data(DataModel::Keccak256(h)) == seq![36u8] + h,
        encode_data(DataModel::ShaThree256(h)) == seq![37u8] + h,
        decode_data(seq![34u8] + h + rest, zeros) == Ok::<(DataModel, nat), DecodeError>(
            (DataModel::BlakeTwo256(h), 33),
        ),
        decode_data(seq![35u8] + h + rest, zeros) == Ok::<(DataModel, nat), DecodeError>(
            (DataModel::Sha256(h), 33),
        ),
        decode_data(seq![36u8] + h + rest, zeros) == Ok::<(DataModel, nat), DecodeError>(
            (DataModel::Keccak256(h), 33),
        ),
        decode_data(seq![37u8] + h + rest, zeros) == Ok::<(DataModel, nat), DecodeError>(
            (DataModel::ShaThree256(h), 33),
        ),
{
    assert(x.take(x.len() as int) =~= x);
    law_decode_encode(DataModel::BlakeTwo256(h), rest, zeros);
    law_decode_encode(DataModel::Sha256(h), rest, zeros);
    law_decode_encode(DataModel::Keccak256(h), rest, zeros);
    law_decode_encode(DataModel::ShaThree256(h), rest, zeros);
}

proof fn lemma_skip_clamped_twice(rem: Seq<u8>, n: nat, m: nat)
    ensures
        skip_clamped(skip_clamped(rem, n), m) == skip_clamped(rem, n + m),
{
    if n + m <= rem.len() {
        assert(rem.skip(n as int).skip(m as int) =~= rem.skip((n + m) as int));
    } else if n <= rem.len() {
        assert(skip_clamped(skip_clamped(rem, n), m) =~= Seq::<u8>::empty());
    }
}

fn tagged_hash(tag: u8, h: &[u8; 32]) -> (r: Vec<u8>)
    ensures
        r@ == seq![tag] + h@,
{
    let mut r: Vec<u8> = Vec::new();
    r.push(tag);
    let mut i: usize = 0;
    while i < 32
        invariant
            i <= 32,
            h@.len() == 32,
            r@ =~= seq![tag] + h@.take(i as int),
        decreases 32 - i,
    {
        r.push(h[i]);
        i = i + 1;
        assert(h@.take(i as int) =~= h@.take((i - 1) as int).push(h@[i - 1]));
    }
    assert(h@.take(32) =~= h@);
    r
}

fn to_array32(v: &Vec<u8>) -> (h: [u8; 32])
    requires
        v@.len() == 32,
    ensures
        h@ == v@,
{
    let mut h: [u8; 32] = [0u8; 32];
    let mut i: usize = 0;
    while i < 32
        invariant
            i <= 32,
            v@.len() == 32,
            h@.len() == 32,
            forall|j: int| 0 <= j < i ==> h@[j] == v@[j],
        decreases 32 - i,
    {
        h[i] = v[i];
        i = i + 1;
    }
    assert(h@ =~= v@);
    h
}

} // verus!
