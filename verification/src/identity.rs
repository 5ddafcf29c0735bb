use vstd::prelude::*;
use crate::data::{Data, DataModel};

verus! {

/// The fields that an identity can have, each standing for one bit.
#[derive(Clone, Copy, Debug, PartialEq, Eq)]
pub enum IdentityField {
    Display,
    Legal,
    Web,
    Email,
    Image,
}

/// The bit that stands for a field: `1 << i` for the `i`-th field.
pub open spec fn field_bit(f: IdentityField) -> u64 {
    match f {
        IdentityField::Display => 1,
        IdentityField::Legal => 2,
        IdentityField::Web => 4,
        IdentityField::Email => 8,
        IdentityField::Image => 16,
    }
}

/// The bits that some set of fields can have: the low five.
pub const ALL_FIELD_BITS: u64 = 0b11111;

impl IdentityField {
    /// The `u64` representation of the field.
    pub fn bits(self) -> (r: u64)
        ensures
            r == field_bit(self),
    {
        assert(1u64 << 0u64 == 1 && 1u64 << 1u64 == 2 && 1u64 << 2u64 == 4 && 1u64 << 3u64 == 8
            && 1u64 << 4u64 == 16) by (bit_vector);
        match self {
            IdentityField::Display => 1u64 << 0u64,
            IdentityField::Legal => 1u64 << 1u64,
            IdentityField::Web => 1u64 << 2u64,
            IdentityField::Email => 1u64 << 3u64,
            IdentityField::Image => 1u64 << 4u64,
        }
    }
}

/// A set of identity fields, held as the union of their bits.
#[derive(Clone, Copy, Debug, PartialEq, Eq)]
pub struct IdentityFields {
    bits: u64,
}

impl IdentityFields {
    /// The bits of the set.
    pub closed spec fn spec_bits(&self) -> u64 {
        self.bits
    }

    /// Well-formedness: only bits of fields are set.
    pub closed spec fn wf(&self) -> bool {
        self.bits & !ALL_FIELD_BITS == 0
    }

    /// Whether the set holds `f`.
    pub open spec fn has(&self, f: IdentityField) -> bool {
        self.spec_bits() & field_bit(f) != 0
    }

    /// The empty set.
    pub fn empty() -> (r: IdentityFields)
        ensures
            r.wf(),
            r.spec_bits() == 0,
            forall|f: IdentityField| !r.has(f),
    {
        let r = IdentityFields { bits: 0 };
        assert(0u64 & !ALL_FIELD_BITS == 0) by (bit_vector);
        assert(forall|b: u64| 0u64 & b == 0) by (bit_vector);
        r
    }

    /// The set of one field.
    pub fn from_field(f: IdentityField) -> (r: IdentityFields)
        ensures
            r.wf(),
            r.spec_bits() == field_bit(f),
    {
        let b = f.bits();
        assert(b == 1 || b == 2 || b == 4 || b == 8 || b == 16);
        assert(b == 1 || b == 2 || b == 4 || b == 8 || b == 16 ==> b & !ALL_FIELD_BITS == 0)
            by (bit_vector);
        IdentityFields { bits: b }
    }

    /// The union of two sets.
    pub fn union(self, other: IdentityFields) -> (r: IdentityFields)
        requires
            self.wf(),
            other.wf(),
        ensures
            r.wf(),
            r.spec_bits() == self.spec_bits() | other.spec_bits(),
    {
        let a = self.bits;
        let b = other.bits;
        assert(a & !ALL_FIELD_BITS == 0 && b & !ALL_FIELD_BITS == 0 ==> (a | b) & !ALL_FIELD_BITS
            == 0) by (bit_vector);
        IdentityFields { bits: a | b }
    }

    /// Add a field to the set.
    pub fn insert(&mut self, f: IdentityField)
        requires
            old(self).wf(),
        ensures
            final(self).wf(),
            final(self).spec_bits() == old(self).spec_bits() | field_bit(f),
    {
        *self = self.union(IdentityFields::from_field(f));
    }

    /// Whether the set holds `f`.
    pub fn contains(&self, f: IdentityField) -> (r: bool)
        ensures
            r == self.has(f),
    {
        self.bits & f.bits() != 0
    }

    /// The bits of the set.
    pub fn bits(&self) -> (r: u64)
        ensures
            r == self.spec_bits(),
    {
        self.bits
    }
}

/// The set whose bits are `b`.
pub closed spec fn fields_of_bits(b: u64) -> IdentityFields {
    IdentityFields { bits: b }
}

impl core::ops::BitOr for IdentityField {
    type Output = IdentityFields;

    /// The set of the two fields.
    fn bitor(self, rhs: IdentityField) -> (r: IdentityFields) {
        let r = IdentityFields::from_field(self).union(IdentityFields::from_field(rhs));
        assert(r == fields_of_bits(field_bit(self) | field_bit(rhs)));
        r
    }
}

impl vstd::std_specs::ops::BitOrSpecImpl for IdentityField {
    open spec fn obeys_bitor_spec() -> bool {
        true
    }

    open spec fn bitor_req(self, rhs: IdentityField) -> bool {
        true
    }

    open spec fn bitor_spec(self, rhs: IdentityField) -> IdentityFields {
        fields_of_bits(field_bit(self) | field_bit(rhs))
    }
}

/// The union of the bits of two fields is a set that holds exactly these two.
pub proof fn law_field_union(a: IdentityField, b: IdentityField, c: IdentityField)
    ensures
        (field_bit(a) | field_bit(b)) & field_bit(c) != 0 <==> (c == a || c == b),
{
    let x = field_bit(a);
    let y = field_bit(b);
    let z = field_bit(c);
    assert(x == 1 || x == 2 || x == 4 || x == 8 || x == 16);
    assert(y == 1 || y == 2 || y == 4 || y == 8 || y == 16);
    assert(z == 1 || z == 2 || z == 4 || z == 8 || z == 16);
    assert((x == 1 || x == 2 || x == 4 || x == 8 || x == 16) && (y == 1 || y == 2 || y == 4 || y
        == 8 || y == 16) && (z == 1 || z == 2 || z == 4 || z == 8 || z == 16) ==> ((x | y) & z
        != 0 <==> (z == x || z == y))) by (bit_vector);
    assert(z == x ==> c == a);
    assert(z == y ==> c == b);
}

} // verus!

verus! {

/// The number of additional fields that an identity can hold.
pub const MAX_ADDITIONAL_FIELDS: usize = 2;

/// Information concerning the identity of the controller of an account.
#[derive(Clone, Debug, PartialEq, Eq)]
pub struct IdentityInfo {
    /// Additional fields of the identity that are not catered for with the struct's explicit
    /// fields.
    pub additional: Vec<(Data, Data)>,
    /// A reasonable display name for the controller of the account.
    pub display: Data,
    /// The full legal name in the local jurisdiction of the entity.
    pub legal: Data,
    /// A representative website held by the controller of the account.
    pub web: Data,
    /// The email address of the controller of the account.
    pub email: Data,
    /// A graphic image representing the controller of the account.
    pub image: Data,
}

/// The bit of `f` where `filled` holds, else no bit.
pub open spec fn bit_if(filled: bool, f: IdentityField) -> u64 {
    if filled {
        field_bit(f)
    } else {
        0
    }
}

impl IdentityInfo {
    /// Well-formedness: at most two additional fields, and every datum holdable.
    pub open spec fn wf(&self) -> bool {
        &&& self.additional@.len() <= MAX_ADDITIONAL_FIELDS
        &&& forall|i: int|
            0 <= i < self.additional@.len() ==> (#[trigger] self.additional@[i]).0.wf()
                && self.additional@[i].1.wf()
        &&& self.display.wf()
        &&& self.legal.wf()
        &&& self.web.wf()
        &&& self.email.wf()
        &&& self.image.wf()
    }

    /// The bits of the fields that hold data.
    pub open spec fn filled_bits(&self) -> u64 {
        bit_if(!(self.display@ is Empty), IdentityField::Display) | bit_if(
            !(self.legal@ is Empty),
            IdentityField::Legal,
        ) | bit_if(!(self.web@ is Empty), IdentityField::Web) | bit_if(
            !(self.email@ is Empty),
            IdentityField::Email,
        ) | bit_if(!(self.image@ is Empty), IdentityField::Image)
    }

    /// Whether every field in `fields` holds data.
    pub open spec fn spec_has_identity(&self, fields: u64) -> bool {
        self.filled_bits() & fields == fields
    }

    /// The set of fields that hold data.
    pub fn fields(&self) -> (r: IdentityFields)
        ensures
            r.wf(),
            r.spec_bits() == self.filled_bits(),
    {
        let mut res = IdentityFields::empty();
        let ghost d = bit_if(!(self.display@ is Empty), IdentityField::Display);
        let ghost l = bit_if(!(self.legal@ is Empty), IdentityField::Legal);
        let ghost w = bit_if(!(self.web@ is Empty), IdentityField::Web);
        let ghost e = bit_if(!(self.email@ is Empty), IdentityField::Email);
        let ghost m = bit_if(!(self.image@ is Empty), IdentityField::Image);
        proof {
            assert(forall|x: u64| 0u64 | x == x && x | 0u64 == x) by (bit_vector);
        }
        if !self.display.is_none() {
            res.insert(IdentityField::Display);
        }
        assert(res.spec_bits() == d);
        if !self.legal.is_none() {
            res.insert(IdentityField::Legal);
        }
        assert(res.spec_bits() == d | l);
        if !self.web.is_none() {
            res.insert(IdentityField::Web);
        }
        assert(res.spec_bits() == d | l | w);
        if !self.email.is_none() {
            res.insert(IdentityField::Email);
        }
        assert(res.spec_bits() == d | l | w | e);
        if !self.image.is_none() {
            res.insert(IdentityField::Image);
        }
        res
    }

    /// Whether every field in `fields` (given as bits) holds data.
    pub fn has_identity(&self, fields: u64) -> (r: bool)
        ensures
            r == self.spec_has_identity(fields),
    {
        self.fields().bits() & fields == fields
    }

    /// Add an additional field, where fewer than two are held; else hand it back.
    pub fn try_push_additional(&mut self, field: (Data, Data)) -> (r: Result<(), (Data, Data)>)
        ensures
            old(self).additional@.len() < MAX_ADDITIONAL_FIELDS ==> r is Ok
                && final(self).additional@ == old(self).additional@.push(field),
            old(self).additional@.len() >= MAX_ADDITIONAL_FIELDS ==> r == Err::<(), (Data, Data)>(
                field,
            ) && final(self).additional@ == old(self).additional@,
            final(self).display == old(self).display,
            final(self).legal == old(self).legal,
            final(self).web == old(self).web,
            final(self).email == old(self).email,
            final(self).image == old(self).image,
    {
        if self.additional.len() < MAX_ADDITIONAL_FIELDS {
            self.additional.push(field);
            Ok(())
        } else {
            Err(field)
        }
    }
}

impl Default for IdentityInfo {
    /// No additional fields, and no data in any field.
    fn default() -> (r: IdentityInfo)
        ensures
            r.additional@.len() == 0,
            r.display@ is Empty,
            r.legal@ is Empty,
            r.web@ is Empty,
            r.email@ is Empty,
            r.image@ is Empty,
            r.wf(),
    {
        IdentityInfo {
            additional: Vec::new(),
            display: Data::Empty,
            legal: Data::Empty,
            web: Data::Empty,
            email: Data::Empty,
            image: Data::Empty,
        }
    }
}

/// The datum that an identity holds in a field.
pub open spec fn field_data(info: IdentityInfo, f: IdentityField) -> DataModel {
    match f {
        IdentityField::Display => info.display@,
        IdentityField::Legal => info.legal@,
        IdentityField::Web => info.web@,
        IdentityField::Email => info.email@,
        IdentityField::Image => info.image@,
    }
}

/// An identity has a set of fields exactly when it has each of them: asking
/// for the union of two sets is asking for both.
pub proof fn law_has_identity_union(info: IdentityInfo, a: u64, b: u64)
    ensures
        info.spec_has_identity(a | b) == (info.spec_has_identity(a) && info.spec_has_identity(b)),
{
    let x = info.filled_bits();
    assert(x & (a | b) == (a | b) <==> (x & a == a && x & b == b)) by (bit_vector);
}

/// An identity has one field exactly when that field holds data, and it has
/// no bit that names no field.
pub proof fn law_has_identity_field(info: IdentityInfo, f: IdentityField, other: u64)
    requires
        other & ALL_FIELD_BITS == 0,
        other != 0,
    ensures
        info.spec_has_identity(field_bit(f)) <==> !(field_data(info, f) is Empty),
        !info.spec_has_identity(other),
{
    let d = !(info.display@ is Empty);
    let l = !(info.legal@ is Empty);
    let w = !(info.web@ is Empty);
    let e = !(info.email@ is Empty);
    let m = !(info.image@ is Empty);
    let x = info.filled_bits();
    assert(x == (if d { 1u64 } else { 0u64 }) | (if l { 2u64 } else { 0u64 }) | (if w { 4u64 } else {
        0u64
    }) | (if e { 8u64 } else { 0u64 }) | (if m { 16u64 } else { 0u64 }));
    assert(x == (if d { 1u64 } else { 0u64 }) | (if l { 2u64 } else { 0u64 }) | (if w { 4u64 } else {
        0u64
    }) | (if e { 8u64 } else { 0u64 }) | (if m { 16u64 } else { 0u64 }) ==> (x & 1 == 1 <==> d) && (
    x & 2 == 2 <==> l) && (x & 4 == 4 <==> w) && (x & 8 == 8 <==> e) && (x & 16 == 16 <==> m)
        && x & !ALL_FIELD_BITS == 0) by (bit_vector);
    assert(x & !ALL_FIELD_BITS == 0 && other & ALL_FIELD_BITS == 0 && other != 0 ==> x & other
        != other) by (bit_vector);
}

/// The longest username, suffix included.
pub const MAX_USERNAME_LENGTH: usize = 32;

/// A username: at most 32 bytes.
#[derive(Debug, PartialEq, Eq)]
pub struct Username {
    bytes: Vec<u8>,
}

impl View for Username {
    type V = Seq<u8>;

    closed spec fn view(&self) -> Seq<u8> {
        self.bytes@
    }
}

impl Username {
    #[verifier::type_invariant]
    spec fn inv(self) -> bool {
        self.bytes@.len() <= MAX_USERNAME_LENGTH
    }

    /// A username from `bytes`, where they fit within the bound.
    pub fn try_from(bytes: Vec<u8>) -> (r: Option<Username>)
        ensures
            r is Some <==> bytes@.len() <= MAX_USERNAME_LENGTH,
            r matches Some(u) ==> u@ == bytes@,
    {
        if bytes.len() <= MAX_USERNAME_LENGTH {
            Some(Username { bytes })
        } else {
            None
        }
    }

    /// The bytes of the username.
    pub fn to_vec(&self) -> (r: Vec<u8>)
        ensures
            r@ == self@,
    {
        let r = self.bytes.clone();
        assert(r@ =~= self.bytes@);
        r
    }

    /// The number of bytes of the username.
    pub fn len(&self) -> (r: usize)
        ensures
            r == self@.len(),
            r <= MAX_USERNAME_LENGTH,
    {
        proof {
            use_type_invariant(self);
        }
        self.bytes.len()
    }
}

} // verus!
