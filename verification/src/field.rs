//! The typed field schema and its materialization.
//!
//! A schema is an ordered mapping from field name to field type. When it is
//! materialized, fields are partitioned into a fixed-size prefix followed by
//! a variable-size suffix, each partition sorted by name, with the reserved
//! `previous_index` field placed at the head of the fixed-size prefix; the
//! derived metadata strings record which fields carry serialized payloads and
//! which are nullable.

use vstd::prelude::*;
use vstd::string::StringSliceAdditionalSpecFns;

use crate::data_type::{ArrowDataType, ArrowField, ArrowSchema};
use crate::error::Error;

verus! {

/// Byte length of an agent identifier.
pub const UUID_V4_LEN: usize = 16;

/// Index of the slot the reserved field occupies in the fixed-size prefix.
pub const PREVIOUS_INDEX_COLUMN_INDEX: usize = 0;

/// Engine-owned primitive field types.
#[derive(Debug, Clone, Copy, PartialEq, Eq, Structural)]
pub enum PresetFieldType {
    /// A 32-bit unsigned index.
    Index,
    /// A 16-byte identifier.
    Id,
}

/// Who declared a field.
#[derive(Debug, Clone, Copy, PartialEq, Eq, Structural)]
pub enum FieldSource {
    Engine,
    Package,
}

/// Who can see a field.
#[derive(Debug, Clone, Copy, PartialEq, Eq, Structural)]
pub enum FieldScope {
    Agent,
    Hidden,
}

/// The shape of one field's values.
#[derive(Debug, PartialEq, Eq)]
pub enum FieldTypeVariant {
    /// A 64-bit floating-point number.
    Number,
    Boolean,
    /// UTF-8 text.
    String,
    /// Opaque UTF-8 carrying an encoded value.
    Serialized,
    FixedLengthArray { kind: Box<FieldType>, len: usize },
    VariableLengthArray(Box<FieldType>),
    Struct(Vec<FieldSpec>),
    Preset(PresetFieldType),
}

#[derive(Debug, PartialEq, Eq)]
pub struct FieldType {
    pub variant: FieldTypeVariant,
    pub nullable: bool,
}

/// One declared field: its name, type, declaring source and visibility.
#[derive(Debug, PartialEq, Eq)]
pub struct FieldSpec {
    pub name: String,
    pub field_type: FieldType,
    pub source: FieldSource,
    pub scope: FieldScope,
}

/// Whether values of this type take the same record width regardless of
/// their content.
pub open spec fn ft_fixed_size(t: FieldType) -> bool
    decreases t,
{
    match t.variant {
        FieldTypeVariant::Number => true,
        FieldTypeVariant::Boolean => true,
        FieldTypeVariant::String => false,
        FieldTypeVariant::Serialized => false,
        FieldTypeVariant::FixedLengthArray { kind, len: _ } => ft_fixed_size(*kind),
        FieldTypeVariant::VariableLengthArray(_) => false,
        FieldTypeVariant::Struct(inner) => specs_fixed_size(inner@),
        FieldTypeVariant::Preset(_) => true,
    }
}

pub open spec fn specs_fixed_size(ss: Seq<FieldSpec>) -> bool
    decreases ss,
{
    if ss.len() == 0 {
        true
    } else {
        ft_fixed_size(ss[0].field_type) && specs_fixed_size(ss.skip(1))
    }
}

/// The column type a field of this type materializes to. Stated as a
/// relation so that contracts can follow the recursive structure.
pub open spec fn ft_matches_dt(t: FieldType, d: ArrowDataType) -> bool
    decreases t,
{
    match t.variant {
        FieldTypeVariant::Number => d == ArrowDataType::Float64,
        FieldTypeVariant::Boolean => d == ArrowDataType::Boolean,
        FieldTypeVariant::String => d == ArrowDataType::Utf8,
        FieldTypeVariant::Serialized => d == ArrowDataType::Utf8,
        FieldTypeVariant::FixedLengthArray { kind, len } => d matches ArrowDataType::FixedSizeList(
            inner,
            sz,
        ) && sz == len as i32 && ft_matches_dt(*kind, *inner),
        FieldTypeVariant::VariableLengthArray(elem) => d matches ArrowDataType::List(inner)
            && ft_matches_dt(*elem, *inner),
        FieldTypeVariant::Struct(specs) => d matches ArrowDataType::Struct(fs)
            && specs_match_fields(specs@, fs@),
        FieldTypeVariant::Preset(PresetFieldType::Index) => d == ArrowDataType::UInt32,
        FieldTypeVariant::Preset(PresetFieldType::Id) => d == ArrowDataType::FixedSizeBinary(
            UUID_V4_LEN as i32,
        ),
    }
}

/// How one declared field materializes to a column: same name, the matching
/// column type, and the declared nullability for engine-owned fields while
/// every user-declared column is nullable (not every agent uses it).
pub open spec fn spec_matches_field(s: FieldSpec, f: ArrowField) -> bool
    decreases s,
{
    &&& f.name@ == s.name@
    &&& f.nullable == if s.source is Engine {
        s.field_type.nullable
    } else {
        true
    }
    &&& ft_matches_dt(s.field_type, f.data_type)
}

pub open spec fn specs_match_fields(ss: Seq<FieldSpec>, fs: Seq<ArrowField>) -> bool
    decreases ss,
{
    &&& ss.len() == fs.len()
    &&& if ss.len() == 0 {
        true
    } else {
        spec_matches_field(ss[0], fs[0]) && specs_match_fields(ss.skip(1), fs.skip(1))
    }
}

impl PresetFieldType {
    /// Engine-owned primitives all have a content-independent width.
    pub fn is_fixed_size(&self) -> (r: bool)
        ensures
            r == true,
    {
        match self {
            PresetFieldType::Index => true,
            PresetFieldType::Id => true,
        }
    }

    /// The column type of an engine-owned primitive.
    pub fn get_arrow_data_type(&self) -> (r: ArrowDataType)
        ensures
            *self is Index ==> r == ArrowDataType::UInt32,
            *self is Id ==> r == ArrowDataType::FixedSizeBinary(UUID_V4_LEN as i32),
    {
        match self {
            PresetFieldType::Index => ArrowDataType::UInt32,
            PresetFieldType::Id => ArrowDataType::FixedSizeBinary(16),
        }
    }
}

impl FieldType {
    /// Whether values of this type take the same record width regardless of
    /// their content.
    #[verifier::loop_isolation(false)]
    pub fn is_fixed_size(&self) -> (r: bool)
        ensures
            r == ft_fixed_size(*self),
        decreases *self,
    {
        match &self.variant {
            FieldTypeVariant::Number | FieldTypeVariant::Boolean => true,
            FieldTypeVariant::String | FieldTypeVariant::Serialized => false,
            FieldTypeVariant::FixedLengthArray { kind: inner, len: _ } => inner.is_fixed_size(),
            FieldTypeVariant::VariableLengthArray(_) => false,
            FieldTypeVariant::Struct(inner) => {
                let mut k: usize = 0;
                let mut all_fixed = true;
                proof {
                    assert(inner@.take(0) =~= Seq::<FieldSpec>::empty());
                }
                while k < inner.len()
                    invariant
                        0 <= k <= inner@.len(),
                        all_fixed == specs_fixed_size(inner@.take(k as int)),
                    decreases inner@.len() - k,
                {
                    proof {
                        assert(self.variant->Struct_0 == *inner);
                        assert(decreases_to!(*self => self.variant));
                        assert(decreases_to!(self.variant => self.variant->Struct_0));
                        assert(decreases_to!(self.variant->Struct_0 => inner@));
                        assert(decreases_to!(inner@ => inner@[k as int]));
                        assert(decreases_to!(inner@[k as int] => inner@[k as int].field_type));
                        assert(decreases_to!(*self => inner@[k as int].field_type));
                    }
                    let fixed = inner[k].field_type.is_fixed_size();
                    all_fixed = all_fixed && fixed;
                    k = k + 1;
                    proof {
                        lemma_specs_fixed_size_snoc(inner@, k as int);
                    }
                }
                proof {
                    assert(inner@.take(inner@.len() as int) =~= inner@);
                }
                all_fixed
            },
            FieldTypeVariant::Preset(inner) => inner.is_fixed_size(),
        }
    }

    /// The column type this field type materializes to.
    #[verifier::loop_isolation(false)]
    pub fn get_arrow_data_type(&self) -> (r: Result<ArrowDataType, Error>)
        ensures
            r is Ok,
            r matches Ok(d) ==> ft_matches_dt(*self, d),
        decreases *self,
    {
        match &self.variant {
            FieldTypeVariant::Number => Ok(ArrowDataType::Float64),
            FieldTypeVariant::Boolean => Ok(ArrowDataType::Boolean),
            FieldTypeVariant::String => Ok(ArrowDataType::Utf8),
            FieldTypeVariant::Serialized => Ok(ArrowDataType::Utf8),
            FieldTypeVariant::FixedLengthArray { kind: inner, len } => {
                let d = inner.get_arrow_data_type()?;
                Ok(ArrowDataType::FixedSizeList(Box::new(d), #[verifier::truncate] (*len as i32)))
            },
            FieldTypeVariant::VariableLengthArray(inner) => {
                let d = inner.get_arrow_data_type()?;
                Ok(ArrowDataType::List(Box::new(d)))
            },
            FieldTypeVariant::Struct(inner) => {
                let mut fs: Vec<ArrowField> = Vec::new();
                let mut k: usize = 0;
                proof {
                    assert(inner@.take(0) =~= Seq::<FieldSpec>::empty());
                    assert(specs_match_fields(inner@.take(0), fs@));
                }
                while k < inner.len()
                    invariant
                        0 <= k <= inner@.len(),
                        fs@.len() == k,
                        specs_match_fields(inner@.take(k as int), fs@),
                    decreases inner@.len() - k,
                {
                    proof {
                        assert(self.variant->Struct_0 == *inner);
                        assert(decreases_to!(*self => self.variant));
                        assert(decreases_to!(self.variant => self.variant->Struct_0));
                        assert(decreases_to!(self.variant->Struct_0 => inner@));
                        assert(decreases_to!(inner@ => inner@[k as int]));
                        assert(decreases_to!(*self => inner@[k as int]));
                    }
                    let f = inner[k].get_arrow_field()?;
                    let ghost fs_before = fs@;
                    fs.push(f);
                    k = k + 1;
                    proof {
                        assert(inner@.take(k as int).drop_last() =~= inner@.take(k - 1));
                        assert(fs@.drop_last() =~= fs_before);
                        assert(inner@.take(k as int).last() == inner@[k - 1]);
                        lemma_specs_match_fields_snoc(inner@.take(k as int), fs@);
                    }
                }
                proof {
                    assert(inner@.take(inner@.len() as int) =~= inner@);
                }
                Ok(ArrowDataType::Struct(fs))
            },
            FieldTypeVariant::Preset(inner) => Ok(inner.get_arrow_data_type()),
        }
    }
}

impl FieldSpec {
    /// Whether the engine itself declared this field.
    pub fn is_built_in(&self) -> (r: bool)
        ensures
            r == (self.source is Engine),
    {
        match self.source {
            FieldSource::Engine => true,
            FieldSource::Package => false,
        }
    }

    /// Whether this field's values take a content-independent record width.
    pub fn is_fixed_size(&self) -> (r: bool)
        ensures
            r == ft_fixed_size(self.field_type),
    {
        self.field_type.is_fixed_size()
    }

    /// The materialized column of this field. A user-declared column is made
    /// nullable even when the field is not: not every agent uses it. An
    /// engine-owned column keeps its declared nullability.
    pub fn get_arrow_field(&self) -> (r: Result<ArrowField, Error>)
        ensures
            r is Ok,
            r matches Ok(f) ==> spec_matches_field(*self, f),
        decreases *self,
    {
        let base_nullability = if self.is_built_in() {
            self.field_type.nullable
        } else {
            true
        };
        let data_type = self.field_type.get_arrow_data_type()?;
        Ok(ArrowField { name: clone_string(&self.name), data_type, nullable: base_nullability })
    }
}

/// Unfolds `specs_fixed_size` by one element at the end.
proof fn lemma_specs_fixed_size_snoc(ss: Seq<FieldSpec>, i: int)
    requires
        0 < i <= ss.len(),
    ensures
        specs_fixed_size(ss.take(i)) <==> specs_fixed_size(ss.take(i - 1)) && ft_fixed_size(
            ss[i - 1].field_type,
        ),
    decreases i,
{
    let cur = ss.take(i);
    let prev = ss.take(i - 1);
    if i == 1 {
        assert(cur.skip(1).len() == 0);
        assert(specs_fixed_size(cur.skip(1)));
        assert(prev.len() == 0);
        assert(specs_fixed_size(prev));
        assert(cur[0] == ss[0]);
    } else {
        lemma_specs_fixed_size_snoc(ss.skip(1), i - 1);
        assert(cur.skip(1) =~= ss.skip(1).take(i - 1));
        assert(prev.skip(1) =~= ss.skip(1).take(i - 2));
        assert(ss.skip(1)[i - 2] == ss[i - 1]);
        assert(cur[0] == ss[0] && prev[0] == ss[0]);
    }
}

/// Folds `specs_match_fields` from matching prefixes plus one matching pair.
proof fn lemma_specs_match_fields_snoc(ss: Seq<FieldSpec>, fs: Seq<ArrowField>)
    requires
        ss.len() == fs.len(),
        ss.len() > 0,
        specs_match_fields(ss.drop_last(), fs.drop_last()),
        spec_matches_field(ss.last(), fs.last()),
    ensures
        specs_match_fields(ss, fs),
    decreases ss,
{
    if ss.len() == 1 {
        assert(ss.skip(1).len() == 0);
        assert(fs.skip(1).len() == 0);
        assert(specs_match_fields(ss.skip(1), fs.skip(1)));
        assert(ss[0] == ss.last() && fs[0] == fs.last());
    } else {
        assert(ss.drop_last()[0] == ss[0] && fs.drop_last()[0] == fs[0]);
        assert(ss.skip(1).drop_last() =~= ss.drop_last().skip(1));
        assert(fs.skip(1).drop_last() =~= fs.drop_last().skip(1));
        assert(ss.skip(1).last() == ss.last() && fs.skip(1).last() == fs.last());
        lemma_specs_match_fields_snoc(ss.skip(1), fs.skip(1));
    }
}

/// Copy a string. Relies on `String::clone`, which vstd specifies to keep
/// the character sequence.
pub fn clone_string(s: &String) -> (r: String)
    ensures
        r@ == s@,
{
    s.clone()
}

/// Strict lexicographic order on byte sequences.
pub open spec fn bytes_lt(a: Seq<u8>, b: Seq<u8>) -> bool
    decreases a.len(),
{
    if b.len() == 0 {
        false
    } else if a.len() == 0 {
        true
    } else if a[0] < b[0] {
        true
    } else if a[0] > b[0] {
        false
    } else {
        bytes_lt(a.skip(1), b.skip(1))
    }
}

/// The UTF-8 encoding of a name; names are ordered by their encoded bytes.
pub open spec fn name_bytes(cs: Seq<char>) -> Seq<u8> {
    vstd::utf8::encode_utf8(cs)
}

pub open spec fn name_lt_spec(a: Seq<char>, b: Seq<char>) -> bool {
    bytes_lt(name_bytes(a), name_bytes(b))
}

pub open spec fn name_le_spec(a: Seq<char>, b: Seq<char>) -> bool {
    !bytes_lt(name_bytes(b), name_bytes(a))
}

/// The byte order is transitive.
proof fn lemma_bytes_lt_trans(a: Seq<u8>, b: Seq<u8>, c: Seq<u8>)
    requires
        bytes_lt(a, b),
        bytes_lt(b, c),
    ensures
        bytes_lt(a, c),
    decreases a.len(),
{
    if a.len() == 0 {
    } else if a[0] < b[0] {
        if b[0] < c[0] {
        } else {
            assert(b[0] == c[0]);
        }
    } else {
        assert(a[0] == b[0]);
        if b[0] < c[0] {
        } else {
            assert(b[0] == c[0]);
            lemma_bytes_lt_trans(a.skip(1), b.skip(1), c.skip(1));
        }
    }
}

/// The byte order is asymmetric.
proof fn lemma_bytes_lt_asym(a: Seq<u8>, b: Seq<u8>)
    requires
        bytes_lt(a, b),
    ensures
        !bytes_lt(b, a),
    decreases a.len(),
{
    if a.len() == 0 || b.len() == 0 {
    } else if a[0] == b[0] {
        lemma_bytes_lt_asym(a.skip(1), b.skip(1));
    }
}

/// A strictly smaller name is also no greater.
pub proof fn lemma_name_lt_implies_le(a: Seq<char>, b: Seq<char>)
    requires
        name_lt_spec(a, b),
    ensures
        name_le_spec(a, b),
{
    lemma_bytes_lt_asym(name_bytes(a), name_bytes(b));
}

/// The byte order is connex: two sequences that are not strictly ordered
/// either way are equal.
proof fn lemma_bytes_lt_connex(a: Seq<u8>, b: Seq<u8>)
    requires
        !bytes_lt(a, b),
        !bytes_lt(b, a),
    ensures
        a =~= b,
    decreases a.len(),
{
    if a.len() == 0 || b.len() == 0 {
    } else {
        assert(a[0] == b[0]);
        lemma_bytes_lt_connex(a.skip(1), b.skip(1));
        assert(a =~= seq![a[0]] + a.skip(1));
        assert(b =~= seq![b[0]] + b.skip(1));
    }
}

/// `name_le_spec` is transitive.
pub proof fn lemma_name_le_trans(a: Seq<char>, b: Seq<char>, c: Seq<char>)
    requires
        name_le_spec(a, b),
        name_le_spec(b, c),
    ensures
        name_le_spec(a, c),
{
    if bytes_lt(name_bytes(c), name_bytes(a)) {
        if bytes_lt(name_bytes(a), name_bytes(b)) {
            lemma_bytes_lt_trans(name_bytes(c), name_bytes(a), name_bytes(b));
        } else {
            lemma_bytes_lt_connex(name_bytes(a), name_bytes(b));
        }
    }
}

/// Strict byte order on string slices.
fn bytes_slice_lt(a: &[u8], b: &[u8]) -> (r: bool)
    ensures
        r == bytes_lt(a@, b@),
{
    let mut i: usize = 0;
    proof {
        assert(a@.skip(0) =~= a@);
        assert(b@.skip(0) =~= b@);
    }
    while i < a.len() && i < b.len()
        invariant
            0 <= i <= a@.len(),
            0 <= i <= b@.len(),
            bytes_lt(a@, b@) == bytes_lt(a@.skip(i as int), b@.skip(i as int)),
        decreases a@.len() - i,
    {
        if a[i] < b[i] {
            proof {
                assert(a@.skip(i as int)[0] == a@[i as int]);
                assert(b@.skip(i as int)[0] == b@[i as int]);
            }
            return true;
        }
        if a[i] > b[i] {
            proof {
                assert(a@.skip(i as int)[0] == a@[i as int]);
                assert(b@.skip(i as int)[0] == b@[i as int]);
            }
            return false;
        }
        i = i + 1;
        proof {
            let sa = a@.skip(i - 1);
            let sb = b@.skip(i - 1);
            assert(sa[0] == a@[i - 1] && sb[0] == b@[i - 1]);
            assert(sa.skip(1) =~= a@.skip(i as int));
            assert(sb.skip(1) =~= b@.skip(i as int));
        }
    }
    let r = i >= a.len() && i < b.len();
    proof {
        assert(a@.skip(i as int).len() == a@.len() - i);
        assert(b@.skip(i as int).len() == b@.len() - i);
    }
    r
}

/// Strict name order on string slices, by UTF-8 bytes.
fn name_lt(a: &str, b: &str) -> (r: bool)
    ensures
        r == name_lt_spec(a@, b@),
{
    bytes_slice_lt(a.as_bytes(), b.as_bytes())
}

/// Name equality on string slices.
pub fn name_eq(a: &str, b: &str) -> (r: bool)
    ensures
        r == (a@ == b@),
{
    let ab = a.as_bytes();
    let bb = b.as_bytes();
    if ab.len() != bb.len() {
        proof {
            vstd::utf8::encode_utf8_decode_utf8(a@);
            vstd::utf8::encode_utf8_decode_utf8(b@);
        }
        return false;
    }
    let mut i: usize = 0;
    while i < ab.len()
        invariant
            0 <= i <= ab@.len(),
            ab@.len() == bb@.len(),
            ab@ == a.spec_bytes(),
            bb@ == b.spec_bytes(),
            forall|j: int| 0 <= j < i ==> ab@[j] == bb@[j],
        decreases ab@.len() - i,
    {
        if ab[i] != bb[i] {
            proof {
                vstd::utf8::encode_utf8_decode_utf8(a@);
                vstd::utf8::encode_utf8_decode_utf8(b@);
                assert(a@ != b@) by {
                    if a@ == b@ {
                        assert(a.spec_bytes() == b.spec_bytes());
                    }
                }
            }
            return false;
        }
        i = i + 1;
    }
    proof {
        assert(a.spec_bytes() =~= b.spec_bytes());
        vstd::utf8::encode_utf8_decode_utf8(a@);
        vstd::utf8::encode_utf8_decode_utf8(b@);
    }
    true
}

/// The positions `idxs` ordered so that the names they point at ascend.
pub open spec fn indices_sorted_by_name(ss: Seq<FieldSpec>, idxs: Seq<usize>, lo: int, hi: int) -> bool {
    forall|i: int, j: int|
        lo <= i < j < hi ==> name_le_spec(
            #[trigger] ss[idxs[i] as int].name@,
            #[trigger] ss[idxs[j] as int].name@,
        )
}

pub open spec fn indices_valid(ss: Seq<FieldSpec>, idxs: Seq<usize>) -> bool {
    forall|i: int| 0 <= i < idxs.len() ==> (#[trigger] idxs[i] as int) < ss.len()
}

/// Sort positions into the field list by the name at each position,
/// ascending. Keeps exactly the same positions.
fn sort_indices_by_name(specs: &Vec<FieldSpec>, idxs: &mut Vec<usize>)
    requires
        indices_valid(specs@, old(idxs)@),
    ensures
        final(idxs)@.len() == old(idxs)@.len(),
        final(idxs)@.to_multiset() == old(idxs)@.to_multiset(),
        indices_valid(specs@, final(idxs)@),
        indices_sorted_by_name(specs@, final(idxs)@, 0, final(idxs)@.len() as int),
{
    let n = idxs.len();
    if n < 2 {
        return ;
    }
    let mut s: usize = 1;
    while s < n
        invariant
            1 <= s || n == 0,
            s <= n,
            n == idxs@.len(),
            idxs@.to_multiset() == old(idxs)@.to_multiset(),
            indices_valid(specs@, idxs@),
            indices_sorted_by_name(specs@, idxs@, 0, s as int),
        decreases n - s,
    {
        let mut j: usize = s;
        let mut moving = true;
        while j > 0 && moving
            invariant
                0 <= j <= s < n,
                n == idxs@.len(),
                idxs@.to_multiset() == old(idxs)@.to_multiset(),
                indices_valid(specs@, idxs@),
                forall|a: int, b: int|
                    #![trigger idxs@[a], idxs@[b]]
                    0 <= a < b <= s && a != j && b != j ==> name_le_spec(
                        specs@[idxs@[a] as int].name@,
                        specs@[idxs@[b] as int].name@,
                    ),
                forall|b: int|
                    #![trigger idxs@[b]]
                    j < b <= s ==> name_le_spec(
                        specs@[idxs@[j as int] as int].name@,
                        specs@[idxs@[b] as int].name@,
                    ),
                !moving && j > 0 ==> name_le_spec(
                    specs@[idxs@[j - 1] as int].name@,
                    specs@[idxs@[j as int] as int].name@,
                ),
            decreases j + if moving {
                1int
            } else {
                0int
            },
        {
            let a = idxs[j];
            let b = idxs[j - 1];
            if name_lt(specs[a].name.as_str(), specs[b].name.as_str()) {
                let ghost idxs_before = idxs@;
                idxs.set(j, b);
                idxs.set(j - 1, a);
                j = j - 1;
                proof {
                    broadcast use vstd::seq_lib::to_multiset_update;
                    broadcast use vstd::seq_lib::group_to_multiset_ensures;

                    let s2 = idxs_before.update(j + 1, b);
                    assert(idxs@ =~= s2.update(j as int, a));
                    assert(idxs_before.contains(b)) by {
                        assert(idxs_before[j as int] == b);
                    }
                    assert(idxs@.to_multiset() =~= idxs_before.to_multiset());
                    lemma_name_lt_implies_le(specs@[a as int].name@, specs@[b as int].name@);
                    assert forall|x: int, y: int|
                        #![trigger idxs@[x], idxs@[y]]
                        0 <= x < y <= s && x != j && y != j implies name_le_spec(
                        specs@[idxs@[x] as int].name@,
                        specs@[idxs@[y] as int].name@,
                    ) by {
                        if y == j + 1 && x < j {
                            assert(name_le_spec(
                                specs@[idxs_before[x] as int].name@,
                                specs@[idxs_before[j as int] as int].name@,
                            ));
                        }
                    }
                    assert forall|y: int| #![trigger idxs@[y]] j < y <= s implies name_le_spec(
                        specs@[idxs@[j as int] as int].name@,
                        specs@[idxs@[y] as int].name@,
                    ) by {
                        if y > j + 1 {
                            assert(name_le_spec(
                                specs@[idxs_before[j + 1] as int].name@,
                                specs@[idxs_before[y] as int].name@,
                            ));
                        }
                    }
                }
            } else {
                moving = false;
            }
        }
        s = s + 1;
        proof {
            assert forall|a: int, b: int|
                0 <= a < b < s implies name_le_spec(
                #[trigger] specs@[idxs@[a] as int].name@,
                #[trigger] specs@[idxs@[b] as int].name@,
            ) by {
                if a == j {
                } else if b == j && a < j {
                    assert(j > 0);
                    if a < j - 1 {
                        lemma_name_le_trans(
                            specs@[idxs@[a] as int].name@,
                            specs@[idxs@[j - 1] as int].name@,
                            specs@[idxs@[j as int] as int].name@,
                        );
                    }
                }
            }
        }
    }
}

/// The names of all fields are pairwise distinct.
pub open spec fn map_wf(ss: Seq<FieldSpec>) -> bool {
    forall|i: int, j: int| 0 <= i < j < ss.len() ==> ss[i].name@ != ss[j].name@
}

pub open spec fn contains_name_spec(ss: Seq<FieldSpec>, n: Seq<char>) -> bool {
    exists|i: int| 0 <= i < ss.len() && ss[i].name@ == n
}

/// Whether some field is the reserved one and sits in the fixed-size world.
pub open spec fn has_fixed_previous_index(ss: Seq<FieldSpec>) -> bool {
    exists|i: int|
        0 <= i < ss.len() && ss[i].name@ == "previous_index"@ && ft_fixed_size(ss[i].field_type)
}

/// An ordered mapping from field name to field specification; the order of
/// declaration is kept until the schema is materialized.
#[derive(Debug, PartialEq, Eq)]
pub struct FieldSpecMap {
    pub field_specs: Vec<FieldSpec>,
}

impl FieldSpecMap {
    pub open spec fn wf(&self) -> bool {
        map_wf(self.field_specs@)
    }

    /// A map without any fields.
    pub fn empty() -> (r: FieldSpecMap)
        ensures
            r.field_specs@ == Seq::<FieldSpec>::empty(),
            r.wf(),
    {
        let r = FieldSpecMap { field_specs: Vec::new() };
        proof {
            assert(r.field_specs@ =~= Seq::<FieldSpec>::empty());
        }
        r
    }

    /// The map every schema starts from: it already holds the reserved
    /// `previous_index` field, a nullable fixed-length pair of indices owned
    /// by the engine.
    pub fn default() -> (r: Result<FieldSpecMap, Error>)
        ensures
            r is Ok,
            r matches Ok(m) ==> {
                &&& m.wf()
                &&& m.field_specs@.len() == 1
                &&& m.field_specs@[0].name@ == "previous_index"@
                &&& ft_fixed_size(m.field_specs@[0].field_type)
                &&& m.field_specs@[0].field_type.nullable
                &&& m.field_specs@[0].source is Engine
                &&& has_fixed_previous_index(m.field_specs@)
            },
    {
        let index_type = FieldType {
            variant: FieldTypeVariant::Preset(PresetFieldType::Index),
            nullable: false,
        };
        let spec = FieldSpec {
            name: "previous_index".to_owned(),
            field_type: FieldType {
                variant: FieldTypeVariant::FixedLengthArray { kind: Box::new(index_type), len: 2 },
                nullable: true,
            },
            source: FieldSource::Engine,
            scope: FieldScope::Hidden,
        };
        let mut field_specs: Vec<FieldSpec> = Vec::new();
        field_specs.push(spec);
        let m = FieldSpecMap { field_specs };
        proof {
            assert(m.field_specs@[0].name@ == "previous_index"@);
            assert(ft_fixed_size(m.field_specs@[0].field_type)) by {
                reveal_with_fuel(ft_fixed_size, 3);
            }
        }
        Ok(m)
    }

    pub fn len(&self) -> (r: usize)
        ensures
            r == self.field_specs@.len(),
    {
        self.field_specs.len()
    }

    /// Whether a field of this name is declared.
    pub fn contains_name(&self, name: &str) -> (r: bool)
        ensures
            r == contains_name_spec(self.field_specs@, name@),
    {
        let mut i: usize = 0;
        while i < self.field_specs.len()
            invariant
                0 <= i <= self.field_specs@.len(),
                forall|k: int| 0 <= k < i ==> self.field_specs@[k].name@ != name@,
            decreases self.field_specs@.len() - i,
        {
            if name_eq(self.field_specs[i].name.as_str(), name) {
                return true;
            }
            i = i + 1;
        }
        false
    }

    /// Declare one more field. A second field under an already-declared name
    /// is refused, and the map is left as it was.
    pub fn add(&mut self, field_spec: FieldSpec) -> (r: Result<(), Error>)
        ensures
            r is Ok <==> !contains_name_spec(old(self).field_specs@, field_spec.name@),
            r is Ok ==> final(self).field_specs@ == old(self).field_specs@.push(field_spec),
            r is Err ==> *final(self) == *old(self),
            r matches Err(e) ==> e is FieldAlreadyExists,
            old(self).wf() ==> final(self).wf(),
    {
        if self.contains_name(field_spec.name.as_str()) {
            return Err(Error::FieldAlreadyExists(clone_string(&field_spec.name)));
        }
        let ghost before = self.field_specs@;
        let ghost added = field_spec.name@;
        self.field_specs.push(field_spec);
        proof {
            if map_wf(before) {
                assert forall|i: int, j: int|
                    0 <= i < j < self.field_specs@.len() implies self.field_specs@[i].name@
                    != self.field_specs@[j].name@ by {
                    if j == self.field_specs@.len() - 1 {
                        assert(!contains_name_spec(before, added));
                        assert(before[i].name@ != added);
                    }
                }
            }
        }
        Ok(())
    }

    /// Take every field of another map over into this one. Fails, leaving
    /// this map unchanged, when any name of the other map is already
    /// declared here.
    pub fn union(&mut self, other: FieldSpecMap) -> (r: Result<(), Error>)
        requires
            other.wf(),
        ensures
            r is Ok <==> forall|k: int|
                0 <= k < other.field_specs@.len() ==> !contains_name_spec(
                    old(self).field_specs@,
                    #[trigger] other.field_specs@[k].name@,
                ),
            r is Ok ==> final(self).field_specs@ == old(self).field_specs@ + other.field_specs@,
            r is Err ==> *final(self) == *old(self),
            r matches Err(e) ==> e is FieldAlreadyExists,
            old(self).wf() ==> final(self).wf(),
    {
        let mut i: usize = 0;
        while i < other.field_specs.len()
            invariant
                0 <= i <= other.field_specs@.len(),
                forall|k: int|
                    0 <= k < i ==> !contains_name_spec(
                        self.field_specs@,
                        #[trigger] other.field_specs@[k].name@,
                    ),
            decreases other.field_specs@.len() - i,
        {
            if self.contains_name(other.field_specs[i].name.as_str()) {
                return Err(Error::FieldAlreadyExists(clone_string(&other.field_specs[i].name)));
            }
            i = i + 1;
        }
        let ghost before = self.field_specs@;
        let ghost others = other.field_specs@;
        let mut rest = other.field_specs;
        let ghost mut taken: int = 0;
        while rest.len() > 0
            invariant
                0 <= taken,
                taken + rest@.len() == others.len(),
                rest@ =~= others.skip(taken),
                self.field_specs@ =~= before + others.take(taken),
            decreases rest@.len(),
        {
            let spec = rest.remove(0);
            self.field_specs.push(spec);
            proof {
                taken = taken + 1;
                assert(others.skip(taken - 1)[0] == others[taken - 1]);
                assert(rest@ =~= others.skip(taken));
                assert(self.field_specs@ =~= before + others.take(taken));
            }
        }
        proof {
            assert(others.take(others.len() as int) =~= others);
            assert(self.field_specs@ =~= before + others);
            if map_wf(before) {
                assert forall|i: int, j: int|
                    0 <= i < j < self.field_specs@.len() implies self.field_specs@[i].name@
                    != self.field_specs@[j].name@ by {
                    let n = before.len();
                    if j >= n {
                        if i >= n {
                            assert(others[i - n].name@ != others[j - n].name@);
                        } else {
                            assert(!contains_name_spec(before, others[j - n].name@));
                        }
                    }
                }
            }
        }
        Ok(())
    }
}

/// A field's record width is content-independent exactly when the buffer
/// tree of its materialized column holds no offset buffer and no
/// variable-length byte column anywhere in it. `d` is the column type the
/// field materializes to, `mult` any enclosing fixed-size-list factor.
pub proof fn lemma_fixed_size_iff_no_offset(t: FieldType, d: ArrowDataType, mult: usize)
    requires
        ft_matches_dt(t, d),
    ensures
        ft_fixed_size(t) <==> (!crate::meta::models_have_offset(
            crate::meta::dt_node_models(d, mult),
        ) && !crate::meta::dt_contains_utf8_or_binary(d)),
    decreases t,
{
    let ms = crate::meta::dt_node_models(d, mult);
    match t.variant {
        FieldTypeVariant::Number => {
            crate::meta::lemma_fixed_width_no_offset(mult, 8);
        },
        FieldTypeVariant::Boolean => {
            assert forall|i: int, j: int|
                0 <= i < ms.len() && 0 <= j < ms[i].1.len() implies !(ms[i].1[j] is Offset) by {
                assert(i == 0);
            }
        },
        FieldTypeVariant::String => {
            assert(ms[0].1[1] is Offset);
            assert(crate::meta::models_have_offset(ms));
        },
        FieldTypeVariant::Serialized => {
            assert(ms[0].1[1] is Offset);
            assert(crate::meta::models_have_offset(ms));
        },
        FieldTypeVariant::FixedLengthArray { kind, len } => {
            let inner = d->FixedSizeList_0;
            let sz = d->FixedSizeList_1;
            assert(decreases_to!(t => t.variant));
            assert(decreases_to!(t.variant => *kind));
            lemma_fixed_size_iff_no_offset(*kind, *inner, #[verifier::truncate] (sz as usize));
            let head = seq![(mult, seq![crate::meta::BufferType::BitMap { is_null_bitmap: true }])];
            let rest = crate::meta::dt_node_models(*inner, #[verifier::truncate] (sz as usize));
            assert(ms == head + rest);
            crate::meta::lemma_models_offset_concat(head, rest);
            assert forall|i: int, j: int|
                0 <= i < head.len() && 0 <= j < head[i].1.len() implies !(head[i].1[j] is
            Offset) by {
                assert(i == 0 && j == 0);
            }
        },
        FieldTypeVariant::VariableLengthArray(_) => {
            assert(ms[0].1[1] is Offset);
            assert(crate::meta::models_have_offset(ms));
        },
        FieldTypeVariant::Struct(specs) => {
            let fs = d->Struct_0;
            assert(decreases_to!(t => t.variant));
            assert(decreases_to!(t.variant => t.variant->Struct_0));
            assert(decreases_to!(t.variant->Struct_0 => specs@));
            lemma_specs_fixed_iff_no_offset(specs@, fs@);
            let head = seq![(mult, seq![crate::meta::BufferType::BitMap { is_null_bitmap: true }])];
            let rest = crate::meta::fields_node_models(fs@);
            assert(ms == head + rest);
            crate::meta::lemma_models_offset_concat(head, rest);
            assert forall|i: int, j: int|
                0 <= i < head.len() && 0 <= j < head[i].1.len() implies !(head[i].1[j] is
            Offset) by {
                assert(i == 0 && j == 0);
            }
        },
        FieldTypeVariant::Preset(PresetFieldType::Index) => {
            crate::meta::lemma_fixed_width_no_offset(mult, 4);
        },
        FieldTypeVariant::Preset(PresetFieldType::Id) => {
            crate::meta::lemma_fixed_width_no_offset(mult, UUID_V4_LEN);
        },
    }
}

/// The struct-field form of `lemma_fixed_size_iff_no_offset`, over the
/// children of a struct column.
proof fn lemma_specs_fixed_iff_no_offset(ss: Seq<FieldSpec>, fs: Seq<ArrowField>)
    requires
        specs_match_fields(ss, fs),
    ensures
        specs_fixed_size(ss) <==> (!crate::meta::models_have_offset(
            crate::meta::fields_node_models(fs),
        ) && !crate::meta::fields_contain_utf8_or_binary(fs)),
    decreases ss,
{
    if ss.len() == 0 {
        assert(crate::meta::fields_node_models(fs) =~= Seq::empty());
        assert(!crate::meta::models_have_offset(Seq::empty()));
    } else {
        assert(decreases_to!(ss => ss[0]));
        assert(decreases_to!(ss[0] => ss[0].field_type));
        assert(spec_matches_field(ss[0], fs[0]));
        assert(ft_matches_dt(ss[0].field_type, fs[0].data_type));
        lemma_fixed_size_iff_no_offset(ss[0].field_type, fs[0].data_type, 1);
        lemma_specs_fixed_iff_no_offset(ss.skip(1), fs.skip(1));
        crate::meta::lemma_models_offset_concat(
            crate::meta::dt_node_models(fs[0].data_type, 1),
            crate::meta::fields_node_models(fs.skip(1)),
        );
        assert(crate::meta::fields_node_models(fs) == crate::meta::dt_node_models(
            fs[0].data_type,
            1,
        ) + crate::meta::fields_node_models(fs.skip(1)));
    }
}

/// The names of the `Serialized`-typed fields, in declaration order.
pub open spec fn serialized_names(ss: Seq<FieldSpec>) -> Seq<Seq<char>>
    decreases ss,
{
    if ss.len() == 0 {
        Seq::empty()
    } else {
        let rest = serialized_names(ss.drop_last());
        if ss.last().field_type.variant is Serialized {
            rest.push(ss.last().name@)
        } else {
            rest
        }
    }
}

/// The per-field nullability bits, one `"0"` or `"1"` per position, in the
/// order the positions list them.
pub open spec fn nullable_bits(ss: Seq<FieldSpec>, idxs: Seq<usize>) -> Seq<Seq<char>>
    decreases idxs,
{
    if idxs.len() == 0 {
        Seq::empty()
    } else {
        nullable_bits(ss, idxs.drop_last()).push(
            if ss[idxs.last() as int].field_type.nullable {
                "1"@
            } else {
                "0"@
            },
        )
    }
}

/// The parts joined with a comma between each adjacent pair.
pub open spec fn join_comma_views(parts: Seq<Seq<char>>) -> Seq<char>
    decreases parts,
{
    if parts.len() == 0 {
        Seq::empty()
    } else if parts.len() == 1 {
        parts[0]
    } else {
        join_comma_views(parts.drop_last()) + seq![','] + parts.last()
    }
}

/// Relies on `[String]::join`: the result is the parts concatenated with the
/// separator between each adjacent pair.
#[verifier::external_body]
fn join_comma(parts: &Vec<String>) -> (r: String)
    ensures
        r@ == join_comma_views(parts.deep_view()),
{
    parts.join(",")
}

/// What materializing the field list `ss` must produce, witnessed by the
/// permutation `idxs` of positions into `ss` and the size `n` of its
/// fixed-size prefix: the columns come in the order `idxs`, which puts the
/// reserved field first, then the rest of the fixed-size fields sorted by
/// name, then the variable-size fields sorted by name; every column
/// materializes its field, and the metadata strings hold the serialized
/// names in declaration order and the nullability bits in column order.
#[verifier::opaque]
pub open spec fn schema_materialization_ok(
    ss: Seq<FieldSpec>,
    idxs: Seq<usize>,
    n: int,
    s: ArrowSchema,
) -> bool {
    &&& idxs.len() == ss.len()
    &&& indices_valid(ss, idxs)
    &&& idxs.no_duplicates()
    &&& 0 < n <= idxs.len()
    &&& ss[idxs[PREVIOUS_INDEX_COLUMN_INDEX as int] as int].name@ == "previous_index"@
    &&& forall|i: int| 0 <= i < n ==> ft_fixed_size(#[trigger] ss[idxs[i] as int].field_type)
    &&& forall|i: int|
        n <= i < idxs.len() ==> !ft_fixed_size(#[trigger] ss[idxs[i] as int].field_type)
    &&& indices_sorted_by_name(ss, idxs, 1, n)
    &&& indices_sorted_by_name(ss, idxs, n, idxs.len() as int)
    &&& s.fields@.len() == idxs.len()
    &&& forall|i: int|
        0 <= i < idxs.len() ==> spec_matches_field(
            ss[idxs[i] as int],
            #[trigger] s.fields@[i],
        )
    &&& s.meta_nullable@ == join_comma_views(nullable_bits(ss, idxs))
    &&& s.meta_serialized@ == join_comma_views(serialized_names(ss))
}

/// Whether a materialized column type takes the same record width
/// regardless of its values.
pub open spec fn dt_is_fixed_size(d: ArrowDataType) -> Option<bool>
    decreases d,
{
    match d {
        ArrowDataType::Float64 => Some(true),
        ArrowDataType::FixedSizeBinary(_) => Some(true),
        ArrowDataType::Utf8 => Some(false),
        ArrowDataType::FixedSizeList(inner, _) => dt_is_fixed_size(*inner),
        ArrowDataType::List(_) => Some(false),
        _ => None,
    }
}

/// Whether a column's record width is independent of its values. Decided
/// only for the column types the engine writes agent data into.
pub trait IsFixedSize {
    fn is_fixed_size(&self) -> Result<bool, Error>;
}

impl IsFixedSize for ArrowDataType {
    fn is_fixed_size(&self) -> (r: Result<bool, Error>)
        ensures
            r is Ok <==> dt_is_fixed_size(*self) is Some,
            r matches Ok(b) ==> dt_is_fixed_size(*self) == Some(b),
            r matches Err(e) ==> e is NotImplemented,
        decreases *self,
    {
        match self {
            ArrowDataType::Float64 => Ok(true),
            ArrowDataType::FixedSizeBinary(_) => Ok(true),
            ArrowDataType::Utf8 => Ok(false),
            ArrowDataType::FixedSizeList(val, _) => val.is_fixed_size(),
            ArrowDataType::List(_) => Ok(false),
            _ => Err(Error::NotImplemented),
        }
    }
}

/// A schema is a correct materialization of the field list: some column
/// order and fixed-prefix size witness `schema_materialization_ok`.
pub open spec fn materializes(ss: Seq<FieldSpec>, s: ArrowSchema) -> bool {
    exists|idxs: Seq<usize>, n: int| schema_materialization_ok(ss, idxs, n, s)
}

impl FieldSpecMap {
    /// Materialize the declared fields into a schema: the fixed-size fields
    /// first with the reserved `previous_index` field at its slot and the
    /// rest sorted by name, then the variable-size fields sorted by name,
    /// with the metadata strings listing the serialized field names and the
    /// per-column nullability bits. Fails exactly when no fixed-size field
    /// named `previous_index` was declared.
    pub fn get_arrow_schema(&self) -> (r: Result<ArrowSchema, Error>)
        ensures
            r is Ok <==> has_fixed_previous_index(self.field_specs@),
            r matches Ok(s) ==> materializes(self.field_specs@, s),
    {
        match Self::build_schema(&self.field_specs) {
            Ok((schema, witness)) => {
                proof {
                    let (widxs, wn) = witness@;
                    assert(schema_materialization_ok(self.field_specs@, widxs, wn, schema));
                    assert(materializes(self.field_specs@, schema));
                }
                Ok(schema)
            },
            Err(e) => Err(e),
        }
    }

    /// The working part of schema materialization; also hands back, as ghost
    /// data, the column order it chose and the size of the fixed-size
    /// prefix.
    #[verifier::loop_isolation(false)]
    #[verifier::rlimit(100)]
    #[verifier::spinoff_prover]
    fn build_schema(field_specs: &Vec<FieldSpec>) -> (r: Result<
        (ArrowSchema, Ghost<(Seq<usize>, int)>),
        Error,
    >)
        ensures
            r is Ok <==> has_fixed_previous_index(field_specs@),
            r matches Ok(t) ==> schema_materialization_ok(field_specs@, t.1@.0, t.1@.1, t.0),
    {
        let specs = field_specs;
        let ghost ss = specs@;
        // The serialized field names, in declaration order.
        let mut any_types: Vec<String> = Vec::new();
        let mut i: usize = 0;
        proof {
            assert(ss.take(0) =~= Seq::<FieldSpec>::empty());
            assert(any_types.deep_view() =~= serialized_names(ss.take(0)));
        }
        while i < specs.len()
            invariant
                0 <= i <= ss.len(),
                any_types.deep_view() =~= serialized_names(ss.take(i as int)),
            decreases ss.len() - i,
        {
            let ghost before = any_types.deep_view();
            let is_serialized = match &specs[i].field_type.variant {
                FieldTypeVariant::Serialized => true,
                _ => false,
            };
            if is_serialized {
                any_types.push(clone_string(&specs[i].name));
            }
            i = i + 1;
            proof {
                assert(ss.take(i as int).drop_last() =~= ss.take(i - 1));
                assert(ss.take(i as int).last() == ss[i - 1]);
                if is_serialized {
                    assert(any_types.deep_view() =~= before.push(ss[i - 1].name@));
                }
                assert(any_types.deep_view() =~= serialized_names(ss.take(i as int)));
            }
        }
        proof {
            assert(ss.take(ss.len() as int) =~= ss);
        }
        // Partition the positions into fixed-size and variable-size.
        let mut fixed_idxs: Vec<usize> = Vec::new();
        let mut var_idxs: Vec<usize> = Vec::new();
        let mut k: usize = 0;
        while k < specs.len()
            invariant
                0 <= k <= ss.len(),
                indices_valid(ss, fixed_idxs@),
                indices_valid(ss, var_idxs@),
                forall|a: int, b: int|
                    0 <= a < b < fixed_idxs@.len() ==> #[trigger] fixed_idxs@[a]
                        < #[trigger] fixed_idxs@[b],
                forall|a: int, b: int|
                    0 <= a < b < var_idxs@.len() ==> #[trigger] var_idxs@[a]
                        < #[trigger] var_idxs@[b],
                forall|a: int|
                    0 <= a < fixed_idxs@.len() ==> (#[trigger] fixed_idxs@[a] as int) < k
                        && ft_fixed_size(ss[fixed_idxs@[a] as int].field_type),
                forall|a: int|
                    0 <= a < var_idxs@.len() ==> (#[trigger] var_idxs@[a] as int) < k
                        && !ft_fixed_size(ss[var_idxs@[a] as int].field_type),
                forall|p: int|
                    0 <= p < k && ft_fixed_size(#[trigger] ss[p].field_type)
                        ==> fixed_idxs@.contains(p as usize),
                fixed_idxs@.len() + var_idxs@.len() == k,
            decreases ss.len() - k,
        {
            let ghost fixed_prev = fixed_idxs@;
            if specs[k].is_fixed_size() {
                fixed_idxs.push(k);
            } else {
                var_idxs.push(k);
            }
            k = k + 1;
            proof {
                assert forall|p: int|
                    0 <= p < k && ft_fixed_size(#[trigger] ss[p].field_type)
                        implies fixed_idxs@.contains(p as usize) by {
                    if p == k - 1 {
                        assert(fixed_idxs@.last() == p as usize);
                    } else {
                        assert(fixed_prev.contains(p as usize));
                        let w = choose|t: int| 0 <= t < fixed_prev.len() && fixed_prev[t] == p as usize;
                        assert(fixed_idxs@[w] == p as usize);
                    }
                }
            }
        }
        let ghost fixed_before_sort = fixed_idxs@;
        let ghost var_before_sort = var_idxs@;
        // Sort both partitions by field name.
        sort_indices_by_name(specs, &mut fixed_idxs);
        sort_indices_by_name(specs, &mut var_idxs);
        proof {
            broadcast use vstd::seq_lib::group_to_multiset_ensures;

            assert forall|a: int|
                0 <= a < fixed_idxs@.len() implies ft_fixed_size(
                ss[#[trigger] fixed_idxs@[a] as int].field_type,
            ) by {
                let v = fixed_idxs@[a];
                assert(fixed_idxs@.contains(v));
                assert(fixed_idxs@.to_multiset().count(v) > 0);
                assert(fixed_before_sort.to_multiset().count(v) > 0);
                assert(fixed_before_sort.contains(v));
                let w = choose|q: int|
                    0 <= q < fixed_before_sort.len() && fixed_before_sort[q] == v;
                assert(ft_fixed_size(ss[fixed_before_sort[w] as int].field_type));
            }
            assert forall|a: int|
                0 <= a < var_idxs@.len() implies !ft_fixed_size(
                ss[#[trigger] var_idxs@[a] as int].field_type,
            ) by {
                let v = var_idxs@[a];
                assert(var_idxs@.contains(v));
                assert(var_idxs@.to_multiset().count(v) > 0);
                assert(var_before_sort.to_multiset().count(v) > 0);
                assert(var_before_sort.contains(v));
                let w = choose|q: int|
                    0 <= q < var_before_sort.len() && var_before_sort[q] == v;
                assert(!ft_fixed_size(ss[var_before_sort[w] as int].field_type));
            }
            assert forall|p: int|
                0 <= p < ss.len() && ft_fixed_size(#[trigger] ss[p].field_type)
                    implies fixed_idxs@.contains(p as usize) by {
                assert(fixed_before_sort.contains(p as usize));
                assert(fixed_before_sort.to_multiset().count(p as usize) > 0);
                assert(fixed_idxs@.to_multiset().count(p as usize) > 0);
            }
        }
        // Move the reserved field to the head of the fixed-size prefix.
        let mut found: usize = fixed_idxs.len();
        let mut p: usize = 0;
        while p < fixed_idxs.len()
            invariant
                0 <= p <= fixed_idxs@.len(),
                found == fixed_idxs@.len() || (found < p && ss[fixed_idxs@[found as int] as int].name@
                    == "previous_index"@),
                found == fixed_idxs@.len() ==> forall|q: int|
                    0 <= q < p ==> ss[#[trigger] fixed_idxs@[q] as int].name@ != "previous_index"@,
            decreases fixed_idxs@.len() - p,
        {
            if found == fixed_idxs.len() {
                let idx = fixed_idxs[p];
                if name_eq(specs[idx].name.as_str(), "previous_index") {
                    found = p;
                }
            }
            p = p + 1;
        }
        if found == fixed_idxs.len() {
            proof {
                assert forall|q: int|
                    0 <= q < ss.len() implies !(ss[q].name@ == "previous_index"@ && ft_fixed_size(
                    ss[q].field_type,
                )) by {
                    if ft_fixed_size(ss[q].field_type) {
                        assert(fixed_idxs@.contains(q as usize));
                        let w = choose|t: int|
                            0 <= t < fixed_idxs@.len() && fixed_idxs@[t] == q as usize;
                        assert(ss[fixed_idxs@[w] as int].name@ != "previous_index"@);
                    }
                }
            }
            return Err(Error::SpecialKeyMissing("previous_index".to_owned()));
        }
        let ghost fixed_sorted = fixed_idxs@;
        let prev_idx = fixed_idxs.remove(found);
        fixed_idxs.insert(0, prev_idx);
        proof {
            assert(fixed_idxs@.len() == fixed_sorted.len());
            assert(fixed_idxs@[0] == prev_idx);
            assert forall|a: int|
                1 <= a < fixed_idxs@.len() implies #[trigger] fixed_idxs@[a] == (
            if a - 1 < found {
                fixed_sorted[a - 1]
            } else {
                fixed_sorted[a]
            }) by {}
            broadcast use vstd::seq_lib::group_to_multiset_ensures;

            assert(fixed_idxs@.to_multiset() =~= fixed_sorted.to_multiset()) by {
                assert(fixed_sorted.remove(found as int).insert(0, prev_idx) =~= fixed_idxs@);
                fixed_sorted.to_multiset_ensures();
                vstd::seq_lib::to_multiset_insert(
                    fixed_sorted.remove(found as int),
                    0,
                    prev_idx,
                );
                assert(fixed_sorted[found as int] == prev_idx);
            }
        }
        // The final column order: fixed-size prefix, then the rest.
        let fixed_count = fixed_idxs.len();
        let ghost fixed_final = fixed_idxs@;
        let mut order = fixed_idxs;
        let mut var_tail = var_idxs;
        let ghost var_final = var_tail@;
        order.append(&mut var_tail);
        let ghost order_snapshot = order@;
        proof {
            assert(order_snapshot =~= fixed_final + var_final);
        }
        // Materialize each column and its nullability bit, in order.
        let mut fields: Vec<ArrowField> = Vec::new();
        let mut bits: Vec<String> = Vec::new();
        let mut c: usize = 0;
        proof {
            assert(order_snapshot.take(0) =~= Seq::<usize>::empty());
            assert(bits.deep_view() =~= nullable_bits(ss, order_snapshot.take(0)));
        }
        while c < order.len()
            invariant
                0 <= c <= order_snapshot.len(),
                order@ == order_snapshot,
                indices_valid(ss, order_snapshot),
                fields@.len() == c,
                forall|t: int|
                    0 <= t < c ==> spec_matches_field(
                        ss[order_snapshot[t] as int],
                        #[trigger] fields@[t],
                    ),
                bits.deep_view() =~= nullable_bits(ss, order_snapshot.take(c as int)),
            decreases order_snapshot.len() - c,
        {
            let idx = order[c];
            let field = specs[idx].get_arrow_field()?;
            fields.push(field);
            let ghost bits_before = bits.deep_view();
            if specs[idx].field_type.nullable {
                bits.push("1".to_owned());
            } else {
                bits.push("0".to_owned());
            }
            c = c + 1;
            proof {
                assert(order_snapshot.take(c as int).drop_last() =~= order_snapshot.take(c - 1));
                assert(order_snapshot.take(c as int).last() == order_snapshot[c - 1]);
                assert(bits.deep_view() =~= bits_before.push(
                    if ss[order_snapshot[c - 1] as int].field_type.nullable {
                        "1"@
                    } else {
                        "0"@
                    },
                ));
            }
        }
        proof {
            assert(order_snapshot.take(order_snapshot.len() as int) =~= order_snapshot);
        }
        let meta_serialized = join_comma(&any_types);
        let meta_nullable = join_comma(&bits);
        let schema = ArrowSchema { fields, meta_serialized, meta_nullable };
        proof {
            broadcast use vstd::seq_lib::group_to_multiset_ensures;

            reveal(schema_materialization_ok);
            let n = fixed_count as int;
            assert(order_snapshot =~= fixed_final + var_final);
            // Distinctness: the two partitions are disjoint by fixedness and
            // each came from a run of strictly increasing positions.
            assert(order_snapshot.no_duplicates()) by {
                assert(fixed_before_sort.no_duplicates());
                assert(var_before_sort.no_duplicates());
                fixed_before_sort.lemma_multiset_has_no_duplicates();
                var_before_sort.lemma_multiset_has_no_duplicates();
                assert forall|x: usize|
                    fixed_final.to_multiset().contains(x) implies fixed_final.to_multiset().count(x)
                    == 1 by {
                    assert(fixed_before_sort.to_multiset().count(x) == fixed_final.to_multiset().count(x));
                }
                fixed_final.lemma_multiset_has_no_duplicates_conv();
                assert forall|x: usize|
                    var_final.to_multiset().contains(x) implies var_final.to_multiset().count(x)
                    == 1 by {
                    assert(var_before_sort.to_multiset().count(x) == var_final.to_multiset().count(x));
                }
                var_final.lemma_multiset_has_no_duplicates_conv();
                assert forall|x: int, y: int|
                    0 <= x < y < order_snapshot.len() implies order_snapshot[x]
                    != order_snapshot[y] by {
                    if x < n && y >= n {
                        assert(ft_fixed_size(ss[order_snapshot[x] as int].field_type));
                        assert(!ft_fixed_size(ss[order_snapshot[y] as int].field_type));
                    }
                }
            }
            assert(ss[order_snapshot[0] as int].name@ == "previous_index"@);
            assert forall|i: int| 0 <= i < n implies #[trigger] order_snapshot[i]
                == fixed_final[i] by {}
            assert forall|i: int| n <= i < order_snapshot.len() implies #[trigger] order_snapshot[i]
                == var_final[i - n] by {}
            assert(indices_sorted_by_name(ss, order_snapshot, 1, n)) by {
                assert forall|a: int, b: int|
                    1 <= a < b < n implies name_le_spec(
                    ss[#[trigger] order_snapshot[a] as int].name@,
                    ss[#[trigger] order_snapshot[b] as int].name@,
                ) by {
                    let sa: int = if a - 1 < found {
                        a - 1
                    } else {
                        a
                    };
                    let sb: int = if b - 1 < found {
                        b - 1
                    } else {
                        b
                    };
                    assert(order_snapshot[a] == fixed_sorted[sa]);
                    assert(order_snapshot[b] == fixed_sorted[sb]);
                    assert(name_le_spec(
                        ss[fixed_sorted[sa] as int].name@,
                        ss[fixed_sorted[sb] as int].name@,
                    ));
                }
            }
            assert(indices_sorted_by_name(ss, order_snapshot, n, order_snapshot.len() as int)) by {
                assert forall|a: int, b: int|
                    n <= a < b < order_snapshot.len() implies name_le_spec(
                    ss[#[trigger] order_snapshot[a] as int].name@,
                    ss[#[trigger] order_snapshot[b] as int].name@,
                ) by {
                    assert(order_snapshot[a] == var_final[a - n]);
                    assert(order_snapshot[b] == var_final[b - n]);
                }
            }
            assert(forall|i: int|
                0 <= i < n ==> ft_fixed_size(#[trigger] ss[order_snapshot[i] as int].field_type));
            assert(forall|i: int|
                n <= i < order_snapshot.len() ==> !ft_fixed_size(
                    #[trigger] ss[order_snapshot[i] as int].field_type,
                ));
            assert(schema_materialization_ok(ss, order_snapshot, n, schema));
        }
        Ok((schema, Ghost((order_snapshot, fixed_count as int))))
    }
}

} // verus!
