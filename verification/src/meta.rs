//! Static buffer/node metadata of a materialized schema.
//!
//! Every column of a schema contributes one or more nodes, and every node one
//! or more buffers. The shapes are fixed by the column's data type alone:
//! this module derives, for a schema, the per-column node and buffer layout
//! (the "column hierarchy") together with the per-buffer growability flags
//! that decide between in-place and reallocating writes.

use vstd::prelude::*;

use crate::data_type::{ArrowDataType, ArrowField, ArrowSchema};
use crate::error::Error;

verus! {

/// The kind of one buffer of a node.
#[derive(Debug, Clone, Copy, PartialEq, Eq, Structural)]
pub enum BufferType {
    /// A bitmap; `is_null_bitmap` tells the validity bitmap apart from a
    /// boolean value bitmap.
    BitMap { is_null_bitmap: bool },
    /// 32-bit offsets into a growable child buffer.
    Offset,
    /// Plain values of `unit_byte_size` bytes each.
    Data { unit_byte_size: usize },
}

/// The static shape of one node: its outer fixed-size-list multiplier and
/// the kinds of its buffers.
#[derive(Debug, PartialEq, Eq)]
pub struct NodeStaticMeta {
    pub multiplier: usize,
    pub buffer_types: Vec<BufferType>,
}

impl NodeStaticMeta {
    pub fn new(multiplier: usize, buffer_types: Vec<BufferType>) -> (r: NodeStaticMeta)
        ensures
            r.multiplier == multiplier,
            r.buffer_types == buffer_types,
    {
        NodeStaticMeta { multiplier, buffer_types }
    }

    pub fn get_data_types(&self) -> (r: &Vec<BufferType>)
        ensures
            r == &self.buffer_types,
    {
        &self.buffer_types
    }
}

/// The tree of child nodes below a column's root node.
#[derive(Debug, PartialEq, Eq)]
pub struct NodeMapping(pub Vec<NodeMapping>);

/// Spec-level picture of a `NodeMapping` tree.
pub ghost struct MappingModel {
    pub children: Seq<MappingModel>,
}

pub open spec fn mapping_model(m: NodeMapping) -> MappingModel
    decreases m,
{
    MappingModel { children: mappings_model(m.0@) }
}

pub open spec fn mappings_model(ms: Seq<NodeMapping>) -> Seq<MappingModel>
    decreases ms,
{
    if ms.len() == 0 {
        Seq::empty()
    } else {
        seq![mapping_model(ms[0])] + mappings_model(ms.skip(1))
    }
}

pub open spec fn empty_mapping() -> MappingModel {
    MappingModel { children: Seq::empty() }
}

impl NodeMapping {
    /// A leaf: a node without children.
    pub fn empty() -> (r: NodeMapping)
        ensures
            mapping_model(r) == empty_mapping(),
    {
        let r = NodeMapping(Vec::new());
        proof {
            assert(mapping_model(r).children =~= empty_mapping().children);
        }
        r
    }

    /// A node with exactly one child tree.
    pub fn singleton(inner: NodeMapping) -> (r: NodeMapping)
        ensures
            mapping_model(r).children =~= seq![mapping_model(inner)],
    {
        let ghost inner_model = mapping_model(inner);
        let mut children: Vec<NodeMapping> = Vec::new();
        children.push(inner);
        let r = NodeMapping(children);
        proof {
            let cs = children@;
            assert(cs.skip(1).len() == 0);
            assert(mappings_model(cs.skip(1)) =~= Seq::<MappingModel>::empty());
            assert(mappings_model(cs) =~= seq![inner_model]);
            assert(mapping_model(r).children =~= seq![inner_model]);
        }
        r
    }
}

/// The slice of the flat node/buffer arrays that one column occupies.
#[derive(Debug, PartialEq, Eq)]
pub struct ColumnMeta {
    pub node_start: usize,
    pub node_count: usize,
    pub root_node_mapping: NodeMapping,
    pub buffer_start: usize,
    pub buffer_counts: Vec<usize>,
    pub buffer_count: usize,
}

/// The whole static metadata of a schema: per-column slices, per-buffer
/// growability, and per-node buffer shapes.
#[derive(Debug)]
pub struct StaticMeta {
    pub column_meta: Vec<ColumnMeta>,
    pub padding_meta: Vec<bool>,
    pub node_meta: Vec<NodeStaticMeta>,
}

impl StaticMeta {
    pub fn new(
        column_meta: Vec<ColumnMeta>,
        padding_meta: Vec<bool>,
        node_meta: Vec<NodeStaticMeta>,
    ) -> (r: StaticMeta)
        ensures
            r.column_meta == column_meta,
            r.padding_meta == padding_meta,
            r.node_meta == node_meta,
    {
        StaticMeta { column_meta, padding_meta, node_meta }
    }
}

/// Whether the engine can derive buffer metadata for this type: like
/// `dt_supported`, but a struct column also needs every child supported.
pub open spec fn dt_deeply_supported(d: ArrowDataType) -> bool
    decreases d,
{
    match d {
        ArrowDataType::List(inner) => dt_deeply_supported(*inner),
        ArrowDataType::FixedSizeList(inner, _) => dt_deeply_supported(*inner),
        ArrowDataType::Struct(fields) => fields_deeply_supported(fields@),
        _ => crate::data_type::dt_supported(d),
    }
}

pub open spec fn fields_deeply_supported(fs: Seq<ArrowField>) -> bool
    decreases fs,
{
    if fs.len() == 0 {
        true
    } else {
        dt_deeply_supported(fs[0].data_type) && fields_deeply_supported(fs.skip(1))
    }
}

/// The spec-level picture of one node: its multiplier and buffer kinds.
pub open spec fn node_model(m: NodeStaticMeta) -> (usize, Seq<BufferType>) {
    (m.multiplier, m.buffer_types@)
}

pub open spec fn metas_model(ms: Seq<NodeStaticMeta>) -> Seq<(usize, Seq<BufferType>)> {
    ms.map_values(|m: NodeStaticMeta| node_model(m))
}

/// The buffer kinds of a node holding fixed-width values of `w` bytes.
pub open spec fn fixed_width_buffers(w: usize) -> Seq<BufferType> {
    seq![BufferType::BitMap { is_null_bitmap: true }, BufferType::Data { unit_byte_size: w }]
}

/// The data-buffer width of a fixed-width type, if it is one.
pub open spec fn dt_fixed_width(d: ArrowDataType) -> Option<usize> {
    match d {
        ArrowDataType::Int8 => Some(1usize),
        ArrowDataType::Int16 => Some(2usize),
        ArrowDataType::Int32 => Some(4usize),
        ArrowDataType::Int64 => Some(8usize),
        ArrowDataType::UInt8 => Some(1usize),
        ArrowDataType::UInt16 => Some(2usize),
        ArrowDataType::UInt32 => Some(4usize),
        ArrowDataType::UInt64 => Some(8usize),
        ArrowDataType::Float32 => Some(4usize),
        ArrowDataType::Float64 => Some(8usize),
        ArrowDataType::Time32(_) => Some(4usize),
        ArrowDataType::Time64(_) => Some(8usize),
        ArrowDataType::Timestamp(_, _) => Some(8usize),
        ArrowDataType::Date32(_) => Some(4usize),
        ArrowDataType::Date64(_) => Some(8usize),
        ArrowDataType::Interval(ArrowIntervalUnit::YearMonth) => Some(4usize),
        ArrowDataType::Interval(ArrowIntervalUnit::DayTime) => Some(8usize),
        ArrowDataType::Duration(_) => Some(8usize),
        _ => None,
    }
}

use crate::data_type::ArrowIntervalUnit;

/// The node shapes a column of type `d` contributes, root first, in
/// pre-order. `multiplier` is the outer fixed-size-list factor of the root.
pub open spec fn dt_node_models(d: ArrowDataType, multiplier: usize) -> Seq<
    (usize, Seq<BufferType>),
>
    decreases d,
{
    match d {
        ArrowDataType::Utf8 | ArrowDataType::Binary => seq![
            (
                multiplier,
                seq![
                    BufferType::BitMap { is_null_bitmap: true },
                    BufferType::Offset,
                    BufferType::Data { unit_byte_size: 1usize },
                ],
            ),
        ],
        ArrowDataType::FixedSizeBinary(size) => seq![
            (multiplier, fixed_width_buffers(size as usize)),
        ],
        ArrowDataType::Boolean => seq![
            (
                multiplier,
                seq![
                    BufferType::BitMap { is_null_bitmap: true },
                    BufferType::BitMap { is_null_bitmap: false },
                ],
            ),
        ],
        ArrowDataType::List(inner) => seq![
            (
                multiplier,
                seq![BufferType::BitMap { is_null_bitmap: true }, BufferType::Offset],
            ),
        ] + dt_node_models(*inner, 1),
        ArrowDataType::FixedSizeList(inner, size) => seq![
            (multiplier, seq![BufferType::BitMap { is_null_bitmap: true }]),
        ] + dt_node_models(*inner, size as usize),
        ArrowDataType::Struct(fields) => seq![
            (multiplier, seq![BufferType::BitMap { is_null_bitmap: true }]),
        ] + fields_node_models(fields@),
        _ => match dt_fixed_width(d) {
            Some(w) => seq![(multiplier, fixed_width_buffers(w))],
            None => Seq::empty(),
        },
    }
}

pub open spec fn fields_node_models(fs: Seq<ArrowField>) -> Seq<(usize, Seq<BufferType>)>
    decreases fs,
{
    if fs.len() == 0 {
        Seq::empty()
    } else {
        dt_node_models(fs[0].data_type, 1) + fields_node_models(fs.skip(1))
    }
}

/// The per-buffer growability flags of a column of type `d`, in the same
/// pre-order as the buffers themselves. A buffer is growable iff an ancestor
/// in the field tree is variable-length, or it is itself the byte buffer of a
/// variable-length node.
pub open spec fn dt_growables(d: ArrowDataType, parent_growable: bool) -> Seq<bool>
    decreases d,
{
    match d {
        ArrowDataType::Utf8 | ArrowDataType::Binary => seq![
            parent_growable,
            parent_growable,
            true,
        ],
        ArrowDataType::Boolean => seq![parent_growable, parent_growable],
        ArrowDataType::List(inner) => seq![parent_growable, parent_growable] + dt_growables(
            *inner,
            true,
        ),
        ArrowDataType::FixedSizeList(inner, _) => seq![parent_growable] + dt_growables(
            *inner,
            parent_growable,
        ),
        ArrowDataType::Struct(fields) => seq![parent_growable] + fields_growables(
            fields@,
            parent_growable,
        ),
        ArrowDataType::FixedSizeBinary(_) => seq![parent_growable, parent_growable],
        _ => match dt_fixed_width(d) {
            Some(_) => seq![parent_growable, parent_growable],
            None => Seq::empty(),
        },
    }
}

pub open spec fn fields_growables(fs: Seq<ArrowField>, parent_growable: bool) -> Seq<bool>
    decreases fs,
{
    if fs.len() == 0 {
        Seq::empty()
    } else {
        dt_growables(fs[0].data_type, parent_growable) + fields_growables(
            fs.skip(1),
            parent_growable,
        )
    }
}

/// Per node of a column of type `d`, how many buffers that node has.
pub open spec fn dt_buffer_counts(d: ArrowDataType) -> Seq<usize>
    decreases d,
{
    match d {
        ArrowDataType::Utf8 | ArrowDataType::Binary => seq![3usize],
        ArrowDataType::List(inner) => seq![2usize] + dt_buffer_counts(*inner),
        ArrowDataType::FixedSizeList(inner, _) => seq![1usize] + dt_buffer_counts(*inner),
        ArrowDataType::Struct(fields) => seq![1usize] + fields_buffer_counts(fields@),
        ArrowDataType::Boolean | ArrowDataType::FixedSizeBinary(_) => seq![2usize],
        _ => match dt_fixed_width(d) {
            Some(_) => seq![2usize],
            None => Seq::empty(),
        },
    }
}

pub open spec fn fields_buffer_counts(fs: Seq<ArrowField>) -> Seq<usize>
    decreases fs,
{
    if fs.len() == 0 {
        Seq::empty()
    } else {
        dt_buffer_counts(fs[0].data_type) + fields_buffer_counts(fs.skip(1))
    }
}

/// The child-node tree of a column of type `d`.
pub open spec fn dt_mapping_model(d: ArrowDataType) -> MappingModel
    decreases d,
{
    match d {
        ArrowDataType::List(inner) => MappingModel { children: seq![dt_mapping_model(*inner)] },
        ArrowDataType::FixedSizeList(inner, _) => MappingModel {
            children: seq![dt_mapping_model(*inner)],
        },
        ArrowDataType::Struct(fields) => MappingModel { children: fields_mapping_models(fields@) },
        _ => empty_mapping(),
    }
}

pub open spec fn fields_mapping_models(fs: Seq<ArrowField>) -> Seq<MappingModel>
    decreases fs,
{
    if fs.len() == 0 {
        Seq::empty()
    } else {
        seq![dt_mapping_model(fs[0].data_type)] + fields_mapping_models(fs.skip(1))
    }
}

pub(crate) fn vec1<T>(a: T) -> (r: Vec<T>)
    ensures
        r@ == seq![a],
{
    let mut r: Vec<T> = Vec::new();
    r.push(a);
    proof {
        assert(r@ =~= seq![a]);
    }
    r
}

pub(crate) fn vec2<T>(a: T, b: T) -> (r: Vec<T>)
    ensures
        r@ == seq![a, b],
{
    let mut r: Vec<T> = Vec::new();
    r.push(a);
    r.push(b);
    proof {
        assert(r@ =~= seq![a, b]);
    }
    r
}

pub(crate) fn vec3<T>(a: T, b: T, c: T) -> (r: Vec<T>)
    ensures
        r@ == seq![a, b, c],
{
    let mut r: Vec<T> = Vec::new();
    r.push(a);
    r.push(b);
    r.push(c);
    proof {
        assert(r@ =~= seq![a, b, c]);
    }
    r
}

proof fn lemma_metas_model_cons(root: NodeStaticMeta, rest: Seq<NodeStaticMeta>)
    ensures
        metas_model(seq![root] + rest) =~= seq![node_model(root)] + metas_model(rest),
{
}

/// The metadata of a single node of fixed-width values: one validity bitmap
/// and one data buffer of `unit_byte_size`-byte units.
pub fn data_type_metadata(is_parent_growable: bool, multiplier: usize, unit_byte_size: usize) -> (r:
    (usize, usize, Vec<usize>, Vec<bool>, Vec<NodeStaticMeta>, NodeMapping))
    ensures
        metas_model(r.4@) == seq![(multiplier, fixed_width_buffers(unit_byte_size))],
        r.2@ == seq![2usize],
        r.3@ == seq![is_parent_growable, is_parent_growable],
        mapping_model(r.5) == empty_mapping(),
        r.0 == 1 && r.1 == 2,
        r.0 == r.4@.len() && r.1 == r.3@.len(),
{
    let buffer_types = vec2(
        BufferType::BitMap { is_null_bitmap: true },
        BufferType::Data { unit_byte_size },
    );
    let metas = vec1(NodeStaticMeta::new(multiplier, buffer_types));
    let counts = vec1(2usize);
    let growables = vec2(is_parent_growable, is_parent_growable);
    proof {
        assert(metas_model(metas@) =~= seq![(multiplier, fixed_width_buffers(unit_byte_size))]);
    }
    (1, 2, counts, growables, metas, NodeMapping::empty())
}

/// Derive the node and buffer layout of one column, root node first in
/// pre-order: how many nodes and buffers it takes, the buffer count of each
/// node, which buffers are growable, the static shape of each node, and the
/// child-node tree. `is_parent_growable` must say whether an enclosing field
/// is variable-length; `multiplier` is the enclosing fixed-size-list factor.
#[verifier::loop_isolation(false)]
pub fn data_type_to_metadata(
    data_type: &ArrowDataType,
    is_parent_growable: bool,
    multiplier: usize,
) -> (r: Result<(usize, usize, Vec<usize>, Vec<bool>, Vec<NodeStaticMeta>, NodeMapping), Error>)
    ensures
        r is Ok <==> dt_deeply_supported(*data_type),
        r matches Ok(t) ==> {
            &&& metas_model(t.4@) == dt_node_models(*data_type, multiplier)
            &&& t.2@ == dt_buffer_counts(*data_type)
            &&& t.3@ == dt_growables(*data_type, is_parent_growable)
            &&& mapping_model(t.5) == dt_mapping_model(*data_type)
            &&& t.0 == t.4@.len()
            &&& t.1 == t.3@.len()
        },
    decreases *data_type,
{
    match data_type {
        ArrowDataType::Utf8 | ArrowDataType::Binary => {
            let buffer_types = vec3(
                BufferType::BitMap { is_null_bitmap: true },
                BufferType::Offset,
                BufferType::Data { unit_byte_size: 1 },
            );
            let metas = vec1(NodeStaticMeta::new(multiplier, buffer_types));
            let counts = vec1(3usize);
            let growables = vec3(is_parent_growable, is_parent_growable, true);
            proof {
                assert(metas_model(metas@) =~= dt_node_models(*data_type, multiplier));
            }
            Ok((1, 3, counts, growables, metas, NodeMapping::empty()))
        },
        ArrowDataType::FixedSizeBinary(size) => {
            Ok(data_type_metadata(is_parent_growable, multiplier, #[verifier::truncate] (*size as usize)))
        },
        ArrowDataType::Boolean => {
            let buffer_types = vec2(
                BufferType::BitMap { is_null_bitmap: true },
                BufferType::BitMap { is_null_bitmap: false },
            );
            let metas = vec1(NodeStaticMeta::new(multiplier, buffer_types));
            let counts = vec1(2usize);
            let growables = vec2(is_parent_growable, is_parent_growable);
            proof {
                assert(metas_model(metas@) =~= dt_node_models(*data_type, multiplier));
            }
            Ok((1, 2, counts, growables, metas, NodeMapping::empty()))
        },
        ArrowDataType::Int8 => Ok(data_type_metadata(is_parent_growable, multiplier, 1)),
        ArrowDataType::Int16 => Ok(data_type_metadata(is_parent_growable, multiplier, 2)),
        ArrowDataType::Int32 => Ok(data_type_metadata(is_parent_growable, multiplier, 4)),
        ArrowDataType::Int64 => Ok(data_type_metadata(is_parent_growable, multiplier, 8)),
        ArrowDataType::UInt8 => Ok(data_type_metadata(is_parent_growable, multiplier, 1)),
        ArrowDataType::UInt16 => Ok(data_type_metadata(is_parent_growable, multiplier, 2)),
        ArrowDataType::UInt32 => Ok(data_type_metadata(is_parent_growable, multiplier, 4)),
        ArrowDataType::UInt64 => Ok(data_type_metadata(is_parent_growable, multiplier, 8)),
        ArrowDataType::Float32 => Ok(data_type_metadata(is_parent_growable, multiplier, 4)),
        ArrowDataType::Float64 => Ok(data_type_metadata(is_parent_growable, multiplier, 8)),
        ArrowDataType::Time32(_) => Ok(data_type_metadata(is_parent_growable, multiplier, 4)),
        ArrowDataType::Time64(_) => Ok(data_type_metadata(is_parent_growable, multiplier, 8)),
        ArrowDataType::Timestamp(_, _) => Ok(data_type_metadata(is_parent_growable, multiplier, 8)),
        ArrowDataType::Date32(_) => Ok(data_type_metadata(is_parent_growable, multiplier, 4)),
        ArrowDataType::Date64(_) => Ok(data_type_metadata(is_parent_growable, multiplier, 8)),
        ArrowDataType::Interval(ArrowIntervalUnit::YearMonth) => Ok(
            data_type_metadata(is_parent_growable, multiplier, 4),
        ),
        ArrowDataType::Interval(ArrowIntervalUnit::DayTime) => Ok(
            data_type_metadata(is_parent_growable, multiplier, 8),
        ),
        ArrowDataType::Duration(_) => Ok(data_type_metadata(is_parent_growable, multiplier, 8)),
        ArrowDataType::List(list_data_type) => {
            let inner = data_type_to_metadata(list_data_type, true, 1)?;
            let (n, buffer_count, mut b, mut p, mut c, node_mapping) = inner;
            let root = NodeStaticMeta::new(
                multiplier,
                vec2(BufferType::BitMap { is_null_bitmap: true }, BufferType::Offset),
            );
            let ghost root_snapshot = root;
            let mut buffer_counts = vec1(2usize);
            buffer_counts.append(&mut b);
            let mut padding_meta = vec2(is_parent_growable, is_parent_growable);
            padding_meta.append(&mut p);
            let mut node_meta = vec1(root);
            let ghost inner_metas = c@;
            node_meta.append(&mut c);
            proof {
                lemma_metas_model_cons(root_snapshot, inner_metas);
                assert(node_meta@ =~= seq![root_snapshot] + inner_metas);
                assert(metas_model(node_meta@) =~= dt_node_models(*data_type, multiplier));
                assert(buffer_counts@ =~= dt_buffer_counts(*data_type));
                assert(padding_meta@ =~= dt_growables(*data_type, is_parent_growable));
            }
            let mapping = NodeMapping::singleton(node_mapping);
            let total_nodes = node_meta.len();
            let total_buffers = padding_meta.len();
            Ok((total_nodes, total_buffers, buffer_counts, padding_meta, node_meta, mapping))
        },
        ArrowDataType::FixedSizeList(list_data_type, size) => {
            let inner = data_type_to_metadata(
                list_data_type,
                is_parent_growable,
                #[verifier::truncate] (*size as usize),
            )?;
            let (n, buffer_count, mut b, mut p, mut c, node_mapping) = inner;
            let root = NodeStaticMeta::new(
                multiplier,
                vec1(BufferType::BitMap { is_null_bitmap: true }),
            );
            let ghost root_snapshot = root;
            let mut buffer_counts = vec1(1usize);
            buffer_counts.append(&mut b);
            let mut padding_meta = vec1(is_parent_growable);
            padding_meta.append(&mut p);
            let mut node_meta = vec1(root);
            let ghost inner_metas = c@;
            node_meta.append(&mut c);
            proof {
                lemma_metas_model_cons(root_snapshot, inner_metas);
                assert(node_meta@ =~= seq![root_snapshot] + inner_metas);
                assert(metas_model(node_meta@) =~= dt_node_models(*data_type, multiplier));
                assert(buffer_counts@ =~= dt_buffer_counts(*data_type));
                assert(padding_meta@ =~= dt_growables(*data_type, is_parent_growable));
            }
            let mapping = NodeMapping::singleton(node_mapping);
            let total_nodes = node_meta.len();
            let total_buffers = padding_meta.len();
            Ok((total_nodes, total_buffers, buffer_counts, padding_meta, node_meta, mapping))
        },
        ArrowDataType::Struct(fields) => {
            let root = NodeStaticMeta::new(
                multiplier,
                vec1(BufferType::BitMap { is_null_bitmap: true }),
            );
            let ghost root_snapshot = root;
            let mut buffer_counts = vec1(1usize);
            let mut padding_meta = vec1(is_parent_growable);
            let mut node_meta = vec1(root);
            let mut child_node_mappings: Vec<NodeMapping> = Vec::new();
            let mut i: usize = 0;
            proof {
                assert(fields@.take(0) =~= Seq::<ArrowField>::empty());
                assert(fields_node_models(Seq::<ArrowField>::empty()) =~= Seq::empty());
                assert(fields_buffer_counts(Seq::<ArrowField>::empty()) =~= Seq::empty());
                assert(fields_growables(Seq::<ArrowField>::empty(), is_parent_growable)
                    =~= Seq::empty());
                assert(fields_mapping_models(Seq::<ArrowField>::empty()) =~= Seq::empty());
                assert(mappings_model(child_node_mappings@) =~= Seq::empty());
                assert(metas_model(node_meta@) =~= seq![node_model(root_snapshot)]);
            }
            while i < fields.len()
                invariant
                    0 <= i <= fields@.len(),
                    fields_deeply_supported(fields@.take(i as int)),
                    metas_model(node_meta@) =~= seq![node_model(root_snapshot)]
                        + fields_node_models(fields@.take(i as int)),
                    buffer_counts@ =~= seq![1usize] + fields_buffer_counts(
                        fields@.take(i as int),
                    ),
                    padding_meta@ =~= seq![is_parent_growable] + fields_growables(
                        fields@.take(i as int),
                        is_parent_growable,
                    ),
                    mappings_model(child_node_mappings@) =~= fields_mapping_models(
                        fields@.take(i as int),
                    ),
                decreases fields@.len() - i,
            {
                let ghost prefix = fields@.take(i as int);
                proof {
                    assert(*data_type is Struct);
                    assert((*data_type)->Struct_0 == *fields);
                    assert(decreases_to!(*data_type => (*data_type)->Struct_0));
                    assert(decreases_to!((*data_type)->Struct_0 => fields@));
                    assert(decreases_to!(fields@ => fields@[i as int]));
                    assert(decreases_to!(fields@[i as int] => fields@[i as int].data_type));
                    assert(decreases_to!(*data_type => fields@[i as int].data_type));
                }
                let field_res = data_type_to_metadata(&fields[i].data_type, is_parent_growable, 1);
                let field_meta = match field_res {
                    Ok(m) => m,
                    Err(e) => {
                        proof {
                            lemma_fields_not_deeply_supported(fields@, i as int);
                            assert(dt_deeply_supported(*data_type) == fields_deeply_supported(
                                fields@,
                            ));
                        }
                        return Err(e);
                    },
                };
                let (n, child_buffer_count, mut b, mut p, mut c, node_mapping) = field_meta;
                let ghost child_metas = c@;
                let ghost child_map = node_mapping;
                let ghost metas_before = node_meta@;
                let ghost counts_before = buffer_counts@;
                let ghost grow_before = padding_meta@;
                let ghost maps_before = child_node_mappings@;
                buffer_counts.append(&mut b);
                padding_meta.append(&mut p);
                node_meta.append(&mut c);
                child_node_mappings.push(node_mapping);
                i = i + 1;
                proof {
                    lemma_fields_models_snoc(fields@, i as int);
                    assert(prefix =~= fields@.take(i - 1));
                    assert(metas_model(metas_before + child_metas) =~= metas_model(metas_before)
                        + metas_model(child_metas));
                    assert(metas_model(node_meta@) =~= seq![node_model(root_snapshot)]
                        + fields_node_models(fields@.take(i as int)));
                    assert(buffer_counts@ =~= seq![1usize] + fields_buffer_counts(
                        fields@.take(i as int),
                    ));
                    assert(padding_meta@ =~= seq![is_parent_growable] + fields_growables(
                        fields@.take(i as int),
                        is_parent_growable,
                    ));
                    lemma_mappings_model_snoc(child_node_mappings@);
                    assert(child_node_mappings@.drop_last() =~= maps_before);
                    assert(child_node_mappings@.last() == child_map);
                    assert(mappings_model(child_node_mappings@) =~= fields_mapping_models(
                        fields@.take(i as int),
                    ));
                }
            }
            proof {
                assert(fields@.take(fields@.len() as int) =~= fields@);
            }
            let mapping = NodeMapping(child_node_mappings);
            let total_nodes = node_meta.len();
            let total_buffers = padding_meta.len();
            Ok((total_nodes, total_buffers, buffer_counts, padding_meta, node_meta, mapping))
        },
        _ => Err(Error::UnsupportedArrowDataType),
    }
}

/// What the column-hierarchy entry of column `k` of the field list `fs` must
/// say: where the column's nodes and buffers start in the flat arrays, how
/// many it has, the per-node buffer counts, and its child-node tree.
pub open spec fn column_meta_ok(c: ColumnMeta, fs: Seq<ArrowField>, k: int) -> bool {
    &&& c.node_start == fields_node_models(fs.take(k)).len()
    &&& c.node_count == dt_node_models(fs[k].data_type, 1).len()
    &&& c.buffer_start == fields_growables(fs.take(k), false).len()
    &&& c.buffer_count == dt_growables(fs[k].data_type, false).len()
    &&& c.buffer_counts@ == dt_buffer_counts(fs[k].data_type)
    &&& mapping_model(c.root_node_mapping) == dt_mapping_model(fs[k].data_type)
}

/// The column hierarchy of a schema: the mapping from column index to node
/// and buffer indices, the per-buffer growability flags, and the static shape
/// of every node, all in column order.
#[verifier::loop_isolation(false)]
pub fn schema_to_column_hierarchy(schema: &ArrowSchema) -> (r: Result<
    (Vec<ColumnMeta>, Vec<bool>, Vec<NodeStaticMeta>),
    Error,
>)
    ensures
        r is Ok <==> fields_deeply_supported(schema.fields@),
        r matches Ok(t) ==> {
            &&& t.0@.len() == schema.fields@.len()
            &&& metas_model(t.2@) == fields_node_models(schema.fields@)
            &&& t.1@ == fields_growables(schema.fields@, false)
            &&& forall|k: int|
                0 <= k < schema.fields@.len() ==> column_meta_ok(t.0@[k], schema.fields@, k)
        },
{
    let fields = &schema.fields;
    let mut column_meta: Vec<ColumnMeta> = Vec::new();
    let mut padding_meta: Vec<bool> = Vec::new();
    let mut node_meta: Vec<NodeStaticMeta> = Vec::new();
    let mut i: usize = 0;
    proof {
        assert(fields@.take(0) =~= Seq::<ArrowField>::empty());
        assert(fields_node_models(Seq::<ArrowField>::empty()) =~= Seq::empty());
        assert(fields_growables(Seq::<ArrowField>::empty(), false) =~= Seq::empty());
        assert(metas_model(node_meta@) =~= Seq::empty());
    }
    while i < fields.len()
        invariant
            0 <= i <= fields@.len(),
            column_meta@.len() == i,
            fields_deeply_supported(fields@.take(i as int)),
            metas_model(node_meta@) =~= fields_node_models(fields@.take(i as int)),
            padding_meta@ =~= fields_growables(fields@.take(i as int), false),
            forall|k: int| 0 <= k < i ==> column_meta_ok(column_meta@[k], fields@, k),
        decreases fields@.len() - i,
    {
        let ghost prefix = fields@.take(i as int);
        let res = data_type_to_metadata(&fields[i].data_type, false, 1);
        let m = match res {
            Ok(m) => m,
            Err(e) => {
                proof {
                    lemma_fields_not_deeply_supported(fields@, i as int);
                }
                return Err(e);
            },
        };
        let (node_count, buffer_count, buffer_counts, mut grow, mut metas, mapping) = m;
        let node_start = node_meta.len();
        let buffer_start = padding_meta.len();
        let ghost metas_before = node_meta@;
        let ghost child_metas = metas@;
        let ghost mapping_snapshot = mapping;
        padding_meta.append(&mut grow);
        node_meta.append(&mut metas);
        column_meta.push(
            ColumnMeta {
                node_start,
                node_count,
                root_node_mapping: mapping,
                buffer_start,
                buffer_counts,
                buffer_count,
            },
        );
        i = i + 1;
        proof {
            lemma_fields_models_snoc(fields@, i as int);
            assert(prefix =~= fields@.take(i - 1));
            assert(metas_model(metas_before + child_metas) =~= metas_model(metas_before)
                + metas_model(child_metas));
            assert(metas_model(node_meta@) =~= fields_node_models(fields@.take(i as int)));
            assert(padding_meta@ =~= fields_growables(fields@.take(i as int), false));
            assert(column_meta_ok(column_meta@[i - 1], fields@, i - 1));
        }
    }
    proof {
        assert(fields@.take(fields@.len() as int) =~= fields@);
    }
    Ok((column_meta, padding_meta, node_meta))
}

/// Derives the whole static metadata of a materialized schema.
pub trait HashStaticMeta {
    fn get_static_metadata(&self) -> Result<StaticMeta, Error>;
}

impl HashStaticMeta for ArrowSchema {
    /// Bundle the column hierarchy into a `StaticMeta`.
    fn get_static_metadata(&self) -> (r: Result<StaticMeta, Error>)
        ensures
            r is Ok <==> fields_deeply_supported(self.fields@),
            r matches Ok(s) ==> {
                &&& s.column_meta@.len() == self.fields@.len()
                &&& metas_model(s.node_meta@) == fields_node_models(self.fields@)
                &&& s.padding_meta@ == fields_growables(self.fields@, false)
                &&& forall|k: int|
                    0 <= k < self.fields@.len() ==> column_meta_ok(
                        s.column_meta@[k],
                        self.fields@,
                        k,
                    )
            },
    {
        let (indices, padding, data) = schema_to_column_hierarchy(self)?;
        Ok(StaticMeta::new(indices, padding, data))
    }
}

/// Whether any node of the models carries an `Offset` buffer.
pub open spec fn models_have_offset(ms: Seq<(usize, Seq<BufferType>)>) -> bool {
    exists|i: int, j: int|
        0 <= i < ms.len() && 0 <= j < ms[i].1.len() && ms[i].1[j] is Offset
}

/// Whether the type or a descendant is a variable-length byte column.
pub open spec fn dt_contains_utf8_or_binary(d: ArrowDataType) -> bool
    decreases d,
{
    match d {
        ArrowDataType::Utf8 => true,
        ArrowDataType::Binary => true,
        ArrowDataType::List(inner) => dt_contains_utf8_or_binary(*inner),
        ArrowDataType::FixedSizeList(inner, _) => dt_contains_utf8_or_binary(*inner),
        ArrowDataType::Struct(fields) => fields_contain_utf8_or_binary(fields@),
        _ => false,
    }
}

pub open spec fn fields_contain_utf8_or_binary(fs: Seq<ArrowField>) -> bool
    decreases fs,
{
    if fs.len() == 0 {
        false
    } else {
        dt_contains_utf8_or_binary(fs[0].data_type) || fields_contain_utf8_or_binary(fs.skip(1))
    }
}

/// An offset buffer sits in a concatenation of models exactly when it sits
/// in one of the halves.
pub proof fn lemma_models_offset_concat(a: Seq<(usize, Seq<BufferType>)>, b: Seq<
    (usize, Seq<BufferType>),
>)
    ensures
        models_have_offset(a + b) <==> models_have_offset(a) || models_have_offset(b),
{
    if models_have_offset(a) {
        let (i, j) = choose|i: int, j: int|
            0 <= i < a.len() && 0 <= j < a[i].1.len() && a[i].1[j] is Offset;
        assert((a + b)[i] == a[i]);
        assert(models_have_offset(a + b));
    }
    if models_have_offset(b) {
        let (i, j) = choose|i: int, j: int|
            0 <= i < b.len() && 0 <= j < b[i].1.len() && b[i].1[j] is Offset;
        assert((a + b)[i + a.len()] == b[i]);
        assert(models_have_offset(a + b));
    }
    if models_have_offset(a + b) {
        let (i, j) = choose|i: int, j: int|
            0 <= i < (a + b).len() && 0 <= j < (a + b)[i].1.len() && (a + b)[i].1[j] is Offset;
        if i < a.len() {
            assert(a[i] == (a + b)[i]);
            assert(models_have_offset(a));
        } else {
            assert(b[i - a.len()] == (a + b)[i]);
            assert(models_have_offset(b));
        }
    }
}

/// A single fixed-width node carries no offset buffer.
pub proof fn lemma_fixed_width_no_offset(mult: usize, w: usize)
    ensures
        !models_have_offset(seq![(mult, fixed_width_buffers(w))]),
{
    let ms = seq![(mult, fixed_width_buffers(w))];
    assert forall|i: int, j: int|
        0 <= i < ms.len() && 0 <= j < ms[i].1.len() implies !(ms[i].1[j] is Offset) by {
        assert(i == 0);
        assert(ms[0].1 == fixed_width_buffers(w));
    }
}

/// Unfolds the per-field model sequences by one field at the end.
proof fn lemma_fields_models_snoc(fs: Seq<ArrowField>, i: int)
    requires
        0 < i <= fs.len(),
    ensures
        fields_node_models(fs.take(i)) =~= fields_node_models(fs.take(i - 1)) + dt_node_models(
            fs[i - 1].data_type,
            1,
        ),
        fields_buffer_counts(fs.take(i)) =~= fields_buffer_counts(fs.take(i - 1))
            + dt_buffer_counts(fs[i - 1].data_type),
        forall|p: bool|
            fields_growables(fs.take(i), p) =~= fields_growables(fs.take(i - 1), p)
                + #[trigger] dt_growables(fs[i - 1].data_type, p),
        fields_mapping_models(fs.take(i)) =~= fields_mapping_models(fs.take(i - 1)) + seq![
            dt_mapping_model(fs[i - 1].data_type),
        ],
        fields_deeply_supported(fs.take(i)) <==> fields_deeply_supported(fs.take(i - 1))
            && dt_deeply_supported(fs[i - 1].data_type),
    decreases i,
{
    let cur = fs.take(i);
    let prev = fs.take(i - 1);
    if i == 1 {
        assert(cur.skip(1).len() == 0);
        assert(fields_node_models(cur.skip(1)) =~= Seq::empty());
        assert(fields_buffer_counts(cur.skip(1)) =~= Seq::empty());
        assert(fields_mapping_models(cur.skip(1)) =~= Seq::empty());
        assert(fields_deeply_supported(cur.skip(1)));
        assert(prev.len() == 0);
        assert(fields_node_models(prev) =~= Seq::empty());
        assert(fields_buffer_counts(prev) =~= Seq::empty());
        assert(fields_mapping_models(prev) =~= Seq::empty());
        assert(fields_deeply_supported(prev));
        assert(cur[0] == fs[0]);
        assert forall|p: bool|
            fields_growables(cur, p) =~= fields_growables(prev, p) + #[trigger] dt_growables(
                fs[0].data_type,
                p,
            ) by {
            assert(fields_growables(cur.skip(1), p) =~= Seq::empty());
            assert(fields_growables(prev, p) =~= Seq::empty());
        }
    } else {
        lemma_fields_models_snoc(fs.skip(1), i - 1);
        assert(cur.skip(1) =~= fs.skip(1).take(i - 1));
        assert(prev.skip(1) =~= fs.skip(1).take(i - 2));
        assert(fs.skip(1)[i - 2] == fs[i - 1]);
        assert(cur[0] == fs[0] && prev[0] == fs[0]);
        assert(fields_deeply_supported(cur) <==> dt_deeply_supported(fs[0].data_type)
            && fields_deeply_supported(cur.skip(1)));
        assert(fields_deeply_supported(prev) <==> dt_deeply_supported(fs[0].data_type)
            && fields_deeply_supported(prev.skip(1)));
        assert forall|p: bool|
            fields_growables(cur, p) =~= fields_growables(prev, p) + #[trigger] dt_growables(
                fs[i - 1].data_type,
                p,
            ) by {
            assert(fields_growables(fs.skip(1).take(i - 1), p) =~= fields_growables(
                fs.skip(1).take(i - 2),
                p,
            ) + dt_growables(fs.skip(1)[i - 2].data_type, p));
        }
    }
}

/// If field `i` is not deeply supported, neither is the whole field list.
proof fn lemma_fields_not_deeply_supported(fs: Seq<ArrowField>, i: int)
    requires
        0 <= i < fs.len(),
        !dt_deeply_supported(fs[i].data_type),
    ensures
        !fields_deeply_supported(fs),
    decreases i,
{
    if i > 0 {
        lemma_fields_not_deeply_supported(fs.skip(1), i - 1);
    }
}

/// Unfolds `mappings_model` by one element at the end.
proof fn lemma_mappings_model_snoc(ms: Seq<NodeMapping>)
    requires
        ms.len() > 0,
    ensures
        mappings_model(ms) =~= mappings_model(ms.drop_last()) + seq![mapping_model(ms.last())],
    decreases ms,
{
    if ms.len() == 1 {
        assert(ms.skip(1).len() == 0);
        assert(mappings_model(ms.skip(1)) =~= Seq::empty());
        assert(ms.drop_last().len() == 0);
        assert(mappings_model(ms.drop_last()) =~= Seq::empty());
    } else {
        lemma_mappings_model_snoc(ms.skip(1));
        assert(ms.drop_last().skip(1) =~= ms.skip(1).drop_last());
        assert(ms.skip(1).last() == ms.last());
        assert(ms.drop_last()[0] == ms[0]);
    }
}

} // verus!

