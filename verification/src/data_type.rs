//! The columnar data-type system that field schemas materialize into.
//!
//! The engine only ever allocates batches for a closed set of column types;
//! `SupportedArrowDataTypes` names that set, and `try_from` carves it out of
//! the full `ArrowDataType` space.

use vstd::prelude::*;

verus! {

#[derive(Debug, Clone, Copy, PartialEq, Eq, Structural)]
pub enum ArrowTimeUnit {
    Second,
    Millisecond,
    Microsecond,
    Nanosecond,
}

#[derive(Debug, Clone, Copy, PartialEq, Eq, Structural)]
pub enum ArrowDateUnit {
    Day,
    Millisecond,
}

#[derive(Debug, Clone, Copy, PartialEq, Eq, Structural)]
pub enum ArrowIntervalUnit {
    YearMonth,
    DayTime,
}

/// A column data type. The variants mirror the columnar type system the
/// engine shares with its runners; the engine itself materializes only the
/// subset listed in `SupportedArrowDataTypes`.
#[derive(Debug, PartialEq, Eq)]
pub enum ArrowDataType {
    Null,
    Boolean,
    Utf8,
    Binary,
    FixedSizeBinary(i32),
    Int8,
    Int16,
    Int32,
    Int64,
    UInt8,
    UInt16,
    UInt32,
    UInt64,
    Float16,
    Float32,
    Float64,
    Time32(ArrowTimeUnit),
    Time64(ArrowTimeUnit),
    Timestamp(ArrowTimeUnit, Option<String>),
    Date32(ArrowDateUnit),
    Date64(ArrowDateUnit),
    Interval(ArrowIntervalUnit),
    Duration(ArrowTimeUnit),
    List(Box<ArrowDataType>),
    FixedSizeList(Box<ArrowDataType>, i32),
    Struct(Vec<ArrowField>),
    LargeUtf8,
    LargeBinary,
    LargeList(Box<ArrowDataType>),
    Union,
    Dictionary(Box<ArrowDataType>, Box<ArrowDataType>),
}

/// One named, typed column of a schema.
#[derive(Debug, PartialEq, Eq)]
pub struct ArrowField {
    pub name: String,
    pub data_type: ArrowDataType,
    pub nullable: bool,
}

impl ArrowField {
    pub fn new(name: String, data_type: ArrowDataType, nullable: bool) -> (r: ArrowField)
        ensures
            r.name == name,
            r.data_type == data_type,
            r.nullable == nullable,
    {
        ArrowField { name, data_type, nullable }
    }
}

/// A materialized schema: the ordered columns plus the two metadata strings
/// derived at materialization time (the comma-separated names of the
/// `Serialized` fields, and the comma-separated per-field nullability bits).
#[derive(Debug, PartialEq, Eq)]
pub struct ArrowSchema {
    pub fields: Vec<ArrowField>,
    pub meta_serialized: String,
    pub meta_nullable: String,
}

impl ArrowSchema {
    pub fn new_with_metadata(
        fields: Vec<ArrowField>,
        meta_serialized: String,
        meta_nullable: String,
    ) -> (r: ArrowSchema)
        ensures
            r.fields == fields,
            r.meta_serialized == meta_serialized,
            r.meta_nullable == meta_nullable,
    {
        ArrowSchema { fields, meta_serialized, meta_nullable }
    }
}

/// Whether the engine can materialize a column of this type.
pub open spec fn dt_supported(d: ArrowDataType) -> bool
    decreases d,
{
    match d {
        ArrowDataType::Boolean => true,
        ArrowDataType::Utf8 => true,
        ArrowDataType::Binary => true,
        ArrowDataType::FixedSizeBinary(_) => true,
        ArrowDataType::Int8 => true,
        ArrowDataType::Int16 => true,
        ArrowDataType::Int32 => true,
        ArrowDataType::Int64 => true,
        ArrowDataType::UInt8 => true,
        ArrowDataType::UInt16 => true,
        ArrowDataType::UInt32 => true,
        ArrowDataType::UInt64 => true,
        ArrowDataType::Float32 => true,
        ArrowDataType::Float64 => true,
        ArrowDataType::Time32(_) => true,
        ArrowDataType::Time64(_) => true,
        ArrowDataType::Timestamp(_, _) => true,
        ArrowDataType::Date32(_) => true,
        ArrowDataType::Date64(_) => true,
        ArrowDataType::Interval(_) => true,
        ArrowDataType::Duration(_) => true,
        ArrowDataType::List(inner) => dt_supported(*inner),
        ArrowDataType::FixedSizeList(inner, _) => dt_supported(*inner),
        // As in the wire type system, a struct column is accepted as a
        // whole; its children are examined when buffer metadata is derived.
        ArrowDataType::Struct(_) => true,
        _ => false,
    }
}

/// The closed set of column types the engine materializes.
pub enum SupportedArrowDataTypes {
    Boolean,
    Utf8,
    Binary,
    FixedSizeBinary(i32),
    Int8,
    Int16,
    Int32,
    Int64,
    UInt8,
    UInt16,
    UInt32,
    UInt64,
    Float32,
    Float64,
    Time32(ArrowTimeUnit),
    Time64(ArrowTimeUnit),
    Timestamp(ArrowTimeUnit, Option<String>),
    Date32(ArrowDateUnit),
    Date64(ArrowDateUnit),
    Interval(ArrowIntervalUnit),
    Duration(ArrowTimeUnit),
    List(Box<SupportedArrowDataTypes>),
    FixedSizeList(Box<SupportedArrowDataTypes>, i32),
    Struct(Vec<ArrowField>),
}

/// The supported counterpart of a supported data type.
pub open spec fn dt_as_supported(d: ArrowDataType) -> SupportedArrowDataTypes
    recommends
        dt_supported(d),
    decreases d,
{
    match d {
        ArrowDataType::Boolean => SupportedArrowDataTypes::Boolean,
        ArrowDataType::Utf8 => SupportedArrowDataTypes::Utf8,
        ArrowDataType::Binary => SupportedArrowDataTypes::Binary,
        ArrowDataType::FixedSizeBinary(size) => SupportedArrowDataTypes::FixedSizeBinary(size),
        ArrowDataType::Int8 => SupportedArrowDataTypes::Int8,
        ArrowDataType::Int16 => SupportedArrowDataTypes::Int16,
        ArrowDataType::Int32 => SupportedArrowDataTypes::Int32,
        ArrowDataType::Int64 => SupportedArrowDataTypes::Int64,
        ArrowDataType::UInt8 => SupportedArrowDataTypes::UInt8,
        ArrowDataType::UInt16 => SupportedArrowDataTypes::UInt16,
        ArrowDataType::UInt32 => SupportedArrowDataTypes::UInt32,
        ArrowDataType::UInt64 => SupportedArrowDataTypes::UInt64,
        ArrowDataType::Float32 => SupportedArrowDataTypes::Float32,
        ArrowDataType::Float64 => SupportedArrowDataTypes::Float64,
        ArrowDataType::Time32(u) => SupportedArrowDataTypes::Time32(u),
        ArrowDataType::Time64(u) => SupportedArrowDataTypes::Time64(u),
        ArrowDataType::Timestamp(u, tz) => SupportedArrowDataTypes::Timestamp(u, tz),
        ArrowDataType::Date32(u) => SupportedArrowDataTypes::Date32(u),
        ArrowDataType::Date64(u) => SupportedArrowDataTypes::Date64(u),
        ArrowDataType::Interval(u) => SupportedArrowDataTypes::Interval(u),
        ArrowDataType::Duration(u) => SupportedArrowDataTypes::Duration(u),
        ArrowDataType::List(inner) => SupportedArrowDataTypes::List(
            Box::new(dt_as_supported(*inner)),
        ),
        ArrowDataType::FixedSizeList(inner, size) => SupportedArrowDataTypes::FixedSizeList(
            Box::new(dt_as_supported(*inner)),
            size,
        ),
        ArrowDataType::Struct(fields) => SupportedArrowDataTypes::Struct(fields),
        _ => SupportedArrowDataTypes::Boolean,
    }
}

impl SupportedArrowDataTypes {
    /// Carve the supported subset out of the full type space: every type the
    /// engine can materialize converts, everything else is refused.
    pub fn try_from(arrow_data_type: ArrowDataType) -> (r: Result<
        SupportedArrowDataTypes,
        crate::error::Error,
    >)
        ensures
            r is Ok <==> dt_supported(arrow_data_type),
            r matches Ok(s) ==> s == dt_as_supported(arrow_data_type),
            r is Err ==> r->Err_0 is UnsupportedArrowDataType,
        decreases arrow_data_type,
    {
        match arrow_data_type {
            ArrowDataType::Boolean => Ok(SupportedArrowDataTypes::Boolean),
            ArrowDataType::Utf8 => Ok(SupportedArrowDataTypes::Utf8),
            ArrowDataType::Binary => Ok(SupportedArrowDataTypes::Binary),
            ArrowDataType::FixedSizeBinary(size) => Ok(
                SupportedArrowDataTypes::FixedSizeBinary(size),
            ),
            ArrowDataType::Int8 => Ok(SupportedArrowDataTypes::Int8),
            ArrowDataType::Int16 => Ok(SupportedArrowDataTypes::Int16),
            ArrowDataType::Int32 => Ok(SupportedArrowDataTypes::Int32),
            ArrowDataType::Int64 => Ok(SupportedArrowDataTypes::Int64),
            ArrowDataType::UInt8 => Ok(SupportedArrowDataTypes::UInt8),
            ArrowDataType::UInt16 => Ok(SupportedArrowDataTypes::UInt16),
            ArrowDataType::UInt32 => Ok(SupportedArrowDataTypes::UInt32),
            ArrowDataType::UInt64 => Ok(SupportedArrowDataTypes::UInt64),
            ArrowDataType::Float32 => Ok(SupportedArrowDataTypes::Float32),
            ArrowDataType::Float64 => Ok(SupportedArrowDataTypes::Float64),
            ArrowDataType::Time32(elapsed) => Ok(SupportedArrowDataTypes::Time32(elapsed)),
            ArrowDataType::Time64(elapsed) => Ok(SupportedArrowDataTypes::Time64(elapsed)),
            ArrowDataType::Timestamp(elapsed, time_zone) => Ok(
                SupportedArrowDataTypes::Timestamp(elapsed, time_zone),
            ),
            ArrowDataType::Date32(elapsed) => Ok(SupportedArrowDataTypes::Date32(elapsed)),
            ArrowDataType::Date64(elapsed) => Ok(SupportedArrowDataTypes::Date64(elapsed)),
            ArrowDataType::Interval(interval) => Ok(SupportedArrowDataTypes::Interval(interval)),
            ArrowDataType::Duration(elapsed) => Ok(SupportedArrowDataTypes::Duration(elapsed)),
            ArrowDataType::List(d_type) => {
                match Self::try_from(*d_type) {
                    Ok(inner) => Ok(SupportedArrowDataTypes::List(Box::new(inner))),
                    Err(e) => Err(e),
                }
            },
            ArrowDataType::FixedSizeList(d_type, size) => {
                match Self::try_from(*d_type) {
                    Ok(inner) => Ok(SupportedArrowDataTypes::FixedSizeList(Box::new(inner), size)),
                    Err(e) => Err(e),
                }
            },
            ArrowDataType::Struct(fields) => Ok(SupportedArrowDataTypes::Struct(fields)),
            _ => Err(crate::error::Error::UnsupportedArrowDataType),
        }
    }
}

} // verus!
