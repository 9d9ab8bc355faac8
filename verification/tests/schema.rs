use sim_engine::data_type::{ArrowDataType, ArrowField, ArrowSchema, ArrowTimeUnit, SupportedArrowDataTypes};
use sim_engine::field::{
    FieldScope, FieldSource, FieldSpec, FieldSpecMap, FieldType, FieldTypeVariant, PresetFieldType,
};

type D = ArrowDataType;

fn spec(name: &str, variant: FieldTypeVariant, nullable: bool) -> FieldSpec {
    FieldSpec {
        name: name.to_string(),
        field_type: FieldType { variant, nullable },
        source: FieldSource::Engine,
        scope: FieldScope::Agent,
    }
}

#[test]
fn get_schema() {
    let mut field_spec_map = FieldSpecMap::default().unwrap();
    field_spec_map
        .add(spec("test1", FieldTypeVariant::Boolean, true))
        .unwrap();
    field_spec_map
        .add(spec(
            "test2",
            FieldTypeVariant::VariableLengthArray(Box::new(FieldType {
                variant: FieldTypeVariant::Number,
                nullable: false,
            })),
            true,
        ))
        .unwrap();
    field_spec_map
        .add(spec(
            "test3",
            FieldTypeVariant::FixedLengthArray {
                kind: Box::new(FieldType {
                    variant: FieldTypeVariant::Number,
                    nullable: false,
                }),
                len: 3,
            },
            true,
        ))
        .unwrap();
    field_spec_map
        .add(spec(
            "agent_id",
            FieldTypeVariant::Preset(PresetFieldType::Id),
            false,
        ))
        .unwrap();

    let schema = field_spec_map.get_arrow_schema().unwrap();

    let target = ArrowSchema::new_with_metadata(
        vec![
            ArrowField::new(
                "previous_index".to_string(),
                D::FixedSizeList(Box::new(D::UInt32), 2),
                true,
            ),
            ArrowField::new("agent_id".to_string(), D::FixedSizeBinary(16), false),
            ArrowField::new("test1".to_string(), D::Boolean, true),
            ArrowField::new(
                "test3".to_string(),
                D::FixedSizeList(Box::new(D::Float64), 3),
                true,
            ),
            ArrowField::new("test2".to_string(), D::List(Box::new(D::Float64)), true),
        ],
        String::new(),
        "1,0,1,1,1".to_string(),
    );
    assert_eq!(schema.fields, target.fields);
    assert_eq!(schema.meta_serialized, "");
    assert_eq!(schema.meta_nullable, "1,0,1,1,1");
}

#[test]
fn schema_with_reserved_field() {
    let mut map = FieldSpecMap::empty();
    map.add(spec(
        "previous_index",
        FieldTypeVariant::Preset(PresetFieldType::Index),
        true,
    ))
    .unwrap();
    map.add(spec("x", FieldTypeVariant::Number, false)).unwrap();
    map.add(spec(
        "tags",
        FieldTypeVariant::VariableLengthArray(Box::new(FieldType {
            variant: FieldTypeVariant::String,
            nullable: false,
        })),
        true,
    ))
    .unwrap();

    let schema = map.get_arrow_schema().unwrap();
    assert_eq!(schema.fields.len(), 3);
    assert_eq!(schema.fields[0].name, "previous_index");
    assert_eq!(schema.fields[1].name, "x");
    assert_eq!(schema.fields[2].name, "tags");
    assert_eq!(schema.meta_nullable, "1,0,1");
    assert_eq!(schema.meta_serialized, "");
}

#[test]
fn schema_missing_reserved_field_fails() {
    let mut map = FieldSpecMap::empty();
    map.add(spec("x", FieldTypeVariant::Number, false)).unwrap();
    let err = map.get_arrow_schema().unwrap_err();
    assert!(matches!(err, sim_engine::error::Error::SpecialKeyMissing(_)));
}

#[test]
fn duplicate_field_name_fails() {
    let mut map = FieldSpecMap::empty();
    map.add(spec("x", FieldTypeVariant::Number, false)).unwrap();
    let err = map.add(spec("x", FieldTypeVariant::Boolean, true)).unwrap_err();
    assert!(matches!(err, sim_engine::error::Error::FieldAlreadyExists(_)));
}

#[test]
fn serialized_fields_listed_in_declaration_order() {
    let mut map = FieldSpecMap::default().unwrap();
    map.add(spec("zeta", FieldTypeVariant::Serialized, true)).unwrap();
    map.add(spec("alpha", FieldTypeVariant::Serialized, true)).unwrap();
    let schema = map.get_arrow_schema().unwrap();
    assert_eq!(schema.meta_serialized, "zeta,alpha");
}

#[test]
fn fixed_size_of_field_types() {
    let number = FieldType { variant: FieldTypeVariant::Number, nullable: false };
    assert!(number.is_fixed_size());
    let text = FieldType { variant: FieldTypeVariant::String, nullable: false };
    assert!(!text.is_fixed_size());
    let arr = FieldType {
        variant: FieldTypeVariant::FixedLengthArray {
            kind: Box::new(FieldType { variant: FieldTypeVariant::String, nullable: false }),
            len: 4,
        },
        nullable: false,
    };
    assert!(!arr.is_fixed_size());
    let structure = FieldType {
        variant: FieldTypeVariant::Struct(vec![
            spec("a", FieldTypeVariant::Number, false),
            spec("b", FieldTypeVariant::Boolean, false),
        ]),
        nullable: false,
    };
    assert!(structure.is_fixed_size());
}

#[test]
fn arrow_data_types_of_field_types() {
    let number = FieldType { variant: FieldTypeVariant::Number, nullable: false };
    assert_eq!(number.get_arrow_data_type().unwrap(), D::Float64);
    let serialized = FieldType { variant: FieldTypeVariant::Serialized, nullable: false };
    assert_eq!(serialized.get_arrow_data_type().unwrap(), D::Utf8);
    assert_eq!(PresetFieldType::Index.get_arrow_data_type(), D::UInt32);
    assert_eq!(PresetFieldType::Id.get_arrow_data_type(), D::FixedSizeBinary(16));
}

#[test]
fn supported_data_types() {
    assert!(SupportedArrowDataTypes::try_from(D::Boolean).is_ok());
    assert!(SupportedArrowDataTypes::try_from(D::List(Box::new(D::Utf8))).is_ok());
    assert!(SupportedArrowDataTypes::try_from(D::Null).is_err());
    assert!(SupportedArrowDataTypes::try_from(D::List(Box::new(D::Float16))).is_err());
    assert!(SupportedArrowDataTypes::try_from(D::Time32(ArrowTimeUnit::Second)).is_ok());
}
