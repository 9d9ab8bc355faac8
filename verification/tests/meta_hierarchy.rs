use sim_engine::data_type::{
    ArrowDataType, ArrowDateUnit, ArrowField, ArrowIntervalUnit, ArrowSchema, ArrowTimeUnit,
};
use sim_engine::meta::{BufferType, ColumnMeta, NodeMapping, NodeStaticMeta, schema_to_column_hierarchy};

type D = ArrowDataType;

fn schema_of(fields: Vec<ArrowField>) -> ArrowSchema {
    ArrowSchema::new_with_metadata(fields, String::new(), String::new())
}

fn field(name: &str, data_type: D) -> ArrowField {
    ArrowField::new(name.to_string(), data_type, false)
}

#[test]
fn bool_dtype_schema_to_col_hierarchy() {
    let schema = schema_of(vec![field("c0", D::Boolean)]);
    let (column_info, buffer_info, node_info) = schema_to_column_hierarchy(&schema).unwrap();

    let num_buffers = 2;
    let expected_col_info = vec![ColumnMeta {
        node_start: 0,
        node_count: 1,
        buffer_start: 0,
        buffer_count: num_buffers,
        root_node_mapping: NodeMapping::empty(),
        buffer_counts: vec![num_buffers],
    }];
    let expected_buffer_info = vec![false; num_buffers];
    let expected_node_info = vec![NodeStaticMeta::new(
        1,
        vec![
            BufferType::BitMap { is_null_bitmap: true },
            BufferType::BitMap { is_null_bitmap: false },
        ],
    )];

    assert_eq!(column_info, expected_col_info);
    assert_eq!(buffer_info, expected_buffer_info);
    assert_eq!(node_info, expected_node_info);
}

fn expect_fixed_width_columns(fields: Vec<ArrowField>, unit_byte_sizes: Vec<usize>) {
    let n = fields.len();
    let schema = schema_of(fields);
    let (column_info, buffer_info, node_info) = schema_to_column_hierarchy(&schema).unwrap();

    let num_buffers = 2;
    let expected_col_info: Vec<ColumnMeta> = (0..n)
        .map(|idx| ColumnMeta {
            node_start: idx,
            node_count: 1,
            buffer_start: idx * num_buffers,
            buffer_count: num_buffers,
            root_node_mapping: NodeMapping::empty(),
            buffer_counts: vec![num_buffers],
        })
        .collect();
    let expected_buffer_info = vec![false; n * num_buffers];
    let expected_node_info: Vec<NodeStaticMeta> = unit_byte_sizes
        .iter()
        .map(|&unit_byte_size| {
            NodeStaticMeta::new(
                1,
                vec![
                    BufferType::BitMap { is_null_bitmap: true },
                    BufferType::Data { unit_byte_size },
                ],
            )
        })
        .collect();

    assert_eq!(column_info, expected_col_info);
    assert_eq!(buffer_info, expected_buffer_info);
    assert_eq!(node_info, expected_node_info);
}

#[test]
fn num_dtypes_schema_to_col_hierarchy() {
    let fields = vec![
        field("c1", D::Int8),
        field("c2", D::Int16),
        field("c3", D::Int32),
        field("c4", D::Int64),
        field("c5", D::UInt8),
        field("c6", D::UInt16),
        field("c7", D::UInt32),
        field("c8", D::UInt64),
        field("c9", D::Float32),
        field("c10", D::Float64),
    ];
    expect_fixed_width_columns(fields, vec![1, 2, 4, 8, 1, 2, 4, 8, 4, 8]);
}

#[test]
fn time_dtypes_schema_to_col_hierarchy() {
    let mut fields = vec![];
    let mut unit_byte_sizes = vec![];
    for time_unit in [
        D::Time64(ArrowTimeUnit::Nanosecond),
        D::Time64(ArrowTimeUnit::Microsecond),
        D::Time32(ArrowTimeUnit::Millisecond),
        D::Time32(ArrowTimeUnit::Second),
    ] {
        match time_unit {
            D::Time32(_) => unit_byte_sizes.push(4),
            D::Time64(_) => unit_byte_sizes.push(8),
            _ => unreachable!(),
        }
        fields.push(field(&format!("c{}", fields.len()), time_unit));
    }
    expect_fixed_width_columns(fields, unit_byte_sizes);
}

#[test]
fn date_dtypes_schema_to_col_hierarchy() {
    let mut fields = vec![];
    let mut unit_byte_sizes = vec![];
    for date_dtype in [D::Date32 as fn(ArrowDateUnit) -> D, D::Date64 as fn(ArrowDateUnit) -> D] {
        for date_unit in [ArrowDateUnit::Millisecond, ArrowDateUnit::Day] {
            let full_date_type = date_dtype(date_unit);
            match full_date_type {
                D::Date32(_) => unit_byte_sizes.push(4),
                D::Date64(_) => unit_byte_sizes.push(8),
                _ => unreachable!(),
            }
            fields.push(field(&format!("c{}", fields.len()), full_date_type));
        }
    }
    expect_fixed_width_columns(fields, unit_byte_sizes);
}

#[test]
fn duration_dtypes_schema_to_col_hierarchy() {
    let fields: Vec<ArrowField> = [
        ArrowTimeUnit::Nanosecond,
        ArrowTimeUnit::Microsecond,
        ArrowTimeUnit::Millisecond,
        ArrowTimeUnit::Second,
    ]
    .iter()
    .enumerate()
    .map(|(idx, time_unit)| field(&format!("c{}", idx), D::Duration(*time_unit)))
    .collect();
    expect_fixed_width_columns(fields, vec![8, 8, 8, 8]);
}

#[test]
fn interval_dtypes_schema_to_col_hierarchy() {
    let mut fields = vec![];
    let mut unit_byte_sizes = vec![];
    for interval_unit in [ArrowIntervalUnit::DayTime, ArrowIntervalUnit::YearMonth] {
        fields.push(field(&format!("c{}", fields.len()), D::Interval(interval_unit)));
        unit_byte_sizes.push(match interval_unit {
            ArrowIntervalUnit::YearMonth => 4,
            ArrowIntervalUnit::DayTime => 8,
        });
    }
    expect_fixed_width_columns(fields, unit_byte_sizes);
}

#[test]
fn timestamp_dtypes_schema_to_col_hierarchy() {
    let mut fields = vec![];
    for time_unit in [
        ArrowTimeUnit::Nanosecond,
        ArrowTimeUnit::Microsecond,
        ArrowTimeUnit::Millisecond,
        ArrowTimeUnit::Second,
    ] {
        for time_zone in [
            Some("UTC".to_string()),
            Some("Africa/Johannesburg".to_string()),
            None,
        ] {
            fields.push(field(
                &format!("c{}", fields.len()),
                D::Timestamp(time_unit, time_zone),
            ));
        }
    }
    let n = fields.len();
    expect_fixed_width_columns(fields, vec![8; n]);
}

#[test]
fn fixed_size_binary_dtype_schema_to_col_hierarchy() {
    let fixed_sizes = [2, 3, 6, 8];
    let fields: Vec<ArrowField> = fixed_sizes
        .iter()
        .enumerate()
        .map(|(idx, &size)| field(&format!("c{}", idx), D::FixedSizeBinary(size)))
        .collect();
    expect_fixed_width_columns(fields, vec![2, 3, 6, 8]);
}

#[test]
fn variable_length_base_dtypes_schema_to_col_hierarchy() {
    let fields = vec![field("c0", D::Utf8), field("c1", D::Binary)];
    let n = fields.len();
    let schema = schema_of(fields);
    let (column_info, buffer_info, node_info) = schema_to_column_hierarchy(&schema).unwrap();

    let num_buffers = 3;
    let expected_col_info: Vec<ColumnMeta> = (0..n)
        .map(|idx| ColumnMeta {
            node_start: idx,
            node_count: 1,
            buffer_start: idx * num_buffers,
            buffer_count: num_buffers,
            root_node_mapping: NodeMapping::empty(),
            buffer_counts: vec![num_buffers],
        })
        .collect();
    let expected_buffer_info: Vec<bool> = (0..n).flat_map(|_| [false, false, true]).collect();
    let expected_node_info: Vec<NodeStaticMeta> = (0..n)
        .map(|_| {
            NodeStaticMeta::new(
                1,
                vec![
                    BufferType::BitMap { is_null_bitmap: true },
                    BufferType::Offset,
                    BufferType::Data { unit_byte_size: 1 },
                ],
            )
        })
        .collect();

    assert_eq!(column_info, expected_col_info);
    assert_eq!(buffer_info, expected_buffer_info);
    assert_eq!(node_info, expected_node_info);
}

#[test]
fn list_dtype_schema_to_col_hierarchy() {
    let fields = vec![
        field("c0", D::List(Box::new(D::Boolean))),
        field("c1", D::List(Box::new(D::UInt32))),
    ];
    let n = fields.len();
    let schema = schema_of(fields);
    let (column_info, buffer_info, node_info) = schema_to_column_hierarchy(&schema).unwrap();

    let num_nodes = 2;
    let num_buffers_per_node = 2;
    let expected_col_info: Vec<ColumnMeta> = (0..n)
        .map(|idx| ColumnMeta {
            node_start: idx * num_nodes,
            node_count: num_nodes,
            buffer_start: idx * num_buffers_per_node * num_nodes,
            buffer_count: num_buffers_per_node * num_nodes,
            root_node_mapping: NodeMapping::singleton(NodeMapping::empty()),
            buffer_counts: vec![num_buffers_per_node; num_nodes],
        })
        .collect();
    let expected_buffer_info: Vec<bool> =
        (0..n).flat_map(|_| [false, false, true, true]).collect();
    let expected_node_info = vec![
        NodeStaticMeta::new(
            1,
            vec![BufferType::BitMap { is_null_bitmap: true }, BufferType::Offset],
        ),
        NodeStaticMeta::new(
            1,
            vec![
                BufferType::BitMap { is_null_bitmap: true },
                BufferType::BitMap { is_null_bitmap: false },
            ],
        ),
        NodeStaticMeta::new(
            1,
            vec![BufferType::BitMap { is_null_bitmap: true }, BufferType::Offset],
        ),
        NodeStaticMeta::new(
            1,
            vec![
                BufferType::BitMap { is_null_bitmap: true },
                BufferType::Data { unit_byte_size: 4 },
            ],
        ),
    ];

    assert_eq!(column_info, expected_col_info);
    assert_eq!(buffer_info, expected_buffer_info);
    assert_eq!(node_info, expected_node_info);
}

#[test]
fn struct_dtypes_schema_to_col_hierarchy() {
    let fields = vec![
        field(
            "c0",
            D::Struct(vec![field("a", D::Utf8), field("b", D::Boolean)]),
        ),
        field("c1", D::Struct(vec![])),
    ];
    let schema = schema_of(fields);
    let (column_info, buffer_info, node_info) = schema_to_column_hierarchy(&schema).unwrap();

    let expected_col_info = vec![
        ColumnMeta {
            node_start: 0,
            node_count: 3,
            buffer_start: 0,
            buffer_count: 6,
            root_node_mapping: NodeMapping(vec![NodeMapping::empty(), NodeMapping::empty()]),
            buffer_counts: vec![1, 3, 2],
        },
        ColumnMeta {
            node_start: 3,
            node_count: 1,
            buffer_start: 6,
            buffer_count: 1,
            root_node_mapping: NodeMapping::empty(),
            buffer_counts: vec![1],
        },
    ];
    let expected_buffer_info = vec![false, false, false, true, false, false, false];
    let expected_node_info = vec![
        NodeStaticMeta::new(1, vec![BufferType::BitMap { is_null_bitmap: true }]),
        NodeStaticMeta::new(
            1,
            vec![
                BufferType::BitMap { is_null_bitmap: true },
                BufferType::Offset,
                BufferType::Data { unit_byte_size: 1 },
            ],
        ),
        NodeStaticMeta::new(
            1,
            vec![
                BufferType::BitMap { is_null_bitmap: true },
                BufferType::BitMap { is_null_bitmap: false },
            ],
        ),
        NodeStaticMeta::new(1, vec![BufferType::BitMap { is_null_bitmap: true }]),
    ];

    assert_eq!(column_info, expected_col_info);
    assert_eq!(buffer_info, expected_buffer_info);
    assert_eq!(node_info, expected_node_info);
}
