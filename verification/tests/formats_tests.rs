//! Tests for format options, factories and registration.

use geoetl::drivers::{DriverRegistry, SupportStatus};
use geoetl::errors::GeoEtlError;
use geoetl::formats::{
    parse_geometry_type, prepare_reader_options, register_geoparquet_format, CsvFormatOptions,
    GeoJsonFormatOptions, GeoJsonWriterOptions, GeometryKind, GeoParquetFormatFactory,
    GeoParquetFormatOptions, GeoParquetSourceBuilder, ReaderOptions,
};

#[test]
fn test_geojson_writer_options_builder() {
    let options = GeoJsonWriterOptions::new()
        .with_geometry_column("geom")
        .with_feature_collection(false)
        .with_pretty_print(true);

    assert_eq!(options.geometry_column_name, "geom");
    assert!(!options.feature_collection);
    assert!(options.pretty_print);
}

#[test]
fn test_factory_driver_info() {
    let factory = GeoParquetFormatFactory;
    let driver = factory.driver();

    assert_eq!(driver.short_name, "GeoParquet");
    assert_eq!(driver.long_name, "GeoParquet");
    assert!(matches!(driver.capabilities.read, SupportStatus::Supported));
    assert!(matches!(
        driver.capabilities.write,
        SupportStatus::Supported
    ));
    assert!(matches!(driver.capabilities.info, SupportStatus::Supported));
}

#[test]
fn test_format_options_as_any() {
    // Options travel as a closed sum and come back by pattern match.
    let options = GeoJsonFormatOptions::default();
    let boxed = ReaderOptions::GeoJson(options);
    assert!(matches!(boxed, ReaderOptions::GeoJson(_)));
}

#[test]
fn test_register_geoparquet_format() {
    let mut registry = DriverRegistry::new();
    register_geoparquet_format(&mut registry);
    assert_eq!(registry.drivers.len(), 1);
    assert_eq!(registry.drivers[0].short_name, "GeoParquet");
}

#[test]
fn file_format_options_helpers() {
    let options = GeoParquetFormatOptions::new()
        .with_batch_size(256)
        .with_file_extension("geoparquet")
        .with_geometry_column_name("geom");

    assert_eq!(options.batch_size, 256);
    assert_eq!(options.file_extension_with_dot(), ".geoparquet");
    assert_eq!(options.geometry_column_name, "geom");
}

#[test]
fn options_helpers() {
    let options = GeoJsonFormatOptions::new()
        .with_batch_size(256)
        .with_file_extension("jsonl")
        .with_geometry_column_name("geom");

    assert_eq!(options.batch_size, 256);
    assert_eq!(options.file_extension_with_dot(), ".jsonl");
    assert_eq!(options.geometry_column_name, "geom");
}

#[test]
fn csv_options_builders() {
    let options = CsvFormatOptions::new()
        .with_has_header(false)
        .with_delimiter(b';')
        .with_schema_infer_max_rec(Some(42))
        .with_batch_size(7)
        .with_file_extension("tsv")
        .with_geometry_from_wkt("wkt", GeometryKind::Point);

    assert!(!options.has_header);
    assert_eq!(options.delimiter, b';');
    assert_eq!(options.schema_infer_max_rec, Some(42));
    assert_eq!(options.batch_size, 7);
    assert_eq!(options.file_extension_with_dot(), ".tsv");
    assert_eq!(options.geometry_columns.len(), 1);
    assert_eq!(options.geometry_columns[0].field_name, "wkt");
}

#[test]
fn geoparquet_source_builder() {
    let options = GeoParquetSourceBuilder::new()
        .with_batch_size(512)
        .with_geometry_column_name("geo")
        .build();
    assert_eq!(options.batch_size, 512);
    assert_eq!(options.geometry_column_name, "geo");
    assert_eq!(options.file_extension, ".parquet");
}

#[test]
fn parse_geometry_type_known_names() {
    assert_eq!(
        parse_geometry_type("Geometry").unwrap(),
        GeometryKind::Geometry
    );
    assert_eq!(parse_geometry_type("point").unwrap(), GeometryKind::Point);
    assert_eq!(
        parse_geometry_type("LINESTRING").unwrap(),
        GeometryKind::LineString
    );
    assert_eq!(
        parse_geometry_type("MultiPolygon").unwrap(),
        GeometryKind::MultiPolygon
    );
}

#[test]
fn parse_geometry_type_unknown_name() {
    let err = parse_geometry_type("Hexagon").unwrap_err();
    match err {
        GeoEtlError::Format(e) => {
            assert!(e.display_string().contains("Hexagon"));
        },
        _ => panic!("Expected Format error"),
    }
}

#[test]
fn prepare_reader_options_dispatch() {
    let geojson = prepare_reader_options("GeoJSON", "geometry", None, 1234).unwrap();
    match geojson {
        ReaderOptions::GeoJson(o) => assert_eq!(o.batch_size, 1234),
        _ => panic!("Expected GeoJSON options"),
    }

    let csv = prepare_reader_options("CSV", "wkt", Some("Point"), 99).unwrap();
    match csv {
        ReaderOptions::Csv(o) => {
            assert_eq!(o.geometry_columns.len(), 1);
            assert_eq!(o.geometry_columns[0].field_name, "wkt");
            assert_eq!(o.geometry_columns[0].geoarrow_type, GeometryKind::Point);
        },
        _ => panic!("Expected CSV options"),
    }

    let missing = prepare_reader_options("GeoParquet", "geometry", None, 1);
    assert!(missing.is_err());
}
