//! Format options, factories and driver registration for the built-in
//! formats (CSV, GeoJSON, GeoParquet).
//!
//! Options are plain data with builder methods; reader options are passed as
//! a closed sum type, dispatched by pattern match.  Geometry types are
//! modeled by [`GeometryKind`]; converting a kind to a concrete geometry
//! array type is the concern of the surrounding engine layer.

use vstd::prelude::*;

verus! {

use crate::drivers::{
    eq_ignore_case, str_eq_ignore_ascii_case, Driver, DriverCapabilities, DriverModel,
    DriverRegistry, SupportStatus, driver_model, driver_models,
};
use crate::errors::{DriverError, FormatError, GeoEtlError};
use vstd::string::StringExecFns;

/// The geometry types a column can be declared as.
#[derive(Debug, Clone, Copy, PartialEq, Eq, Structural)]
pub enum GeometryKind {
    /// Any geometry.
    Geometry,
    /// Points.
    Point,
    /// Line strings.
    LineString,
    /// Polygons.
    Polygon,
    /// Multi-points.
    MultiPoint,
    /// Multi-line-strings.
    MultiLineString,
    /// Multi-polygons.
    MultiPolygon,
}

/// Configuration for how a geometry column should be derived.
#[derive(Debug, Clone, PartialEq, Eq)]
pub enum GeometrySource {
    /// Parse Well-Known Text from the specified column.
    Wkt {
        /// The column holding the WKT text.
        column: String,
    },
}

/// Geometry column configuration entry.
#[derive(Debug, Clone)]
pub struct GeometryColumnOptions {
    /// The name of the resulting geometry field.
    pub field_name: String,
    /// The declared geometry type of the column.
    pub geoarrow_type: GeometryKind,
    /// Where the geometry comes from.
    pub source: GeometrySource,
}

/// Options controlling CSV reading behaviour.
#[derive(Debug, Clone)]
pub struct CsvFormatOptions {
    /// Whether the file starts with a header row.
    pub has_header: bool,
    /// The field delimiter byte.
    pub delimiter: u8,
    /// Maximum number of rows to read for schema inference.
    pub schema_infer_max_rec: Option<usize>,
    /// Target batch size when producing record batches.
    pub batch_size: usize,
    /// File extension to look for when listing datasets.
    pub file_extension: String,
    /// Geometry column configuration.
    pub geometry_columns: Vec<GeometryColumnOptions>,
}

impl Default for CsvFormatOptions {
    /// Header on, comma-delimited, a thousand rows of inference, batches of
    /// 8192, `.csv` files, no geometry columns.
    fn default() -> (r: Self)
        ensures
            r.has_header == true,
            r.delimiter == 0x2cu8,
            r.schema_infer_max_rec == Some(1000usize),
            r.batch_size == 8192usize,
            r.file_extension@ == ".csv"@,
            r.geometry_columns@.len() == 0,
    {
        CsvFormatOptions {
            has_header: true,
            delimiter: 0x2c,
            schema_infer_max_rec: Some(1000),
            batch_size: 8192,
            file_extension: String::from_str(".csv"),
            geometry_columns: Vec::new(),
        }
    }
}

impl CsvFormatOptions {
    /// Create new CSV format options with defaults.
    pub fn new() -> (r: Self)
        ensures
            r.has_header == true,
            r.delimiter == 0x2cu8,
            r.schema_infer_max_rec == Some(1000usize),
            r.batch_size == 8192usize,
            r.file_extension@ == ".csv"@,
            r.geometry_columns@.len() == 0,
    {
        Self::default()
    }

    /// Set whether the CSV has a header row.
    pub fn with_has_header(self, has_header: bool) -> (r: Self)
        ensures
            r == (CsvFormatOptions { has_header, ..self }),
    {
        CsvFormatOptions { has_header, ..self }
    }

    /// Set the delimiter byte.
    pub fn with_delimiter(self, delimiter: u8) -> (r: Self)
        ensures
            r == (CsvFormatOptions { delimiter, ..self }),
    {
        CsvFormatOptions { delimiter, ..self }
    }

    /// Set maximum records for schema inference.
    pub fn with_schema_infer_max_rec(self, max_rec: Option<usize>) -> (r: Self)
        ensures
            r == (CsvFormatOptions { schema_infer_max_rec: max_rec, ..self }),
    {
        CsvFormatOptions { schema_infer_max_rec: max_rec, ..self }
    }

    /// Set batch size for reading.
    pub fn with_batch_size(self, batch_size: usize) -> (r: Self)
        ensures
            r == (CsvFormatOptions { batch_size, ..self }),
    {
        CsvFormatOptions { batch_size, ..self }
    }

    /// Set the file extension.
    pub fn with_file_extension(self, ext: &str) -> (r: Self)
        ensures
            r.file_extension@ == ext@,
            r.has_header == self.has_header,
            r.delimiter == self.delimiter,
            r.schema_infer_max_rec == self.schema_infer_max_rec,
            r.batch_size == self.batch_size,
            r.geometry_columns == self.geometry_columns,
    {
        CsvFormatOptions { file_extension: String::from_str(ext), ..self }
    }

    /// Register a geometry column parsed from a WKT column.
    pub fn with_geometry_from_wkt(self, column: &str, geoarrow_type: GeometryKind) -> (r: Self)
        ensures
            r.geometry_columns@.len() == self.geometry_columns@.len() + 1,
            ({
                let added = r.geometry_columns@.last();
                &&& added.field_name@ == column@
                &&& added.geoarrow_type == geoarrow_type
                &&& added.source matches GeometrySource::Wkt { column: c } && c@ == column@
            }),
            r.has_header == self.has_header,
            r.delimiter == self.delimiter,
            r.schema_infer_max_rec == self.schema_infer_max_rec,
            r.batch_size == self.batch_size,
            r.file_extension == self.file_extension,
    {
        let mut opts = self;
        opts.geometry_columns.push(
            GeometryColumnOptions {
                field_name: String::from_str(column),
                geoarrow_type,
                source: GeometrySource::Wkt { column: String::from_str(column) },
            },
        );
        opts
    }

    /// Get the file extension with a leading dot.
    pub fn file_extension_with_dot(&self) -> (r: String)
        ensures
            r@ == spec_with_dot(self.file_extension@),
    {
        extension_with_dot(self.file_extension.as_str())
    }
}

/// An extension with a leading dot: kept as it is when it already starts
/// with `.`, prefixed with `.` otherwise.
pub open spec fn spec_with_dot(ext: Seq<char>) -> Seq<char> {
    if ext.len() > 0 && ext[0] == '.' {
        ext
    } else {
        "."@ + ext
    }
}

/// Prefix an extension with a dot unless it already has one.
pub fn extension_with_dot(ext: &str) -> (r: String)
    ensures
        r@ == spec_with_dot(ext@),
{
    if ext.unicode_len() > 0 && ext.get_char(0) == '.' {
        ext.to_owned()
    } else {
        let mut s = String::from_str(".");
        s.append(ext);
        s
    }
}

/// Options controlling GeoJSON reading behaviour.
#[derive(Debug, Clone)]
pub struct GeoJsonFormatOptions {
    /// Maximum number of features to sample for schema inference.
    pub schema_infer_max_features: Option<usize>,
    /// Target batch size when producing record batches.
    pub batch_size: usize,
    /// File extension to look for when listing datasets.
    pub file_extension: String,
    /// Name of the geometry column in the output schema.
    pub geometry_column_name: String,
    /// Geometry type to emit.
    pub geometry_type: GeometryKind,
}

impl Default for GeoJsonFormatOptions {
    /// A thousand-odd features of inference, batches of 8192, `.geojson`
    /// files, a column named `geometry` of unconstrained geometry type.
    fn default() -> (r: Self)
        ensures
            r.schema_infer_max_features == Some(1024usize),
            r.batch_size == 8192usize,
            r.file_extension@ == ".geojson"@,
            r.geometry_column_name@ == "geometry"@,
            r.geometry_type == GeometryKind::Geometry,
    {
        GeoJsonFormatOptions {
            schema_infer_max_features: Some(1024),
            batch_size: 8192,
            file_extension: String::from_str(".geojson"),
            geometry_column_name: String::from_str("geometry"),
            geometry_type: GeometryKind::Geometry,
        }
    }
}

impl GeoJsonFormatOptions {
    /// Create new GeoJSON format options with defaults.
    pub fn new() -> (r: Self)
        ensures
            r.schema_infer_max_features == Some(1024usize),
            r.batch_size == 8192usize,
            r.file_extension@ == ".geojson"@,
            r.geometry_column_name@ == "geometry"@,
            r.geometry_type == GeometryKind::Geometry,
    {
        Self::default()
    }

    /// Set the feature-sampling limit for schema inference.
    pub fn with_schema_infer_max_features(self, limit: Option<usize>) -> (r: Self)
        ensures
            r == (GeoJsonFormatOptions { schema_infer_max_features: limit, ..self }),
    {
        GeoJsonFormatOptions { schema_infer_max_features: limit, ..self }
    }

    /// Set the batch size.
    pub fn with_batch_size(self, batch_size: usize) -> (r: Self)
        ensures
            r == (GeoJsonFormatOptions { batch_size, ..self }),
    {
        GeoJsonFormatOptions { batch_size, ..self }
    }

    /// Set the file extension.
    pub fn with_file_extension(self, extension: &str) -> (r: Self)
        ensures
            r.file_extension@ == extension@,
            r.schema_infer_max_features == self.schema_infer_max_features,
            r.batch_size == self.batch_size,
            r.geometry_column_name == self.geometry_column_name,
            r.geometry_type == self.geometry_type,
    {
        GeoJsonFormatOptions { file_extension: String::from_str(extension), ..self }
    }

    /// Set the geometry column name.
    pub fn with_geometry_column_name(self, name: &str) -> (r: Self)
        ensures
            r.geometry_column_name@ == name@,
            r.schema_infer_max_features == self.schema_infer_max_features,
            r.batch_size == self.batch_size,
            r.file_extension == self.file_extension,
            r.geometry_type == self.geometry_type,
    {
        GeoJsonFormatOptions { geometry_column_name: String::from_str(name), ..self }
    }

    /// Set the geometry type to emit.
    pub fn with_geometry_type(self, geometry_type: GeometryKind) -> (r: Self)
        ensures
            r == (GeoJsonFormatOptions { geometry_type, ..self }),
    {
        GeoJsonFormatOptions { geometry_type, ..self }
    }

    /// Get the file extension with a leading dot.
    pub fn file_extension_with_dot(&self) -> (r: String)
        ensures
            r@ == spec_with_dot(self.file_extension@),
    {
        extension_with_dot(self.file_extension.as_str())
    }
}

/// Options for GeoJSON writing.
#[derive(Debug, Clone)]
pub struct GeoJsonWriterOptions {
    /// Name of the geometry column (default: `geometry`).
    pub geometry_column_name: String,
    /// Write as `FeatureCollection` (default: true); otherwise
    /// newline-delimited features.
    pub feature_collection: bool,
    /// Pretty-print JSON output (default: false).
    pub pretty_print: bool,
}

impl Default for GeoJsonWriterOptions {
    /// A `geometry` column, one `FeatureCollection`, compact output.
    fn default() -> (r: Self)
        ensures
            r.geometry_column_name@ == "geometry"@,
            r.feature_collection == true,
            r.pretty_print == false,
    {
        GeoJsonWriterOptions {
            geometry_column_name: String::from_str("geometry"),
            feature_collection: true,
            pretty_print: false,
        }
    }
}

impl GeoJsonWriterOptions {
    /// Create new writer options with defaults.
    pub fn new() -> (r: Self)
        ensures
            r.geometry_column_name@ == "geometry"@,
            r.feature_collection == true,
            r.pretty_print == false,
    {
        Self::default()
    }

    /// Set the geometry column name.
    pub fn with_geometry_column(self, name: &str) -> (r: Self)
        ensures
            r.geometry_column_name@ == name@,
            r.feature_collection == self.feature_collection,
            r.pretty_print == self.pretty_print,
    {
        GeoJsonWriterOptions { geometry_column_name: String::from_str(name), ..self }
    }

    /// Set whether to write as `FeatureCollection`.
    pub fn with_feature_collection(self, feature_collection: bool) -> (r: Self)
        ensures
            r == (GeoJsonWriterOptions { feature_collection, ..self }),
    {
        GeoJsonWriterOptions { feature_collection, ..self }
    }

    /// Set whether to pretty-print JSON.
    pub fn with_pretty_print(self, pretty_print: bool) -> (r: Self)
        ensures
            r == (GeoJsonWriterOptions { pretty_print, ..self }),
    {
        GeoJsonWriterOptions { pretty_print, ..self }
    }
}

/// Options controlling GeoParquet reading behaviour.
#[derive(Debug, Clone)]
pub struct GeoParquetFormatOptions {
    /// Target batch size when producing record batches.
    pub batch_size: usize,
    /// File extension to look for when listing datasets.
    pub file_extension: String,
    /// Name of the geometry column in the output schema.
    pub geometry_column_name: String,
}

impl Default for GeoParquetFormatOptions {
    /// Batches of 8192, `.parquet` files, a column named `geometry`.
    fn default() -> (r: Self)
        ensures
            r.batch_size == 8192usize,
            r.file_extension@ == ".parquet"@,
            r.geometry_column_name@ == "geometry"@,
    {
        GeoParquetFormatOptions {
            batch_size: 8192,
            file_extension: String::from_str(".parquet"),
            geometry_column_name: String::from_str("geometry"),
        }
    }
}

impl GeoParquetFormatOptions {
    /// Create new GeoParquet format options with defaults.
    pub fn new() -> (r: Self)
        ensures
            r.batch_size == 8192usize,
            r.file_extension@ == ".parquet"@,
            r.geometry_column_name@ == "geometry"@,
    {
        Self::default()
    }

    /// Set the batch size.
    pub fn with_batch_size(self, batch_size: usize) -> (r: Self)
        ensures
            r == (GeoParquetFormatOptions { batch_size, ..self }),
    {
        GeoParquetFormatOptions { batch_size, ..self }
    }

    /// Set the file extension.
    pub fn with_file_extension(self, extension: &str) -> (r: Self)
        ensures
            r.file_extension@ == extension@,
            r.batch_size == self.batch_size,
            r.geometry_column_name == self.geometry_column_name,
    {
        GeoParquetFormatOptions { file_extension: String::from_str(extension), ..self }
    }

    /// Set the geometry column name.
    pub fn with_geometry_column_name(self, name: &str) -> (r: Self)
        ensures
            r.geometry_column_name@ == name@,
            r.batch_size == self.batch_size,
            r.file_extension == self.file_extension,
    {
        GeoParquetFormatOptions { geometry_column_name: String::from_str(name), ..self }
    }

    /// Get the file extension with a leading dot.
    pub fn file_extension_with_dot(&self) -> (r: String)
        ensures
            r@ == spec_with_dot(self.file_extension@),
    {
        extension_with_dot(self.file_extension.as_str())
    }
}

/// GeoParquet file format configuration.
#[derive(Debug, Clone)]
pub struct GeoParquetFormat {
    /// The reading options.
    pub options: GeoParquetFormatOptions,
}

impl GeoParquetFormat {
    /// Create the format from its options.
    pub fn new(options: GeoParquetFormatOptions) -> (r: Self)
        ensures
            r.options == options,
    {
        GeoParquetFormat { options }
    }
}

/// Builder for creating GeoParquet data sources.
#[derive(Debug)]
pub struct GeoParquetSourceBuilder {
    /// The options built so far.
    pub options: GeoParquetFormatOptions,
}

impl GeoParquetSourceBuilder {
    /// Start from the default options.
    pub fn new() -> (r: Self)
        ensures
            r.options.batch_size == 8192usize,
            r.options.file_extension@ == ".parquet"@,
            r.options.geometry_column_name@ == "geometry"@,
    {
        GeoParquetSourceBuilder { options: GeoParquetFormatOptions::default() }
    }

    /// Set the batch size.
    pub fn with_batch_size(self, batch_size: usize) -> (r: Self)
        ensures
            r.options.batch_size == batch_size,
            r.options.file_extension == self.options.file_extension,
            r.options.geometry_column_name == self.options.geometry_column_name,
    {
        GeoParquetSourceBuilder { options: self.options.with_batch_size(batch_size) }
    }

    /// Set the geometry column name.
    pub fn with_geometry_column_name(self, name: &str) -> (r: Self)
        ensures
            r.options.geometry_column_name@ == name@,
            r.options.batch_size == self.options.batch_size,
            r.options.file_extension == self.options.file_extension,
    {
        GeoParquetSourceBuilder { options: self.options.with_geometry_column_name(name) }
    }

    /// Finish, yielding the options.
    pub fn build(self) -> (r: GeoParquetFormatOptions)
        ensures
            r == self.options,
    {
        self.options
    }
}

/// GeoParquet file source holding the options the engine's file-source layer
/// scans with.
#[derive(Debug, Clone)]
pub struct GeoParquetFileSource {
    /// The reading options.
    pub options: GeoParquetFormatOptions,
}

impl GeoParquetFileSource {
    /// Create the file source from its options.
    pub fn new(options: GeoParquetFormatOptions) -> (r: Self)
        ensures
            r.options == options,
    {
        GeoParquetFileSource { options }
    }
}

/// The model of the CSV driver: every operation supported.
pub open spec fn csv_driver_model() -> DriverModel {
    DriverModel {
        short_name: "CSV"@,
        long_name: "Comma Separated Value (.csv)"@,
        capabilities: DriverCapabilities {
            info: SupportStatus::Supported,
            read: SupportStatus::Supported,
            write: SupportStatus::Supported,
        },
    }
}

/// The model of the GeoJSON driver: every operation supported.
pub open spec fn geojson_driver_model() -> DriverModel {
    DriverModel {
        short_name: "GeoJSON"@,
        long_name: "GeoJSON"@,
        capabilities: DriverCapabilities {
            info: SupportStatus::Supported,
            read: SupportStatus::Supported,
            write: SupportStatus::Supported,
        },
    }
}

/// The model of the GeoParquet driver: every operation supported.
pub open spec fn geoparquet_driver_model() -> DriverModel {
    DriverModel {
        short_name: "GeoParquet"@,
        long_name: "GeoParquet"@,
        capabilities: DriverCapabilities {
            info: SupportStatus::Supported,
            read: SupportStatus::Supported,
            write: SupportStatus::Supported,
        },
    }
}

/// Factory for the CSV format.
pub struct CsvFormatFactory;

impl CsvFormatFactory {
    /// The CSV driver's metadata.
    pub fn driver(&self) -> (r: Driver)
        ensures
            driver_model(r) == csv_driver_model(),
    {
        Driver::new(
            "CSV",
            "Comma Separated Value (.csv)",
            SupportStatus::Supported,
            SupportStatus::Supported,
            SupportStatus::Supported,
        )
    }
}

/// Factory for the GeoJSON format.
pub struct GeoJsonFormatFactory;

impl GeoJsonFormatFactory {
    /// The GeoJSON driver's metadata.
    pub fn driver(&self) -> (r: Driver)
        ensures
            driver_model(r) == geojson_driver_model(),
    {
        Driver::new(
            "GeoJSON",
            "GeoJSON",
            SupportStatus::Supported,
            SupportStatus::Supported,
            SupportStatus::Supported,
        )
    }
}

/// Factory for the GeoParquet format.
pub struct GeoParquetFormatFactory;

impl GeoParquetFormatFactory {
    /// The GeoParquet driver's metadata.
    pub fn driver(&self) -> (r: Driver)
        ensures
            driver_model(r) == geoparquet_driver_model(),
    {
        Driver::new(
            "GeoParquet",
            "GeoParquet",
            SupportStatus::Supported,
            SupportStatus::Supported,
            SupportStatus::Supported,
        )
    }
}

/// What registering one driver does to a registry's models.
pub open spec fn registered(
    before: Seq<DriverModel>,
    after: Seq<DriverModel>,
    m: DriverModel,
) -> bool {
    if exists|k: int| 0 <= k < before.len() && #[trigger] before[k].short_name == m.short_name {
        after == before
    } else {
        after == before.push(m)
    }
}

/// Register one driver, by model.
fn register_driver(registry: &mut DriverRegistry, driver: Driver)
    ensures
        registered(
            driver_models(old(registry).drivers@),
            driver_models(final(registry).drivers@),
            driver_model(driver),
        ),
{
    let ghost olds = registry.drivers@;
    let ghost before = driver_models(olds);
    let ghost d_model = driver_model(driver);
    let added = registry.register(driver);
    proof {
        if added {
            assert(driver_models(registry.drivers@) =~= before.push(d_model));
            assert forall|k: int|
                0 <= k < before.len() implies !(#[trigger] before[k].short_name
                == d_model.short_name) by {
                assert(before[k].short_name == olds[k].short_name@);
            }
        } else {
            let k = choose|k: int|
                0 <= k < olds.len() && #[trigger] olds[k].short_name@ == d_model.short_name;
            assert(before[k].short_name == d_model.short_name);
        }
    }
}

/// Registers the CSV format's driver with the given registry.
pub fn register_csv_format(registry: &mut DriverRegistry)
    ensures
        registered(
            driver_models(old(registry).drivers@),
            driver_models(final(registry).drivers@),
            csv_driver_model(),
        ),
{
    let factory = CsvFormatFactory;
    register_driver(registry, factory.driver());
}

/// Registers the GeoJSON format's driver with the given registry.
pub fn register_geojson_format(registry: &mut DriverRegistry)
    ensures
        registered(
            driver_models(old(registry).drivers@),
            driver_models(final(registry).drivers@),
            geojson_driver_model(),
        ),
{
    let factory = GeoJsonFormatFactory;
    register_driver(registry, factory.driver());
}

/// Registers the GeoParquet format's driver with the given registry.
pub fn register_geoparquet_format(registry: &mut DriverRegistry)
    ensures
        registered(
            driver_models(old(registry).drivers@),
            driver_models(final(registry).drivers@),
            geoparquet_driver_model(),
        ),
{
    let factory = GeoParquetFormatFactory;
    register_driver(registry, factory.driver());
}

/// Reader options for the formats whose read path runs through this
/// library, as a closed sum: each format's options are carried in their own
/// variant and recovered by pattern match.
#[derive(Debug, Clone)]
pub enum ReaderOptions {
    /// CSV reading options.
    Csv(CsvFormatOptions),
    /// GeoJSON reading options.
    GeoJson(GeoJsonFormatOptions),
}

/// The geometry kind a name denotes, ignoring ASCII case; `None` for an
/// unknown name.
pub open spec fn spec_geometry_kind(s: Seq<char>) -> Option<GeometryKind> {
    if eq_ignore_case(s, "geometry"@) {
        Some(GeometryKind::Geometry)
    } else if eq_ignore_case(s, "point"@) {
        Some(GeometryKind::Point)
    } else if eq_ignore_case(s, "linestring"@) {
        Some(GeometryKind::LineString)
    } else if eq_ignore_case(s, "polygon"@) {
        Some(GeometryKind::Polygon)
    } else if eq_ignore_case(s, "multipoint"@) {
        Some(GeometryKind::MultiPoint)
    } else if eq_ignore_case(s, "multilinestring"@) {
        Some(GeometryKind::MultiLineString)
    } else if eq_ignore_case(s, "multipolygon"@) {
        Some(GeometryKind::MultiPolygon)
    } else {
        None
    }
}

/// Parse a geometry type name, ignoring ASCII case.
pub fn parse_geometry_type(geom_type_str: &str) -> (r: Result<GeometryKind, GeoEtlError>)
    ensures
        r matches Ok(k) ==> spec_geometry_kind(geom_type_str@) == Some(k),
        r matches Err(e) ==> spec_geometry_kind(geom_type_str@) is None && (e matches
            GeoEtlError::Format(FormatError::UnsupportedGeometryType { geometry_type })
            && geometry_type@ == geom_type_str@),
{
    proof {
        reveal_strlit("geometry");
        reveal_strlit("point");
        reveal_strlit("linestring");
        reveal_strlit("polygon");
        reveal_strlit("multipoint");
        reveal_strlit("multilinestring");
        reveal_strlit("multipolygon");
    }
    if str_eq_ignore_ascii_case(geom_type_str, "geometry") {
        Ok(GeometryKind::Geometry)
    } else if str_eq_ignore_ascii_case(geom_type_str, "point") {
        Ok(GeometryKind::Point)
    } else if str_eq_ignore_ascii_case(geom_type_str, "linestring") {
        Ok(GeometryKind::LineString)
    } else if str_eq_ignore_ascii_case(geom_type_str, "polygon") {
        Ok(GeometryKind::Polygon)
    } else if str_eq_ignore_ascii_case(geom_type_str, "multipoint") {
        Ok(GeometryKind::MultiPoint)
    } else if str_eq_ignore_ascii_case(geom_type_str, "multilinestring") {
        Ok(GeometryKind::MultiLineString)
    } else if str_eq_ignore_ascii_case(geom_type_str, "multipolygon") {
        Ok(GeometryKind::MultiPolygon)
    } else {
        Err(
            GeoEtlError::Format(
                FormatError::UnsupportedGeometryType {
                    geometry_type: String::from_str(geom_type_str),
                },
            ),
        )
    }
}

/// Prepare the reader options for a driver: CSV gets a WKT geometry column
/// of the requested type (`Geometry` when none is named), GeoJSON gets the
/// requested batch size, and any other driver is not registered for reading
/// through this path.
pub fn prepare_reader_options(
    driver_name: &str,
    geometry_column: &str,
    geometry_type: Option<&str>,
    batch_size: usize,
) -> (r: Result<ReaderOptions, GeoEtlError>)
    ensures
        driver_name@ == "CSV"@ ==> (r matches Ok(ReaderOptions::Csv(o)) || r is Err),
        driver_name@ == "GeoJSON"@ ==> (r matches Ok(ReaderOptions::GeoJson(o)) && o.batch_size
            == batch_size),
        !(driver_name@ == "CSV"@) && !(driver_name@ == "GeoJSON"@) ==> (r matches Err(e)
            && e matches GeoEtlError::Driver(DriverError::NotRegistered { driver }) && driver@
            == driver_name@),
{
    if str_eq(driver_name, "CSV") {
        proof {
            reveal_strlit("CSV");
            reveal_strlit("GeoJSON");
            assert("CSV"@.len() == 3);
            assert("GeoJSON"@.len() == 7);
            assert(!(driver_name@ == "GeoJSON"@));
        }
        let kind = match geometry_type {
            Some(s) => parse_geometry_type(s),
            None => parse_geometry_type("Geometry"),
        };
        match kind {
            Ok(k) => {
                let options = CsvFormatOptions::new().with_geometry_from_wkt(geometry_column, k);
                Ok(ReaderOptions::Csv(options))
            },
            Err(e) => Err(e),
        }
    } else if str_eq(driver_name, "GeoJSON") {
        let options = GeoJsonFormatOptions::default().with_batch_size(batch_size);
        Ok(ReaderOptions::GeoJson(options))
    } else {
        Err(
            GeoEtlError::Driver(
                DriverError::NotRegistered { driver: String::from_str(driver_name) },
            ),
        )
    }
}

/// Exact string equality, decided character by character.
pub fn str_eq(a: &str, b: &str) -> (r: bool)
    ensures
        r == (a@ == b@),
{
    let na = a.unicode_len();
    let nb = b.unicode_len();
    if na != nb {
        proof {
            assert(a@.len() != b@.len());
        }
        return false;
    }
    let mut i: usize = 0;
    while i < na
        invariant
            na == a@.len(),
            nb == b@.len(),
            na == nb,
            0 <= i <= na,
            forall|j: int| 0 <= j < i ==> a@[j] == b@[j],
        decreases na - i,
    {
        if a.get_char(i) != b.get_char(i) {
            return false;
        }
        i = i + 1;
    }
    proof {
        assert(a@ =~= b@);
    }
    true
}

/// Build the standard driver registry: the built-in formats (CSV, GeoJSON,
/// GeoParquet), registered in that order.  Call once at startup and pass the
/// registry by reference; tests may build isolated registries of their own.
pub fn initialize() -> (r: DriverRegistry)
    ensures
        driver_models(r.drivers@) == seq![
            csv_driver_model(),
            geojson_driver_model(),
            geoparquet_driver_model(),
        ],
{
    proof {
        reveal_strlit("CSV");
        reveal_strlit("GeoJSON");
        reveal_strlit("GeoParquet");
        assert("CSV"@.len() == 3 && "GeoJSON"@.len() == 7 && "GeoParquet"@.len() == 10);
    }
    let mut registry = DriverRegistry::new();
    register_csv_format(&mut registry);
    proof {
        assert(driver_models(registry.drivers@) =~= seq![csv_driver_model()]);
    }
    register_geojson_format(&mut registry);
    proof {
        assert(driver_models(registry.drivers@) =~= seq![
            csv_driver_model(),
            geojson_driver_model(),
        ]);
    }
    register_geoparquet_format(&mut registry);
    proof {
        assert(driver_models(registry.drivers@) =~= seq![
            csv_driver_model(),
            geojson_driver_model(),
            geoparquet_driver_model(),
        ]);
    }
    registry
}

} // verus!
