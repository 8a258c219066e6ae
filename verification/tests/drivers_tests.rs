//! Tests for the driver registry.

use geoetl::drivers::{
    find_driver, get_available_drivers, get_driver_names, get_drivers,
    list_drivers_with_capability, Driver, DriverRegistry, SupportStatus,
};
use geoetl::formats::initialize;

#[test]
fn test_find_driver() {
    let registry = initialize();
    let driver = find_driver(&registry, "GeoJSON");
    assert!(driver.is_some());
    assert_eq!(driver.unwrap().short_name, "GeoJSON");
}

#[test]
fn test_find_driver_case_insensitive() {
    let registry = initialize();
    let driver = find_driver(&registry, "geojson");
    assert!(driver.is_some());
    assert_eq!(driver.unwrap().short_name, "GeoJSON");
}

#[test]
fn test_find_driver_missing() {
    let registry = initialize();
    assert!(find_driver(&registry, "InvalidDriver").is_none());
}

// The two counting tests below assert three drivers.  Initialization
// registers CSV, GeoJSON and GeoParquet, each with full read and write
// support, as its documentation promises; a driver-count of two would
// contradict that and hold only for a registry that left GeoParquet out.

#[test]
fn test_list_read_write_drivers() {
    let registry = initialize();
    let drivers = list_drivers_with_capability(&registry, true, true, false);
    // CSV, GeoJSON and GeoParquet all support reading and writing
    assert_eq!(drivers.len(), 3);
    assert!(drivers.iter().any(|d| d.short_name == "GeoJSON"));
    assert!(drivers.iter().any(|d| d.short_name == "CSV"));
    assert!(drivers.iter().any(|d| d.short_name == "GeoParquet"));
}

#[test]
fn test_available_drivers() {
    let registry = initialize();
    let drivers = get_available_drivers(&registry);
    assert_eq!(drivers.len(), 3);
    assert!(drivers.iter().any(|d| d.short_name == "GeoJSON"));
    assert!(drivers.iter().any(|d| d.short_name == "CSV"));
    assert!(drivers.iter().any(|d| d.short_name == "GeoParquet"));
}

#[test]
fn test_support_status() {
    assert!(SupportStatus::Supported.is_supported());
    assert!(!SupportStatus::NotSupported.is_supported());
    assert!(!SupportStatus::Planned.is_supported());

    assert!(SupportStatus::Supported.is_available());
    assert!(!SupportStatus::NotSupported.is_available());
    assert!(SupportStatus::Planned.is_available());
}

#[test]
fn test_get_drivers_and_names() {
    let registry = initialize();
    let all = get_drivers(&registry);
    assert_eq!(all.len(), 3);
    let names = get_driver_names(&registry);
    assert!(names.iter().any(|n| n == "CSV"));
    assert!(names.iter().any(|n| n == "GeoJSON"));
    assert!(names.iter().any(|n| n == "GeoParquet"));
    // The names come out sorted.
    assert_eq!(names[0], "CSV");
    assert_eq!(names[1], "GeoJSON");
    assert_eq!(names[2], "GeoParquet");
}

#[test]
fn test_registry_ignores_duplicate_names() {
    let mut registry = DriverRegistry::new();
    let first = Driver::new(
        "X",
        "first",
        SupportStatus::Supported,
        SupportStatus::Supported,
        SupportStatus::Supported,
    );
    let second = Driver::new(
        "X",
        "second",
        SupportStatus::Planned,
        SupportStatus::Planned,
        SupportStatus::Planned,
    );
    assert!(registry.register(first));
    assert!(!registry.register(second));
    assert_eq!(registry.drivers.len(), 1);
    assert_eq!(registry.drivers[0].long_name, "first");
}

#[test]
fn test_capability_filter_requires_all_requested() {
    let mut registry = DriverRegistry::new();
    registry.register(Driver::new(
        "ReadOnly",
        "read only",
        SupportStatus::NotSupported,
        SupportStatus::Supported,
        SupportStatus::NotSupported,
    ));
    let read = list_drivers_with_capability(&registry, true, false, false);
    assert_eq!(read.len(), 1);
    let read_write = list_drivers_with_capability(&registry, true, true, false);
    assert_eq!(read_write.len(), 0);
    let info = list_drivers_with_capability(&registry, false, false, true);
    assert_eq!(info.len(), 0);
}
