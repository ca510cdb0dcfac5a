use cfd_raytrace::Error;

#[test]
fn messages_name_the_failure() {
    assert_eq!(Error::NPZ.message(), "failed to open npz data file");
    assert_eq!(Error::Read.message(), "failed to read variable");
    assert_eq!(Error::CSV.message(), "failed to read csv data");
    assert_eq!(Error::UTF8.message(), "failed to parse UTF8");
    assert_eq!(Error::Surfaces.message(), "failed to find the four surfaces");
    assert_eq!(
        Error::Rows.message(),
        "failed to match surface rows with the mask"
    );
}

#[test]
fn errors_compare_by_variant() {
    assert_eq!(Error::CSV, Error::CSV);
    assert_ne!(Error::CSV, Error::Read);
    assert_eq!(format!("{:?}", Error::Rows), "Rows");
}
