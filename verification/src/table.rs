//! The table of flow samples: a gzip member that holds comma-separated
//! text, one sample per record, its columns found by the names in the
//! first record.
//!
//! The table is read as text. Turning a field into a number is left to the
//! caller, who knows the number type.

use crate::cfd::TemperatureVelocityField;
use crate::error::Error;
use crate::outside::{
    csv_header, csv_records, fields_of, gunzip, inflate, read_header, read_records, records_of,
};
use vstd::prelude::*;

verus! {

/// Name of the column that holds the temperature.
pub const TEMPERATURE: &'static str = "Temperature (K)";

/// Name of the column that holds the magnitude of the velocity.
pub const VELOCITY: &'static str = "Velocity: Magnitude (m/s)";

/// Name of the column that holds the first coordinate.
pub const X: &'static str = "X (m)";

/// Name of the column that holds the second coordinate.
pub const Y: &'static str = "Y (m)";

/// Name of the column that holds the third coordinate.
pub const Z: &'static str = "Z (m)";

/// Where the columns of a sample stand in a record.
#[derive(Debug, Clone, Copy, PartialEq, Eq, Structural)]
pub struct Columns {
    pub temperature: usize,
    pub velocity: Option<usize>,
    pub x: usize,
    pub y: usize,
    pub z: usize,
}

/// A sample as the table holds it: every field as text.
pub type SampleText = TemperatureVelocityField<Seq<char>>;

/// Field `i` of the header is the only one called `name`.
pub open spec fn is_at(header: Seq<Seq<char>>, name: Seq<char>, i: int) -> bool {
    &&& 0 <= i < header.len()
    &&& header[i] == name
    &&& forall|j: int| 0 <= j < header.len() && j != i ==> header[j] != name
}

/// No field of the header is called `name`.
pub open spec fn is_missing(header: Seq<Seq<char>>, name: Seq<char>) -> bool {
    forall|j: int| 0 <= j < header.len() ==> header[j] != name
}

/// Exactly one field of the header is called `name`.
pub open spec fn once(header: Seq<Seq<char>>, name: Seq<char>) -> bool {
    exists|i: int| is_at(header, name, i)
}

/// The place of the one field called `name`.
pub open spec fn place(header: Seq<Seq<char>>, name: Seq<char>) -> int {
    choose|i: int| is_at(header, name, i)
}

/// The header names every column that a sample needs once, and the
/// velocity at most once.
pub open spec fn names_columns(header: Seq<Seq<char>>) -> bool {
    &&& once(header, TEMPERATURE@)
    &&& once(header, X@)
    &&& once(header, Y@)
    &&& once(header, Z@)
    &&& (once(header, VELOCITY@) || is_missing(header, VELOCITY@))
}

/// The columns that a header names.
pub open spec fn named_columns(header: Seq<Seq<char>>) -> Columns {
    Columns {
        temperature: place(header, TEMPERATURE@) as usize,
        velocity: if once(header, VELOCITY@) {
            Some(place(header, VELOCITY@) as usize)
        } else {
            None
        },
        x: place(header, X@) as usize,
        y: place(header, Y@) as usize,
        z: place(header, Z@) as usize,
    }
}

/// The columns of a table without names: temperature, velocity and the
/// three coordinates, in this order.
pub open spec fn columns_in_order() -> Columns {
    Columns { temperature: 0, velocity: Some(1), x: 2, y: 3, z: 4 }
}

/// The record has a field for every column.
pub open spec fn covers(record: Seq<Seq<char>>, columns: Columns) -> bool {
    &&& columns.temperature < record.len()
    &&& columns.x < record.len()
    &&& columns.y < record.len()
    &&& columns.z < record.len()
    &&& (columns.velocity matches Some(v) ==> v < record.len())
}

/// The sample that a record holds. An empty velocity field is no velocity.
pub open spec fn sample_of(record: Seq<Seq<char>>, columns: Columns) -> SampleText {
    TemperatureVelocityField {
        temperature: record[columns.temperature as int],
        velocity: match columns.velocity {
            Some(v) => if record[v as int].len() == 0 {
                None
            } else {
                Some(record[v as int])
            },
            None => None,
        },
        x: record[columns.x as int],
        y: record[columns.y as int],
        z: record[columns.z as int],
    }
}

/// The columns of a table: those that its header names, or the columns in
/// order where the table has no readable header. Nothing where the header
/// does not name what a sample needs.
pub open spec fn columns_of(header: Option<Seq<Seq<char>>>) -> Option<Columns> {
    match header {
        Some(names) => if names_columns(names) {
            Some(named_columns(names))
        } else {
            None
        },
        None => Some(columns_in_order()),
    }
}

/// The samples of a table. A table without records has no samples,
/// whatever its header. Otherwise every record must have a field for every
/// column.
pub open spec fn samples_of(header: Option<Seq<Seq<char>>>, records: Seq<Seq<Seq<char>>>) -> Result<
    Seq<SampleText>,
    Error,
> {
    if records.len() == 0 {
        Ok(Seq::empty())
    } else {
        match columns_of(header) {
            Some(columns) => if forall|i: int|
                0 <= i < records.len() ==> covers(#[trigger] records[i], columns) {
                Ok(Seq::new(records.len(), |i: int| sample_of(records[i], columns)))
            } else {
                Err(Error::CSV)
            },
            None => Err(Error::CSV),
        }
    }
}

/// A sample with its fields as sequences of characters.
pub open spec fn text_of(sample: TemperatureVelocityField<String>) -> SampleText {
    TemperatureVelocityField {
        temperature: sample.temperature@,
        velocity: match sample.velocity {
            Some(v) => Some(v@),
            None => None,
        },
        x: sample.x@,
        y: sample.y@,
        z: sample.z@,
    }
}

/// The samples of a result, each with its fields as sequences of
/// characters.
pub open spec fn texts_of(r: Result<Vec<TemperatureVelocityField<String>>, Error>) -> Result<
    Seq<SampleText>,
    Error,
> {
    match r {
        Ok(samples) => Ok(samples@.map_values(|s: TemperatureVelocityField<String>| text_of(s))),
        Err(e) => Err(e),
    }
}

/// How often a name stands in a header.
#[derive(Debug, Clone, Copy, PartialEq, Eq, Structural)]
pub enum Found {
    /// Not at all.
    Missing,
    /// Once, at this place.
    At(usize),
    /// More than once.
    Repeated,
}

/// Looks a name up in a header.
pub fn find(header: &Vec<String>, name: &str) -> (f: Found)
    ensures
        match f {
            Found::Missing => is_missing(fields_of(header@), name@),
            Found::At(i) => is_at(fields_of(header@), name@, i as int),
            Found::Repeated => !once(fields_of(header@), name@) && !is_missing(
                fields_of(header@),
                name@,
            ),
        },
{
    let wanted = name.to_owned();
    let ghost names = fields_of(header@);
    let mut found = Found::Missing;
    let mut i: usize = 0;
    while i < header.len()
        invariant
            i <= header.len(),
            wanted@ == name@,
            names == fields_of(header@),
            match found {
                Found::Missing => forall|j: int| 0 <= j < i ==> names[j] != name@,
                Found::At(k) => k < i && names[k as int] == name@ && forall|j: int|
                    0 <= j < i && j != k ==> names[j] != name@,
                Found::Repeated => exists|k: int, l: int|
                    0 <= k < l < i && names[k] == name@ && names[l] == name@,
            },
        decreases header.len() - i,
    {
        assert(names[i as int] == header@[i as int]@);
        if header[i] == wanted {
            match found {
                Found::Missing => {
                    found = Found::At(i);
                },
                Found::At(k) => {
                    assert(names[k as int] == name@ && names[i as int] == name@);
                    found = Found::Repeated;
                },
                Found::Repeated => {},
            }
        }
        i = i + 1;
    }
    proof {
        if found == Found::Repeated {
            let (k, l) = choose|k: int, l: int|
                0 <= k < l < names.len() && names[k] == name@ && names[l] == name@;
            assert forall|p: int| !is_at(names, name@, p) by {
                if is_at(names, name@, p) {
                    if p == k {
                        assert(names[l] != name@);
                    } else {
                        assert(names[k] != name@);
                    }
                }
            }
            assert(!is_missing(names, name@)) by {
                if is_missing(names, name@) {
                    assert(names[k] != name@);
                }
            }
        }
    }
    found
}

/// Where exactly one field is called `name`, nothing else is at its place.
proof fn lemma_place(header: Seq<Seq<char>>, name: Seq<char>, i: int)
    requires
        is_at(header, name, i),
    ensures
        once(header, name),
        !is_missing(header, name),
        place(header, name) == i,
{
    let p = place(header, name);
    assert(is_at(header, name, p));
    if p != i {
        assert(header[p] != name);
    }
}

/// Finds the columns that a header names.
pub fn find_columns(header: &Vec<String>) -> (r: Option<Columns>)
    ensures
        r is Some <==> names_columns(fields_of(header@)),
        r matches Some(columns) ==> columns == named_columns(fields_of(header@)),
{
    let ghost names = fields_of(header@);
    let temperature = find(header, TEMPERATURE);
    let velocity = find(header, VELOCITY);
    let x = find(header, X);
    let y = find(header, Y);
    let z = find(header, Z);
    match (temperature, x, y, z) {
        (Found::At(t), Found::At(x), Found::At(y), Found::At(z)) => {
            proof {
                lemma_place(names, TEMPERATURE@, t as int);
                lemma_place(names, X@, x as int);
                lemma_place(names, Y@, y as int);
                lemma_place(names, Z@, z as int);
            }
            match velocity {
                Found::At(v) => {
                    proof {
                        lemma_place(names, VELOCITY@, v as int);
                    }
                    Some(Columns { temperature: t, velocity: Some(v), x, y, z })
                },
                Found::Missing => {
                    proof {
                        assert(!once(names, VELOCITY@)) by {
                            if once(names, VELOCITY@) {
                                assert(names[place(names, VELOCITY@)] == VELOCITY@);
                            }
                        }
                    }
                    Some(Columns { temperature: t, velocity: None, x, y, z })
                },
                Found::Repeated => None,
            }
        },
        _ => {
            proof {
                assert(!names_columns(names)) by {
                    if names_columns(names) {
                        lemma_place(names, TEMPERATURE@, place(names, TEMPERATURE@));
                        lemma_place(names, X@, place(names, X@));
                        lemma_place(names, Y@, place(names, Y@));
                        lemma_place(names, Z@, place(names, Z@));
                    }
                }
            }
            None
        },
    }
}

/// Takes the sample out of a record, where the record has a field for
/// every column.
pub fn pick(record: &Vec<String>, columns: &Columns) -> (r: Option<
    TemperatureVelocityField<String>,
>)
    ensures
        r is Some <==> covers(fields_of(record@), *columns),
        r matches Some(sample) ==> text_of(sample) == sample_of(fields_of(record@), *columns),
{
    let n = record.len();
    if columns.temperature >= n || columns.x >= n || columns.y >= n || columns.z >= n {
        return None;
    }
    let velocity = match columns.velocity {
        Some(v) => {
            if v >= n {
                return None;
            }
            if record[v].as_str().is_empty() {
                None
            } else {
                Some(record[v].clone())
            }
        },
        None => None,
    };
    Some(
        TemperatureVelocityField {
            temperature: record[columns.temperature].clone(),
            velocity,
            x: record[columns.x].clone(),
            y: record[columns.y].clone(),
            z: record[columns.z].clone(),
        },
    )
}

/// Reads the samples of a table from its header, if it has a readable one,
/// and its records.
pub fn samples_from_table(header: Option<&Vec<String>>, records: &Vec<Vec<String>>) -> (r: Result<
    Vec<TemperatureVelocityField<String>>,
    Error,
>)
    ensures
        texts_of(r) == samples_of(
            match header {
                Some(names) => Some(fields_of(names@)),
                None => None,
            },
            records_of(records@),
        ),
{
    let ghost names = match header {
        Some(names) => Some(fields_of(names@)),
        None => None,
    };
    let ghost table = records_of(records@);
    let mut samples: Vec<TemperatureVelocityField<String>> = Vec::new();
    if records.len() == 0 {
        proof {
            assert(texts_of(Ok(samples))->Ok_0 =~= Seq::<SampleText>::empty());
        }
        return Ok(samples);
    }
    let found = match header {
        Some(names) => find_columns(names),
        None => Some(Columns { temperature: 0, velocity: Some(1), x: 2, y: 3, z: 4 }),
    };
    let columns = match found {
        Some(columns) => columns,
        None => {
            return Err(Error::CSV);
        },
    };
    assert(columns_of(names) == Some(columns));
    let mut i: usize = 0;
    while i < records.len()
        invariant
            i <= records.len(),
            table == records_of(records@),
            columns_of(names) == Some(columns),
            names == match header {
                Some(names) => Some(fields_of(names@)),
                None => None,
            },
            samples@.len() == i,
            forall|j: int| 0 <= j < i ==> covers(#[trigger] table[j], columns),
            forall|j: int|
                0 <= j < i ==> text_of(#[trigger] samples@[j]) == sample_of(table[j], columns),
        decreases records.len() - i,
    {
        assert(table[i as int] == fields_of(records@[i as int]@));
        match pick(&records[i], &columns) {
            Some(sample) => {
                samples.push(sample);
            },
            None => {
                assert(!covers(table[i as int], columns));
                return Err(Error::CSV);
            },
        }
        i = i + 1;
    }
    proof {
        let got = samples@.map_values(|s: TemperatureVelocityField<String>| text_of(s));
        let want = Seq::new(table.len(), |i: int| sample_of(table[i], columns));
        assert(got =~= want);
    }
    Ok(samples)
}

/// The samples that a compressed table holds: the gzip member is inflated,
/// the text is split into records, and the samples are read from them.
pub open spec fn samples_in(bytes: Seq<u8>) -> Result<Seq<SampleText>, Error> {
    match gunzip(bytes) {
        None => Err(Error::Read),
        Some(text) => match csv_records(text) {
            None => Err(Error::CSV),
            Some(records) => samples_of(csv_header(text), records),
        },
    }
}

/// Interface to compressed CFD optical turbulence csv data
pub trait FromCompressedCsv: Sized {
    /// Loads the samples of a compressed csv table from its bytes.
    fn from_gz(bytes: &[u8]) -> Result<Self, Error>;
}

impl FromCompressedCsv for Vec<TemperatureVelocityField<String>> {
    /// Loads the samples of a compressed csv table, each field as text.
    ///
    /// Bytes that cannot be inflated give `Error::Read`; text that cannot
    /// be split into records, a header that does not name the columns, and
    /// a record too short for them give `Error::CSV`.
    fn from_gz(bytes: &[u8]) -> (r: Result<Self, Error>)
        ensures
            texts_of(r) == samples_in(bytes@),
    {
        let text = match inflate(bytes) {
            Ok(text) => text,
            Err(_) => {
                return Err(Error::Read);
            },
        };
        let records = match read_records(text.as_slice()) {
            Some(records) => records,
            None => {
                return Err(Error::CSV);
            },
        };
        let header = read_header(text.as_slice());
        samples_from_table(header.as_ref(), &records)
    }
}

} // verus!
