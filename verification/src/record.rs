//! The row normalizer and the pipeline driver. A raw row is an ordered
//! sequence of text cells; only cells 1 through 9 are consumed (cell 0 is
//! ignored, e.g. a timestamp column). A row with fewer than ten cells is
//! rejected; on any other row each field sanitizer runs on its designated
//! cell, independently, and the results are assembled positionally. Only
//! the preference sanitizer can fail, and its failure is recovered right
//! here by substituting the neutral value, so a valid row always yields
//! exactly one record.

use vstd::prelude::*;
use crate::age::age_spec;
use crate::age::sanitize_age;
use crate::answers::interested_spec;
use crate::answers::know_spec;
use crate::answers::preference_spec;
use crate::answers::sanitize_interested;
use crate::answers::sanitize_know;
use crate::answers::sanitize_preference;
use crate::chars::str_views;
use crate::cities::cities_spec;
use crate::cities::sanitize_cities;
use crate::colors::colors_spec;
use crate::colors::sanitize_colors;
use crate::marks::marks_spec;
use crate::marks::sanitize_marks;

verus! {

/// One respondent's normalized answers.
pub struct MixShoesData {
    /// Copied verbatim from cell 1.
    pub email: String,
    /// The compacted age text from cell 2.
    pub age: String,
    /// The permissive boolean from cell 3.
    pub interested: bool,
    /// The conservative boolean from cell 4.
    pub know: bool,
    /// The preference ordinal from cell 5, neutral when unrecognized.
    pub preference: i32,
    /// The city tokens from cell 6.
    pub cities: Vec<String>,
    /// The brand tokens from cell 7.
    pub marks: Vec<String>,
    /// The color tokens from cell 8.
    pub colors: Vec<String>,
    /// Copied verbatim from cell 9.
    pub sizes: String,
}

/// The mathematical content of a [`MixShoesData`].
pub struct RecordView {
    pub email: Seq<char>,
    pub age: Seq<char>,
    pub interested: bool,
    pub know: bool,
    pub preference: int,
    pub cities: Seq<Seq<char>>,
    pub marks: Seq<Seq<char>>,
    pub colors: Seq<Seq<char>>,
    pub sizes: Seq<char>,
}

impl View for MixShoesData {
    type V = RecordView;

    open spec fn view(&self) -> RecordView {
        RecordView {
            email: self.email@,
            age: self.age@,
            interested: self.interested,
            know: self.know,
            preference: self.preference as int,
            cities: str_views(self.cities@),
            marks: str_views(self.marks@),
            colors: str_views(self.colors@),
            sizes: self.sizes@,
        }
    }
}

/// A row with fewer than ten cells cannot be normalized.
#[derive(Clone, Copy, PartialEq, Eq, Structural, Debug)]
pub struct RowTooShortError;

/// The record a valid row normalizes to: each sanitizer on its designated
/// cell, an unrecognized preference category recovered to the neutral
/// value.
pub open spec fn record_spec(cells: Seq<Seq<char>>) -> RecordView
    recommends
        cells.len() >= 10,
{
    RecordView {
        email: cells[1],
        age: age_spec(cells[2]),
        interested: interested_spec(cells[3]),
        know: know_spec(cells[4]),
        preference: (match preference_spec(cells[5]) {
            Ok(v) => v as int,
            Err(_) => 0,
        }),
        cities: cities_spec(cells[6]),
        marks: marks_spec(cells[7]),
        colors: colors_spec(cells[8]),
        sizes: cells[9],
    }
}

/// Normalizes one row and appends the record to `listing`; a row with
/// fewer than ten cells is rejected and `listing` is left as it was.
pub fn clean_data(record: &Vec<String>, listing: &mut Vec<MixShoesData>) -> (r: Result<
    (),
    RowTooShortError,
>)
    ensures
        match r {
            Ok(_) => record@.len() >= 10 && final(listing)@.len() == old(listing)@.len() + 1
                && final(listing)@ == old(listing)@.push(final(listing)@.last())
                && final(listing)@.last()@ == record_spec(str_views(record@)),
            Err(_) => record@.len() < 10 && *final(listing) == *old(listing),
        },
{
    if record.len() < 10 {
        return Err(RowTooShortError);
    }
    let email = record[1].clone();
    let age = sanitize_age(record[2].as_str());
    let interested = sanitize_interested(record[3].as_str());
    let know = sanitize_know(record[4].as_str());
    let preference = match sanitize_preference(record[5].as_str()) {
        Ok(v) => v,
        Err(_) => 0,
    };
    let cities = sanitize_cities(record[6].as_str());
    let marks = sanitize_marks(record[7].as_str());
    let colors = sanitize_colors(record[8].as_str());
    let sizes = record[9].clone();
    let data = MixShoesData { email, age, interested, know, preference, cities, marks, colors, sizes };
    proof {
        assert(record@[1]@ == str_views(record@)[1]);
        assert(record@[9]@ == str_views(record@)[9]);
        assert(data@ == record_spec(str_views(record@)));
    }
    listing.push(data);
    Ok(())
}

/// Normalizes every row, in order; stops at the first row with fewer
/// than ten cells and reports it, yielding no partial output.
pub fn clean_all(rows: &Vec<Vec<String>>) -> (r: Result<Vec<MixShoesData>, RowTooShortError>)
    ensures
        match r {
            Ok(out) => out@.len() == rows@.len() && (forall|i: int|
                0 <= i < rows@.len() ==> #[trigger] rows@[i]@.len() >= 10) && (forall|i: int|
                0 <= i < rows@.len() ==> #[trigger] out@[i]@ == record_spec(
                    str_views(rows@[i]@),
                )),
            Err(_) => exists|i: int|
                0 <= i < rows@.len() && (#[trigger] rows@[i]@.len()) < 10 && (forall|j: int|
                    0 <= j < i ==> (#[trigger] rows@[j]@.len()) >= 10),
        },
{
    let mut out: Vec<MixShoesData> = Vec::new();
    let mut i: usize = 0;
    while i < rows.len()
        invariant
            i <= rows@.len(),
            out@.len() == i,
            forall|j: int| 0 <= j < i ==> #[trigger] rows@[j]@.len() >= 10,
            forall|j: int| 0 <= j < i ==> #[trigger] out@[j]@ == record_spec(
                str_views(rows@[j]@),
            ),
        decreases rows@.len() - i,
    {
        match clean_data(&rows[i], &mut out) {
            Ok(_) => {},
            Err(e) => {
                return Err(e);
            },
        }
        i = i + 1;
    }
    Ok(out)
}

} // verus!
