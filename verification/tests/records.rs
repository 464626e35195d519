use mixshoes::clean_all;
use mixshoes::clean_data;
use mixshoes::MixShoesData;
use mixshoes::RowTooShortError;

fn row(cells: &[&str]) -> Vec<String> {
    cells.iter().map(|c| String::from(*c)).collect()
}

fn full_row() -> Vec<String> {
    row(&[
        "2024-01-01",
        "ada@example.com",
        "between 18 and 25 years",
        "not interested",
        "yes",
        "used",
        "paris, saint louis et lyon",
        "nike, air max 1",
        "red & blue!",
        "42",
    ])
}

#[test]
fn clean_data_normalizes_each_cell() {
    let mut listing: Vec<MixShoesData> = Vec::new();
    let r = clean_data(&full_row(), &mut listing);
    assert_eq!(r, Ok(()));
    assert_eq!(listing.len(), 1);
    let d = &listing[0];
    assert_eq!(d.email, "ada@example.com");
    assert_eq!(d.age, "18-25");
    assert_eq!(d.interested, false);
    assert_eq!(d.know, true);
    assert_eq!(d.preference, -1);
    assert_eq!(d.cities, vec!["PARIS", "SAINT-LOUIS", "LYON"]);
    assert_eq!(d.marks, vec!["NIKE", "AIR MAX 1"]);
    assert_eq!(d.colors, vec!["RED", "BLUE"]);
    assert_eq!(d.sizes, "42");
}

#[test]
fn clean_data_recovers_an_unrecognized_preference_to_neutral() {
    let mut cells = full_row();
    cells[5] = String::from("garbage");
    let mut listing: Vec<MixShoesData> = Vec::new();
    assert_eq!(clean_data(&cells, &mut listing), Ok(()));
    assert_eq!(listing[0].preference, 0);
}

#[test]
fn clean_data_rejects_a_short_row() {
    let mut listing: Vec<MixShoesData> = Vec::new();
    let r = clean_data(&row(&["a", "b", "c"]), &mut listing);
    assert_eq!(r, Err(RowTooShortError));
    assert_eq!(listing.len(), 0);
}

#[test]
fn clean_all_keeps_row_order() {
    let mut second = full_row();
    second[1] = String::from("grace@example.com");
    second[2] = String::from("more than 65 years");
    let rows = vec![full_row(), second];
    let listing = clean_all(&rows).unwrap();
    assert_eq!(listing.len(), 2);
    assert_eq!(listing[0].email, "ada@example.com");
    assert_eq!(listing[0].age, "18-25");
    assert_eq!(listing[1].email, "grace@example.com");
    assert_eq!(listing[1].age, "+65");
}

#[test]
fn clean_all_stops_on_the_first_short_row() {
    let rows = vec![full_row(), row(&["too", "short"])];
    assert!(matches!(clean_all(&rows), Err(RowTooShortError)));
}

#[test]
fn clean_all_of_no_rows_is_no_records() {
    let rows: Vec<Vec<String>> = Vec::new();
    assert_eq!(clean_all(&rows).unwrap().len(), 0);
}

#[test]
fn marks_from_glued_undoes_the_underscore_gluing() {
    // Feeds the post-pattern token pass directly: a glued token with an
    // empty middle group and one with a full middle group.
    let toks = mixshoes::marks_from_glued("DOC__MARTEN LE AIR_MAX_1");
    assert_eq!(toks, vec!["DOC MARTEN", "AIR MAX 1"]);
}

#[test]
fn marks_token_pass_is_idempotent_on_a_clean_token() {
    assert_eq!(mixshoes::marks_from_glued("NIKE"), vec!["NIKE"]);
}
