use mixshoes::sanitize_age;
use mixshoes::sanitize_cities;
use mixshoes::sanitize_colors;
use mixshoes::sanitize_interested;
use mixshoes::sanitize_know;
use mixshoes::sanitize_marks;
use mixshoes::sanitize_preference;

#[test]
fn interested_negative_sentinel_is_false() {
    assert_eq!(sanitize_interested("not interested"), false);
}

#[test]
fn interested_anything_else_is_true() {
    assert_eq!(sanitize_interested("yes"), true);
    assert_eq!(sanitize_interested(""), true);
    assert_eq!(sanitize_interested("Not Interested"), true);
    assert_eq!(sanitize_interested("garbage"), true);
}

#[test]
fn know_affirmative_sentinel_is_true() {
    assert_eq!(sanitize_know("yes"), true);
}

#[test]
fn know_anything_else_is_false() {
    assert_eq!(sanitize_know("no"), false);
    assert_eq!(sanitize_know(""), false);
    assert_eq!(sanitize_know("Yes"), false);
    assert_eq!(sanitize_know("yes "), false);
}

#[test]
fn preference_recognized_categories() {
    assert_eq!(sanitize_preference("new"), Ok(1));
    assert_eq!(sanitize_preference("no preference"), Ok(0));
    assert_eq!(sanitize_preference("used"), Ok(-1));
}

#[test]
fn preference_unrecognized_is_an_error() {
    assert_eq!(sanitize_preference("garbage"), Err(()));
    assert_eq!(sanitize_preference(""), Err(()));
}

#[test]
fn age_range_becomes_dashed() {
    assert_eq!(sanitize_age("between 18 and 25 years"), "18-25");
}

#[test]
fn age_open_end_becomes_plus() {
    assert_eq!(sanitize_age("more than 65 years"), "+65");
}

#[test]
fn age_is_idempotent_on_its_outputs() {
    assert_eq!(sanitize_age("18-25"), "18-25");
    assert_eq!(sanitize_age("+65"), "+65");
}

#[test]
fn cities_split_upper_and_hyphenation() {
    assert_eq!(
        sanitize_cities("paris, saint louis et lyon"),
        vec!["PARIS", "SAINT-LOUIS", "LYON"]
    );
}

#[test]
fn cities_en_infix_is_hyphenated() {
    assert_eq!(
        sanitize_cities("saint germain en laye"),
        vec!["SAINT-GERMAIN-EN-LAYE"]
    );
}

#[test]
fn cities_conjunction_filter_is_a_substring_filter() {
    // The filter drops any token containing the two letters, so a city
    // name containing them goes too: a documented over-filtering quirk.
    assert_eq!(sanitize_cities("etampes, lyon"), vec!["LYON"]);
}

#[test]
fn cities_is_idempotent_on_a_clean_token() {
    assert_eq!(sanitize_cities("PARIS"), vec!["PARIS"]);
}

#[test]
fn colors_sentinels_yield_nothing() {
    assert_eq!(sanitize_colors("doesn't matter"), Vec::<String>::new());
    assert_eq!(sanitize_colors("all colors"), Vec::<String>::new());
}

#[test]
fn colors_punctuation_and_upper() {
    assert_eq!(sanitize_colors("red & blue!"), vec!["RED", "BLUE"]);
}

#[test]
fn colors_filler_words_are_dropped() {
    assert_eq!(sanitize_colors("le red et la blue"), vec!["RED", "BLUE"]);
}

#[test]
fn colors_underscore_and_ellipsis_artifacts() {
    assert_eq!(sanitize_colors("dark__red"), vec!["DARK RED"]);
    assert_eq!(sanitize_colors("red..."), vec!["RED"]);
    assert_eq!(sanitize_colors("dark_red"), vec!["DARK RED"]);
}

#[test]
fn colors_is_idempotent_on_a_clean_token() {
    assert_eq!(sanitize_colors("RED"), vec!["RED"]);
}

#[test]
fn colors_output_with_a_space_is_not_a_fixed_point() {
    // An underscore in the source becomes a space inside an output token,
    // and a second run splits that token again.
    assert_eq!(sanitize_colors("dark__red"), vec!["DARK RED"]);
    assert_eq!(sanitize_colors("DARK RED"), vec!["DARK", "RED"]);
}

#[test]
fn marks_sentinel_yields_nothing() {
    assert_eq!(sanitize_marks("no preference"), Vec::<String>::new());
}

#[test]
fn marks_multi_word_brand_survives_the_split() {
    // Without the gluing pass "air max 1" would come out as three tokens.
    assert_eq!(sanitize_marks("nike, air max 1"), vec!["NIKE", "AIR MAX 1"]);
}

#[test]
fn marks_empty_middle_group_collapses_to_one_space() {
    // The glued form carries a double underscore; it must become one
    // space, not two.
    assert_eq!(sanitize_marks("doc marten"), vec!["DOC MARTEN"]);
}

#[test]
fn marks_connector_words_are_dropped() {
    assert_eq!(sanitize_marks("nike tn et air max 1"), vec!["NIKE TN", "AIR MAX 1"]);
}
