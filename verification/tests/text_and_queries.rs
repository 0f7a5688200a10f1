use weather_chart::queries::{
    city_min_max_query, fetch_cities_query, first_row_bounds, ranges_query, require_rows,
    temps_query, year_of_first_row, year_prefix, year_query, QueryError,
};
use weather_chart::text::{int_string, owned, replace_underscores, str_equal};

#[test]
fn int_string_formats_like_display() {
    assert_eq!(int_string(0), "0");
    assert_eq!(int_string(42), "42");
    assert_eq!(int_string(-7), "-7");
    assert_eq!(int_string(1918), "1918");
    assert_eq!(int_string(i64::MIN), i64::MIN.to_string());
    assert_eq!(int_string(i64::MAX), i64::MAX.to_string());
}

#[test]
fn underscores_become_spaces() {
    assert_eq!(replace_underscores("Los_Angeles"), "Los Angeles");
    assert_eq!(replace_underscores("Salt_Lake_City"), "Salt Lake City");
    assert_eq!(replace_underscores("Boston"), "Boston");
    assert_eq!(replace_underscores(""), "");
    assert_eq!(replace_underscores("São_Paulo"), "São Paulo");
}

#[test]
fn text_equality() {
    assert!(str_equal("Week", "Week"));
    assert!(!str_equal("Week", "Weeks"));
    assert!(!str_equal("Week", "week"));
    assert_eq!(owned("abc"), "abc");
}

#[test]
fn query_texts() {
    assert_eq!(
        fetch_cities_query(),
        "SELECT name_of_city FROM city_names ORDER by name_of_city asc;"
    );
    assert_eq!(
        temps_query("tmonth", "Boston_Month", 1950),
        "SELECT tyear, tmonth, tmax, tmin, mmax, mmin FROM Boston_Month WHERE tyear = 1950"
    );
    assert_eq!(ranges_query("Boston", false), "SELECT * FROM Boston_week_ranges");
    assert_eq!(ranges_query("Boston", true), "SELECT * FROM Boston_nite_ranges");
    assert_eq!(
        city_min_max_query("Boston"),
        "SELECT min_temp, max_temp FROM city_names WHERE name_of_city = 'Boston'"
    );
    assert_eq!(year_query("Boston", false), "SELECT tdate FROM Boston order by tdate asc limit 1");
    assert_eq!(year_query("Boston", true), "SELECT tdate FROM Boston order by tdate desc limit 1");
}

#[test]
fn empty_result_is_row_not_found() {
    let none: Vec<i32> = Vec::new();
    assert_eq!(require_rows(none), Err(QueryError::RowNotFound));
    assert_eq!(require_rows(vec![3, 4]), Ok(vec![3, 4]));
}

#[test]
fn city_bounds_come_from_the_first_row() {
    assert_eq!(first_row_bounds(&vec![(-12, 104), (0, 0)]), (-12, 104));
}

#[test]
fn year_of_a_date_text() {
    assert_eq!(year_prefix("2020-09-05"), 2020);
    assert_eq!(year_prefix("0999-01-01"), 999);
    assert_eq!(year_prefix("-123-01-01"), -123);
    assert_eq!(year_prefix("+123"), 123);
    assert_eq!(year_of_first_row(&Vec::new()), 0);
    assert_eq!(year_of_first_row(&vec!["1872-01-01".to_string(), "x".to_string()]), 1872);
}
