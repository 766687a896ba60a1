use calendar::calendar::Calendar;
use calendar::cli::{ArgError, Request, View};
use calendar::credentials::GoogleCredentials;
use calendar::layout::{pad, spaces, MONTH_WIDTH};
use calendar::navigation::{cell_style, CellStyle, NavKey, Selection};

#[test]
fn padding_strings() {
    assert_eq!(spaces(0), "");
    assert_eq!(spaces(4), "    ");
    assert_eq!(pad(5), "   ");
    assert_eq!(pad(10), "  ");
    assert_eq!(pad(99), "  ");
    assert_eq!(pad(100), " ");
}

#[test]
fn month_names_and_heading() {
    let may = Calendar { year: 2022, month: 4 };
    assert_eq!(may.get_month_name(), "May");
    assert_eq!(may.heading_padding(), (13, 12));
    let sep = Calendar { year: 2022, month: 8 };
    assert_eq!(sep.get_month_name(), "September");
    assert_eq!(sep.heading_padding(), (10, 9));
    for month in 0u8..12 {
        let cal = Calendar { year: 2022, month };
        let (left, right) = cal.heading_padding();
        assert_eq!(left + cal.get_month_name().len() + right, MONTH_WIDTH);
    }
}

#[test]
fn grid_rows_of_july_2022() {
    let july = Calendar { year: 2022, month: 6 };
    assert_eq!(july.calculate_line_start(0), -4);
    assert_eq!(july.calculate_line_start(1), 3);
    assert_eq!(july.day_cell(0, 4), None);
    assert_eq!(july.day_cell(0, 5), Some(1));
    assert_eq!(july.day_cell(5, 0), Some(31));
    assert_eq!(july.day_cell(5, 1), None);
}

#[test]
fn grid_of_month_starting_on_sunday() {
    let may = Calendar { year: 2022, month: 4 };
    assert_eq!(may.calculate_line_start(0), 1);
    assert_eq!(may.day_cell(0, 0), Some(1));
    assert_eq!(may.day_cell(4, 2), Some(31));
    assert_eq!(may.day_cell(4, 3), None);
}

#[test]
fn today_matches_only_its_date() {
    let cal = Calendar { year: 2024, month: 2 };
    assert!(cal.is_today(14, (14, 2, 2024)));
    assert!(!cal.is_today(15, (14, 2, 2024)));
    assert!(!cal.is_today(14, (14, 3, 2024)));
    assert!(!cal.is_today(14, (14, 2, 2023)));
}

fn sel(year: u16, month: u8, day: u32) -> Selection {
    Selection { year, month, day }
}

#[test]
fn day_steps_cross_months() {
    assert_eq!(sel(2024, 0, 1).step(NavKey::Left), (sel(2023, 11, 31), true));
    assert_eq!(sel(2024, 0, 2).step(NavKey::Left), (sel(2024, 0, 1), false));
    assert_eq!(sel(2024, 0, 31).step(NavKey::Right), (sel(2024, 1, 1), true));
    assert_eq!(sel(2024, 0, 30).step(NavKey::Right), (sel(2024, 0, 31), false));
}

#[test]
fn week_steps_cross_months() {
    assert_eq!(sel(2024, 2, 10).step(NavKey::Up), (sel(2024, 2, 3), false));
    assert_eq!(sel(2024, 2, 3).step(NavKey::Up), (sel(2024, 1, 25), true));
    assert_eq!(sel(2024, 2, 1).step(NavKey::Up), (sel(2024, 1, 23), true));
    assert_eq!(sel(2024, 0, 6).step(NavKey::Up), (sel(2023, 11, 30), true));
    assert_eq!(sel(2024, 2, 7).step(NavKey::Up), (sel(2024, 1, 29), true));
    assert_eq!(sel(2024, 0, 24).step(NavKey::Down), (sel(2024, 0, 31), false));
    assert_eq!(sel(2024, 0, 28).step(NavKey::Down), (sel(2024, 1, 4), true));
    assert_eq!(sel(2023, 11, 30).step(NavKey::Down), (sel(2024, 0, 6), true));
}

#[test]
fn home_end_and_pages() {
    assert_eq!(sel(2024, 1, 10).step(NavKey::Home), (sel(2024, 1, 1), false));
    assert_eq!(sel(2024, 1, 10).step(NavKey::End), (sel(2024, 1, 29), false));
    assert_eq!(sel(2024, 2, 31).step(NavKey::PageUp), (sel(2024, 1, 29), true));
    assert_eq!(sel(2023, 0, 30).step(NavKey::PageDown), (sel(2023, 1, 28), true));
    assert_eq!(sel(2023, 0, 15).step(NavKey::PageUp), (sel(2022, 11, 15), true));
}

fn request(first: Option<u16>, second_given: bool, second: Option<u8>) -> Request {
    Request { show_year: false, single_month: false, first, second_given, second }
}

#[test]
fn view_defaults_to_current_month() {
    let r = request(None, false, None);
    assert_eq!(r.choose_view(2024, 5), Ok(View::ThreeMonths(Calendar { year: 2024, month: 5 })));
    let single = Request { single_month: true, ..r };
    assert_eq!(single.choose_view(2024, 5), Ok(View::OneMonth(Calendar { year: 2024, month: 5 })));
    let year = Request { show_year: true, ..r };
    assert_eq!(year.choose_view(2024, 5), Ok(View::EntireYear(2024)));
}

#[test]
fn view_from_positional_arguments() {
    assert_eq!(request(Some(2023), false, None).choose_view(2024, 5), Ok(View::EntireYear(2023)));
    assert_eq!(
        request(Some(2024), false, None).choose_view(2024, 5),
        Ok(View::ThreeMonths(Calendar { year: 2024, month: 5 }))
    );
    assert_eq!(
        request(Some(3), false, None).choose_view(2024, 5),
        Ok(View::ThreeMonths(Calendar { year: 2024, month: 2 }))
    );
    assert_eq!(
        request(Some(2023), true, Some(12)).choose_view(2024, 5),
        Ok(View::ThreeMonths(Calendar { year: 2023, month: 11 }))
    );
    assert_eq!(
        request(Some(2023), true, None).choose_view(2024, 5),
        Ok(View::ThreeMonths(Calendar { year: 2023, month: 5 }))
    );
}

#[test]
fn view_errors() {
    assert_eq!(request(Some(1582), false, None).choose_view(2024, 5), Err(ArgError::YearTooEarly));
    assert_eq!(request(Some(1583), false, None).choose_view(2024, 5), Ok(View::EntireYear(1583)));
    assert_eq!(request(Some(0), false, None).choose_view(2024, 5), Err(ArgError::MonthOutOfRange));
    assert_eq!(
        request(Some(2024), true, Some(13)).choose_view(2024, 5),
        Err(ArgError::MonthOutOfRange)
    );
}

#[test]
fn credentials_secret_presence() {
    let empty = GoogleCredentials { client_id: "id".to_string(), client_secret: String::new() };
    assert!(!empty.has_secret());
    let set = GoogleCredentials { client_id: "id".to_string(), client_secret: "s".to_string() };
    assert!(set.has_secret());
}

#[test]
fn cell_styles_by_priority() {
    assert_eq!(cell_style(true, true, true, 0), CellStyle::SelectedToday);
    assert_eq!(cell_style(true, false, true, 0), CellStyle::Selected);
    assert_eq!(cell_style(false, true, true, 0), CellStyle::Today);
    assert_eq!(cell_style(false, false, true, 0), CellStyle::Event);
    assert_eq!(cell_style(false, false, false, 0), CellStyle::Sunday);
    assert_eq!(cell_style(false, false, false, 3), CellStyle::Plain);
    assert!(CellStyle::Event.is_bold());
    assert!(CellStyle::SelectedToday.is_bold());
    assert!(!CellStyle::Sunday.is_bold());
    assert!(!CellStyle::Plain.is_bold());
}

fn absolute_day(s: Selection) -> i64 {
    Calendar { year: s.year, month: s.month }.get_month_base_day() as i64 + s.day as i64
}

#[test]
fn arrow_keys_move_by_days_and_weeks() {
    for start in [sel(2024, 2, 1), sel(2024, 2, 7), sel(2024, 0, 31), sel(2023, 11, 28), sel(2024, 1, 29)] {
        for (key, delta) in [(NavKey::Left, -1i64), (NavKey::Right, 1), (NavKey::Up, -7), (NavKey::Down, 7)] {
            let (next, _) = start.step(key);
            assert_eq!(absolute_day(next), absolute_day(start) + delta);
        }
    }
}
