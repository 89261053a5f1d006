use chrono::{Datelike, NaiveDate, Weekday};
use tasklog::time::{get_calendar_matrix, ValidationError, Date};

#[test]
fn test_calendar_matrix() {
    let matrix = get_calendar_matrix(2025, 7).unwrap();

    for row in &matrix {
        let mut line = String::new();
        for date in row {
            line.push_str(&format!("{:2}/{:2} ", date.month, date.day));
        }
        println!("{}", line);
    }

    assert_eq!(matrix.len(), 6);
    assert!(matrix.iter().all(|row| row.len() == 7));

    assert_eq!(matrix[0][0].month, 6);
    assert_eq!(matrix[0][0].day, 29);

    // November 1, 2023 is a Wednesday.
    let matrix_nov = get_calendar_matrix(2023, 11).unwrap();
    assert_eq!(matrix_nov[0][3].month, 11);
    assert_eq!(matrix_nov[0][3].day, 1);
    assert_eq!(matrix_nov[0][0].month, 10);
    assert_eq!(matrix_nov[4][6].month, 12);

    // February 2023 has 28 days.
    let matrix_feb = get_calendar_matrix(2023, 2).unwrap();
    assert_eq!(matrix_feb[0][2].month, 1);
    assert_eq!(matrix_feb[4][6].month, 3);
}

#[test]
fn calendar_matrix_rejects_invalid_month() {
    assert_eq!(get_calendar_matrix(2024, 0), Err(ValidationError::InvalidMonth));
    assert_eq!(get_calendar_matrix(2024, 13), Err(ValidationError::InvalidMonth));
    assert_eq!(get_calendar_matrix(2024, u32::MAX), Err(ValidationError::InvalidMonth));
    assert_eq!(get_calendar_matrix(400000, 1), Err(ValidationError::InvalidMonth));
    assert_eq!(get_calendar_matrix(-400000, 1), Err(ValidationError::InvalidMonth));
    assert_eq!(get_calendar_matrix(262143, 1), Err(ValidationError::InvalidMonth));
    assert_eq!(get_calendar_matrix(-262144, 12), Err(ValidationError::InvalidMonth));
}

#[test]
fn calendar_matrix_at_the_ends_of_the_calendar() {
    // The grid of the last month reaches into a year that no date can have.
    assert_eq!(get_calendar_matrix(262142, 12), Err(ValidationError::OutOfRange));
    // The first month starts on a Thursday, so its grid would start four
    // days before the first date.
    assert_eq!(
        NaiveDate::from_ymd_opt(-262143, 1, 1).unwrap().weekday(),
        Weekday::Thu
    );
    assert_eq!(get_calendar_matrix(-262143, 1), Err(ValidationError::OutOfRange));
    // One month in from either end the grid fits.
    assert!(get_calendar_matrix(262142, 10).is_ok());
    assert!(get_calendar_matrix(-262143, 2).is_ok());
}

#[test]
fn calendar_matrix_november_2023_cells() {
    let matrix = get_calendar_matrix(2023, 11).unwrap();
    assert_eq!(matrix[0][0], Date { year: 2023, month: 10, day: 29 });
    assert_eq!(matrix[0][3], Date { year: 2023, month: 11, day: 1 });
    assert_eq!(matrix[4][4], Date { year: 2023, month: 11, day: 30 });
    assert_eq!(matrix[4][5], Date { year: 2023, month: 12, day: 1 });
    assert_eq!(matrix[5][6], Date { year: 2023, month: 12, day: 9 });
}

#[test]
fn calendar_matrix_rolls_over_the_year() {
    let december = get_calendar_matrix(2024, 12).unwrap();
    assert_eq!(december[0][0], Date { year: 2024, month: 12, day: 1 });
    assert_eq!(december[4][2], Date { year: 2024, month: 12, day: 31 });
    assert_eq!(december[4][3], Date { year: 2025, month: 1, day: 1 });
    assert_eq!(december[5][6], Date { year: 2025, month: 1, day: 11 });

    let january = get_calendar_matrix(2023, 1).unwrap();
    assert_eq!(january[0][0], Date { year: 2023, month: 1, day: 1 });
    let january = get_calendar_matrix(2024, 1).unwrap();
    assert_eq!(january[0][0], Date { year: 2023, month: 12, day: 31 });
    assert_eq!(january[0][1], Date { year: 2024, month: 1, day: 1 });
}

#[test]
fn calendar_matrix_leap_february() {
    let leap = get_calendar_matrix(2024, 2).unwrap();
    // February 1, 2024 is a Thursday.
    assert_eq!(leap[0][4], Date { year: 2024, month: 2, day: 1 });
    assert_eq!(leap[4][4], Date { year: 2024, month: 2, day: 29 });
    assert_eq!(leap[4][5], Date { year: 2024, month: 3, day: 1 });

    let century = get_calendar_matrix(1900, 2).unwrap();
    let days: Vec<&Date> = century.iter().flatten().filter(|d| d.month == 2).collect();
    assert_eq!(days.len(), 28);
    let leap_century = get_calendar_matrix(2000, 2).unwrap();
    let days: Vec<&Date> = leap_century.iter().flatten().filter(|d| d.month == 2).collect();
    assert_eq!(days.len(), 29);
}

#[test]
fn calendar_matrix_is_42_consecutive_days_from_a_sunday() {
    let months = [(2023, 11), (2024, 2), (1999, 12), (1, 1), (0, 3), (-44, 3), (-4713, 11), (9999, 12)];
    for (year, month) in months {
        let matrix = get_calendar_matrix(year, month).unwrap();
        assert_eq!(matrix.len(), 6);
        let cells: Vec<Date> = matrix.iter().flatten().copied().collect();
        assert_eq!(cells.len(), 42);
        let first = NaiveDate::from_ymd_opt(cells[0].year, cells[0].month, cells[0].day).unwrap();
        assert_eq!(first.weekday(), Weekday::Sun);
        let first_of_month = NaiveDate::from_ymd_opt(year, month, 1).unwrap();
        let lead = (first_of_month - first).num_days();
        assert!((0..7).contains(&lead));
        assert_eq!(lead, i64::from(first_of_month.weekday().num_days_from_sunday()));
        for (offset, cell) in cells.iter().enumerate() {
            let day = NaiveDate::from_ymd_opt(cell.year, cell.month, cell.day).unwrap();
            assert_eq!((day - first).num_days(), offset as i64);
        }
        let row = (lead / 7) as usize;
        let column = (lead % 7) as usize;
        assert_eq!(matrix[row][column], Date { year, month, day: 1 });
    }
}
