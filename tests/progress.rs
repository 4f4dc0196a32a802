use drills::progress::{fill_progress_bar, ProgressBarError};

fn chars(s: &str) -> Vec<char> {
    s.chars().collect()
}

fn text(b: &[char]) -> String {
    b.iter().collect()
}

#[test]
fn test_fill_progress_bar() {
    let mut buf = chars("            ");
    assert_eq!(fill_progress_bar(&mut buf, (&'[', &']'), 90), Ok(()));
    assert_eq!(text(&buf), "[========= ]")
}

#[test]
fn zero_percent_keeps_interior() {
    let mut buf = chars("abcdef");
    assert_eq!(fill_progress_bar(&mut buf, (&'(', &')'), 0), Ok(()));
    assert_eq!(text(&buf), "(bcde)");
}

#[test]
fn full_bar_fills_interior() {
    let mut buf = chars("          ");
    assert_eq!(fill_progress_bar(&mut buf, (&'[', &']'), 100), Ok(()));
    assert_eq!(text(&buf), "[========]");
}

#[test]
fn twenty_percent_of_ten() {
    let mut buf = chars("            ");
    assert_eq!(fill_progress_bar(&mut buf, (&'[', &']'), 20), Ok(()));
    assert_eq!(text(&buf), "[==        ]");
}

#[test]
fn fill_count_rounds_down() {
    // seven interior positions at 50 percent: floor(3.5) = 3
    let mut buf = chars("         ");
    assert_eq!(fill_progress_bar(&mut buf, (&'<', &'>'), 50), Ok(()));
    assert_eq!(text(&buf), "<===    >");
}

#[test]
fn two_character_buffer_holds_only_delimiters() {
    let mut buf = chars("  ");
    assert_eq!(fill_progress_bar(&mut buf, (&'[', &']'), 100), Ok(()));
    assert_eq!(text(&buf), "[]");
}

#[test]
fn short_buffer_is_refused() {
    let mut buf = chars(" ");
    assert_eq!(
        fill_progress_bar(&mut buf, (&'[', &']'), 50),
        Err(ProgressBarError::BufferTooShort)
    );
    assert_eq!(text(&buf), " ");
    let mut empty: Vec<char> = Vec::new();
    assert_eq!(
        fill_progress_bar(&mut empty, (&'[', &']'), 50),
        Err(ProgressBarError::BufferTooShort)
    );
    assert!(empty.is_empty());
}

#[test]
fn percentage_above_hundred_is_refused() {
    let mut buf = chars("     ");
    assert_eq!(
        fill_progress_bar(&mut buf, (&'[', &']'), 101),
        Err(ProgressBarError::FractionOutOfRange)
    );
    assert_eq!(text(&buf), "     ");
}
