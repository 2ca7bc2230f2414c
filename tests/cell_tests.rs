use escp_layout::{Cell, StyleFlags};

#[test]
fn test_style_flags_constants() {
    assert_eq!(StyleFlags::NONE.bits(), 0);
    assert_eq!(StyleFlags::BOLD.bits(), 1);
    assert_eq!(StyleFlags::UNDERLINE.bits(), 2);
}

#[test]
fn test_style_flags_bold() {
    assert!(!StyleFlags::NONE.bold());
    assert!(StyleFlags::BOLD.bold());
    assert!(!StyleFlags::UNDERLINE.bold());
}

#[test]
fn test_style_flags_underline() {
    assert!(!StyleFlags::NONE.underline());
    assert!(!StyleFlags::BOLD.underline());
    assert!(StyleFlags::UNDERLINE.underline());
}

#[test]
fn test_style_flags_with_bold() {
    let style = StyleFlags::NONE.with_bold();
    assert!(style.bold());
    assert!(!style.underline());
}

#[test]
fn test_style_flags_with_underline() {
    let style = StyleFlags::NONE.with_underline();
    assert!(!style.bold());
    assert!(style.underline());
}

#[test]
fn test_style_flags_combined() {
    let style = StyleFlags::BOLD.with_underline();
    assert!(style.bold());
    assert!(style.underline());
}

#[test]
fn test_cell_empty() {
    assert_eq!(Cell::empty().character(), ' ');
    assert_eq!(Cell::empty().style(), StyleFlags::NONE);
}

#[test]
fn test_cell_new_ascii() {
    let cell = Cell::new('A', StyleFlags::BOLD);
    assert_eq!(cell.character(), 'A');
    assert_eq!(cell.style(), StyleFlags::BOLD);
}

#[test]
fn test_cell_new_non_ascii() {
    let cell = Cell::new('é', StyleFlags::NONE);
    assert_eq!(cell.character(), '?');
}

#[test]
fn test_cell_new_control_char() {
    let cell = Cell::new('\n', StyleFlags::NONE);
    assert_eq!(cell.character(), '?');

    let cell = Cell::new('\t', StyleFlags::NONE);
    assert_eq!(cell.character(), '?');
}

#[test]
fn test_cell_equality() {
    let cell1 = Cell::new('A', StyleFlags::BOLD);
    let cell2 = Cell::new('A', StyleFlags::BOLD);
    let cell3 = Cell::new('B', StyleFlags::BOLD);

    assert_eq!(cell1, cell2);
    assert_ne!(cell1, cell3);
}
