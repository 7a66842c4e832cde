use typed_fdb::text::{format_description, format_i32, format_title, u32_dec};

#[test]
fn decimal_rendering_exact() {
    assert_eq!(u32_dec(0), "0");
    assert_eq!(u32_dec(7), "7");
    assert_eq!(u32_dec(123), "123");
    assert_eq!(u32_dec(4294967295), "4294967295");
    assert_eq!(format_i32(0), "0");
    assert_eq!(format_i32(123), "123");
    assert_eq!(format_i32(-17), "-17");
    assert_eq!(format_i32(i32::MAX), "2147483647");
    assert_eq!(format_i32(i32::MIN), "-2147483648");
}

#[test]
fn title_equal_values_collapse() {
    let name = String::from("Widget");
    let display = String::from("Widget");
    let t = format_title(Some(&name), Some(&display), 5);
    assert_eq!(t, "Widget | Object #5");
}

#[test]
fn title_empty_treated_as_absent() {
    let name = String::new();
    let display = String::from("Big Widget");
    let t = format_title(Some(&name), Some(&display), 5);
    assert_eq!(t, "Big Widget | Object #5");
}

#[test]
fn title_distinct_pair() {
    let name = String::from("Widget");
    let display = String::from("Big Widget");
    let t = format_title(Some(&name), Some(&display), 5);
    assert_eq!(t, "Big Widget (Widget) | Object #5");
}

#[test]
fn title_both_absent() {
    let t = format_title(None, None, 9);
    assert_eq!(t, "Object #9");
}

#[test]
fn title_only_name() {
    let name = String::from("Widget");
    let t = format_title(Some(&name), None, 5);
    assert_eq!(t, "Widget | Object #5");
}

#[test]
fn description_equal_collapse() {
    let d = String::from("A box.");
    let n = String::from("A box.");
    assert_eq!(format_description(Some(&d), Some(&n)), "A box.");
}

#[test]
fn description_empty_treated_as_absent() {
    let d = String::new();
    let n = String::from("debug only");
    assert_eq!(format_description(Some(&d), Some(&n)), "debug only");
}

#[test]
fn description_distinct_pair() {
    let d = String::from("A box.");
    let n = String::from("debug only");
    assert_eq!(format_description(Some(&d), Some(&n)), "A box. (debug only)");
}

#[test]
fn description_both_absent() {
    assert_eq!(format_description(None, None), "");
}
