use rbpt::mods::funcs::s_to_hms;

#[test]
fn secs_to_hms() {
    assert_eq!(s_to_hms(112), String::from("[0:1:52]"));
    assert_eq!(s_to_hms(0), String::from("[0:0:0]"));
    assert_eq!(s_to_hms(120), String::from("[0:2:0]"));
    assert_eq!(s_to_hms(3674), String::from("[1:1:14]"));
}

#[test]
fn hms_at_the_turn_of_minutes_and_hours() {
    assert_eq!(s_to_hms(59), "[0:0:59]");
    assert_eq!(s_to_hms(60), "[0:1:0]");
    assert_eq!(s_to_hms(3599), "[0:59:59]");
    assert_eq!(s_to_hms(3600), "[1:0:0]");
    assert_eq!(s_to_hms(86399), "[23:59:59]");
}

#[test]
fn hms_hours_are_not_wrapped() {
    assert_eq!(s_to_hms(360000), "[100:0:0]");
    assert_eq!(s_to_hms(u64::MAX), "[5124095576030431:0:15]");
}
