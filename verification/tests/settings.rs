use score_messages::settings::{
    parse_score, parse_toggle, parse_u64, score_fraction_text, Setting,
};

fn text(s: &str) -> Setting {
    Setting::Text(String::from(s))
}

fn integer(n: i64) -> Setting {
    let unsigned = if n < 0 { None } else { Some(n as u64) };
    Setting::Number { signed: Some(n), unsigned }
}

const FRACTION: Setting = Setting::Number { signed: None, unsigned: None };

const HUGE: Setting = Setting::Number { signed: None, unsigned: Some(u64::MAX) };

#[test]
fn toggles() {
    assert_eq!(parse_toggle(None), None);
    assert_eq!(parse_toggle(Some(&Setting::Bool(true))), Some(true));
    assert_eq!(parse_toggle(Some(&Setting::Bool(false))), Some(false));
    assert_eq!(parse_toggle(Some(&integer(0))), Some(false));
    assert_eq!(parse_toggle(Some(&integer(-3))), Some(true));
    assert_eq!(parse_toggle(Some(&FRACTION)), None);
    assert_eq!(parse_toggle(Some(&HUGE)), None);
    assert_eq!(parse_toggle(Some(&Setting::Other)), None);
    for on in ["1", "true", "yes", "y", "on", " TRUE\n", "Yes", "oN"] {
        assert_eq!(parse_toggle(Some(&text(on))), Some(true));
    }
    for off in ["0", "false", "no", "n", "off", " FALSE\n", "No", "oFF"] {
        assert_eq!(parse_toggle(Some(&text(off))), Some(false));
    }
    for garbage in ["1t", "", "2", "tru", "-1", "y es"] {
        assert_eq!(parse_toggle(Some(&text(garbage))), None);
    }
}

#[test]
fn scores() {
    assert_eq!(parse_score(None, Some(9)), None);
    assert_eq!(parse_score(Some(&Setting::Other), Some(9)), None);
    assert_eq!(parse_score(Some(&Setting::Bool(true)), Some(9)), Some(1));
    assert_eq!(parse_score(Some(&Setting::Bool(false)), Some(9)), Some(0));
    assert_eq!(parse_score(Some(&integer(-5)), Some(9)), Some(-5));
    assert_eq!(parse_score(Some(&FRACTION), Some(9)), None);
    assert_eq!(parse_score(Some(&HUGE), Some(9)), None);
    assert_eq!(parse_score(Some(&text(" -5 ")), Some(9)), Some(-5));
    assert_eq!(parse_score(Some(&text("+7")), Some(9)), Some(7));
    assert_eq!(parse_score(Some(&text("0012")), Some(9)), Some(12));
    assert_eq!(parse_score(Some(&text("-9223372036854775808")), Some(9)), Some(i64::MIN));
    assert_eq!(parse_score(Some(&text("9223372036854775807")), Some(9)), Some(i64::MAX));
    for other in ["9223372036854775808", "2.9", "", "+", "-", "1_0", "--1", "1 0"] {
        assert_eq!(parse_score(Some(&text(other)), Some(9)), Some(9));
        assert_eq!(parse_score(Some(&text(other)), None), None);
    }
}

#[test]
fn intervals() {
    assert_eq!(parse_u64(None), None);
    assert_eq!(parse_u64(Some(&Setting::Bool(true))), None);
    assert_eq!(parse_u64(Some(&Setting::Other)), None);
    assert_eq!(parse_u64(Some(&integer(30))), Some(30));
    assert_eq!(parse_u64(Some(&integer(-30))), None);
    assert_eq!(parse_u64(Some(&HUGE)), Some(u64::MAX));
    assert_eq!(parse_u64(Some(&FRACTION)), None);
    assert_eq!(parse_u64(Some(&text(" 30 "))), Some(30));
    assert_eq!(parse_u64(Some(&text("+30"))), Some(30));
    assert_eq!(parse_u64(Some(&text("18446744073709551615"))), Some(u64::MAX));
    assert_eq!(parse_u64(Some(&text("18446744073709551616"))), None);
    // Not an unsigned number, but a signed one that is not negative.
    assert_eq!(parse_u64(Some(&text("-0"))), Some(0));
    assert_eq!(parse_u64(Some(&text("-1"))), None);
    assert_eq!(parse_u64(Some(&text("1.5"))), None);
}

#[test]
fn texts_to_read_as_fractions() {
    assert_eq!(score_fraction_text(None), None);
    assert_eq!(score_fraction_text(Some(&integer(1))), None);
    assert_eq!(score_fraction_text(Some(&text(" 12 "))), None);
    assert_eq!(score_fraction_text(Some(&text(" 2.9 "))), Some(String::from("2.9")));
    assert_eq!(score_fraction_text(Some(&text("abc"))), Some(String::from("abc")));
}
