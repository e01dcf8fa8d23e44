use subjectid::{Error, PhoneNumber, Value};

#[test]
fn phone_accepts_with_and_without_plus() {
    let a = PhoneNumber::parse("12065550100").unwrap();
    let b = PhoneNumber::parse("+12065550100").unwrap();
    assert_eq!(a.to_string(), "+12065550100");
    assert_eq!(b.to_string(), "+12065550100");
    assert_eq!(a, b);
}

#[test]
fn phone_round_trip_is_idempotent() {
    for s in ["1", "+1", "442071838750", "+68482245895", "123456789012345"] {
        let p = PhoneNumber::parse(s).unwrap();
        let text = p.to_string();
        assert_eq!(text, format!("+{}", s.trim_start_matches('+')));
        let q = PhoneNumber::parse(&text).unwrap();
        assert_eq!(p, q);
        assert_eq!(q.to_string(), text);
    }
}

#[test]
fn phone_rejection_boundary() {
    let sixteen = "0".repeat(16);
    for s in ["", "abc", sixteen.as_str(), "+", "++1", "1 2", "+1-206", "12a", "1+2", " 1"] {
        assert!(
            matches!(PhoneNumber::parse(s), Err(Error::InvalidPhoneNumber)),
            "accepted {:?}",
            s
        );
    }
    let fifteen = "9".repeat(15);
    assert_eq!(PhoneNumber::parse(&fifteen).unwrap().to_string(), format!("+{}", fifteen));
}

#[test]
fn phone_from_str_uses_the_same_rule() {
    let p: PhoneNumber = "12065550100".parse().unwrap();
    assert_eq!(p.to_string(), "+12065550100");
    assert!(matches!("x".parse::<PhoneNumber>(), Err(Error::InvalidPhoneNumber)));
    let sixteen = "1".repeat(16);
    for s in ["+12065550100", "7", "", "+", "12 34", sixteen.as_str()] {
        match (s.parse::<PhoneNumber>(), PhoneNumber::parse(s)) {
            (Ok(a), Ok(b)) => assert_eq!(a, b),
            (Err(a), Err(b)) => {
                assert_eq!(a, b);
                assert_eq!(a, Error::InvalidPhoneNumber);
            }
            _ => panic!("from_str and parse disagree on {:?}", s),
        }
    }
}

#[test]
fn phone_wire_form_is_a_plain_string() {
    let p = PhoneNumber::parse("12065550100").unwrap();
    assert_eq!(p.to_value(), Value::Str("+12065550100".to_owned()));
    let q = PhoneNumber::from_value(&Value::Str("12065550100".to_owned())).unwrap();
    assert_eq!(p, q);
    assert!(matches!(
        PhoneNumber::from_value(&Value::Str("12-34".to_owned())),
        Err(Error::InvalidPhoneNumber)
    ));
    assert!(matches!(
        PhoneNumber::from_value(&Value::Number("12065550100".to_owned())),
        Err(Error::SchemaMismatch)
    ));
    let c = p.clone();
    assert_eq!(c, p);
}
