use sundry::bsn::{Bsn, Error, WireError};

#[test]
fn test_valid_bsn() {
    let bsns = "999998456\n628194821\n252760189\n507529170\n079244026\n121547280\n385280841\n\
                353799075\n805888718\n167868433\n068831067\n611148936\n400376143\n000000000"
        .lines();
    bsns.for_each(|bsn| {
        assert!(
            Bsn::validate(bsn).is_ok(),
            "BSN {bsn} is valid, but did not pass validation"
        )
    });
}

#[test]
fn test_invalid_bn() {
    let bsns = "1112223333\n526018159\n083016613\n186091390\n996030824\n993518190\n937865797\n\
                543231948\n757491186\n12345678\n\n99999845a\n99999845é"
        .lines();
    bsns.for_each(|bsn| {
        assert!(
            Bsn::validate(bsn).is_err(),
            "BSN {bsn} invalid, but passed validation"
        )
    });
}

#[test]
fn each_error_has_its_input() {
    assert_eq!(Bsn::validate("12345678"), Err(Error::TooFewDigits));
    assert_eq!(Bsn::validate("1112223333"), Err(Error::TooFewDigits));
    assert_eq!(Bsn::validate(""), Err(Error::TooFewDigits));
    assert_eq!(Bsn::validate("99999845a"), Err(Error::NonNumericValue));
    assert_eq!(Bsn::validate("9999984 6"), Err(Error::NonNumericValue));
    // nine bytes, but not nine characters
    assert_eq!(Bsn::validate("9999984é"), Err(Error::NonNumericValue));
    assert_eq!(Bsn::validate("999998457"), Err(Error::Failed11Trial));
    assert_eq!(Bsn::validate("999998456"), Ok(()));
}

#[test]
fn eleven_test_weights() {
    // 9*1 + 8*0 + ... + 2*1 - 1*0 = 11
    assert_eq!(Bsn::validate("100000010"), Ok(()));
    // 2*1 - 1*2 = 0
    assert_eq!(Bsn::validate("000000012"), Ok(()));
    // 2*1 - 1*1 = 1
    assert_eq!(Bsn::validate("000000011"), Err(Error::Failed11Trial));
}

#[test]
fn try_from_string_takes_what_prints() {
    let bsn = Bsn::try_from_string("999998456").unwrap();
    assert_eq!(bsn.as_str(), "999998456");
    assert_eq!(bsn, Bsn::try_from_string("999998456".to_string()).unwrap());
    assert_eq!(bsn, Bsn::try_from_string(999998456u32).unwrap());
    assert_eq!(bsn, Bsn::try_from_text("999998456".to_string()).unwrap());
    assert_eq!(Bsn::try_from_string("1112223333").unwrap_err(), Error::TooFewDigits);
    assert_eq!(Bsn::try_from_string(12).unwrap_err(), Error::TooFewDigits);
    assert_eq!(Bsn::try_from_text("99999845x".to_string()).unwrap_err(), Error::NonNumericValue);
}

#[test]
fn error_messages() {
    assert_eq!(Error::InvalidBsn.message(), "Invalid BSN number");
    assert_eq!(
        Error::TooFewDigits.message(),
        "Too few digits: a valid BSN has nine digits"
    );
    assert_eq!(
        Error::NonNumericValue.message(),
        "Non-numeric value: a valid BSN contains only numerals"
    );
    assert_eq!(Error::Failed11Trial.message(), "Failed 11 Trial");
}

#[test]
fn test_serde() {
    let json = Bsn::try_from_string("999998456").unwrap().to_json();
    assert_eq!(json, "\"999998456\"");
    let bsn: Bsn = Bsn::from_json("\"999998456\"").unwrap();
    assert_eq!(bsn, Bsn::try_from_string("999998456".to_string()).unwrap());

    Bsn::from_json("\"1112223333\"").unwrap_err();
}

#[test]
fn from_json_tells_the_faults_apart() {
    assert!(matches!(
        Bsn::from_json("\"1112223333\""),
        Err(WireError::Invalid(Error::TooFewDigits))
    ));
    assert!(matches!(
        Bsn::from_json("\"999998457\""),
        Err(WireError::Invalid(Error::Failed11Trial))
    ));
    assert!(matches!(
        Bsn::from_json("\"99999845a\""),
        Err(WireError::Invalid(Error::NonNumericValue))
    ));
    assert!(matches!(Bsn::from_json("999998456"), Err(WireError::NotAString)));
    assert!(matches!(Bsn::from_json("null"), Err(WireError::NotAString)));
    assert!(matches!(Bsn::from_json("\"999998456"), Err(WireError::Syntax(_))));
    assert!(matches!(Bsn::from_json(""), Err(WireError::Syntax(_))));
    assert_eq!(
        Bsn::from_json(" \"99999\\u0038456\" ").unwrap().as_str(),
        "999998456"
    );
}

#[test]
fn clone_keeps_the_digits() {
    let bsn = Bsn::try_from_string("999998456").unwrap();
    assert_eq!(bsn.clone(), bsn);
    assert_eq!(bsn.clone().as_str(), "999998456");
}
