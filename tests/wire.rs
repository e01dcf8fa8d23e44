use subjectid::{Aliases, Atomic, Error, SubjectId, Value};

fn text(s: &str) -> Value {
    Value::Str(s.to_owned())
}

fn obj(members: Vec<(&str, Value)>) -> Value {
    Value::Obj(members.into_iter().map(|(k, v)| (k.to_owned(), v)).collect())
}

fn examples() -> Vec<(Value, Atomic)> {
    vec![
        (
            obj(vec![("format", text("account")), ("uri", text("acct:example.user@service.example.com"))]),
            Atomic::Account { uri: "acct:example.user@service.example.com".to_owned() },
        ),
        (
            obj(vec![("format", text("email")), ("email", text("user@example.com"))]),
            Atomic::Email { email: "user@example.com".to_owned() },
        ),
        (
            obj(vec![
                ("format", text("iss_sub")),
                ("issuer", text("https://issuer.example.com/")),
                ("subject", text("145234573")),
            ]),
            Atomic::IssuerSubject {
                issuer: "https://issuer.example.com/".to_owned(),
                subject: "145234573".to_owned(),
            },
        ),
        (
            obj(vec![("format", text("opaque")), ("id", text("11112222333344445555"))]),
            Atomic::Opaque { id: "11112222333344445555".to_owned() },
        ),
        (
            obj(vec![("format", text("phone_number")), ("phone_number", text("+12065550100"))]),
            Atomic::PhoneNumber { phone_number: "+12065550100".to_owned() },
        ),
        (
            obj(vec![("format", text("did")), ("url", text("did:example:123456"))]),
            Atomic::Did { url: "did:example:123456".to_owned() },
        ),
        (
            obj(vec![("format", text("uri")), ("uri", text("urn:uuid:4e851e98-83c4-4743-a5da-150ecb53042f"))]),
            Atomic::Uri { uri: "urn:uuid:4e851e98-83c4-4743-a5da-150ecb53042f".to_owned() },
        ),
    ]
}

#[test]
fn atomic_encode_decode_round_trip() {
    for (wire, atomic) in examples() {
        assert_eq!(atomic.to_value(), wire);
        let back = Atomic::from_value(&wire).unwrap();
        assert_eq!(back, atomic);
        assert_eq!(back.to_value(), wire);
    }
}

#[test]
fn atomic_decode_ignores_member_order() {
    let wire = obj(vec![("subject", text("s")), ("issuer", text("i")), ("format", text("iss_sub"))]);
    let a = Atomic::from_value(&wire).unwrap();
    assert_eq!(a, Atomic::IssuerSubject { issuer: "i".to_owned(), subject: "s".to_owned() });
}

#[test]
fn atomic_decode_errors() {
    let missing_format = obj(vec![("email", text("a@b.com"))]);
    assert_eq!(Atomic::from_value(&missing_format), Err(Error::UnknownFormat));
    let format_not_text = obj(vec![("format", Value::Bool(true)), ("email", text("a@b.com"))]);
    assert_eq!(Atomic::from_value(&format_not_text), Err(Error::UnknownFormat));
    let missing_member = obj(vec![("format", text("iss_sub")), ("issuer", text("i"))]);
    assert_eq!(Atomic::from_value(&missing_member), Err(Error::SchemaMismatch));
    let foreign_member = obj(vec![("format", text("email")), ("email", text("a@b.com")), ("uri", text("x"))]);
    assert_eq!(Atomic::from_value(&foreign_member), Err(Error::SchemaMismatch));
    let repeated = obj(vec![("format", text("email")), ("email", text("a@b.com")), ("email", text("c@d.com"))]);
    assert_eq!(Atomic::from_value(&repeated), Err(Error::SchemaMismatch));
    let not_text = obj(vec![("format", text("opaque")), ("id", Value::Number("7".to_owned()))]);
    assert_eq!(Atomic::from_value(&not_text), Err(Error::SchemaMismatch));
    let empty = obj(vec![("format", text("email")), ("email", text(""))]);
    assert_eq!(Atomic::from_value(&empty), Err(Error::SchemaMismatch));
    assert_eq!(Atomic::from_value(&text("email")), Err(Error::SchemaMismatch));
    assert_eq!(Atomic::from_value(&Value::Null), Err(Error::SchemaMismatch));
}

#[test]
fn unknown_discriminator_is_rejected() {
    let wire = obj(vec![("format", text("ssn")), ("value", text("123-45-6789"))]);
    assert_eq!(Atomic::from_value(&wire), Err(Error::UnknownFormat));
    assert_eq!(SubjectId::from_value(&wire), Err(Error::NoMatchingShape));
}

#[test]
fn composite_picks_the_atomic_case() {
    let wire = obj(vec![("format", text("opaque")), ("id", text("abc"))]);
    let s = SubjectId::from_value(&wire).unwrap();
    assert_eq!(s.format(), "opaque");
    assert_eq!(s, SubjectId::Atomic(Atomic::Opaque { id: "abc".to_owned() }));
    assert_eq!(s.to_value(), wire);
}

#[test]
fn composite_picks_the_aliases_case() {
    let email = obj(vec![("format", text("email")), ("email", text("a@b.com"))]);
    let uri = obj(vec![("format", text("uri")), ("uri", text("urn:x"))]);
    let wire = obj(vec![("format", text("aliases")), ("identifiers", Value::Arr(vec![email, uri]))]);
    let s = SubjectId::from_value(&wire).unwrap();
    assert_eq!(s.format(), "aliases");
    match &s {
        SubjectId::Aliases(al) => {
            assert_eq!(al.identifiers.len(), 2);
            assert_eq!(al.identifiers[0], Atomic::Email { email: "a@b.com".to_owned() });
            assert_eq!(al.identifiers[1], Atomic::Uri { uri: "urn:x".to_owned() });
            for a in &al.identifiers {
                assert_eq!(Atomic::from_value(&a.to_value()).unwrap(), *a);
            }
        }
        SubjectId::Atomic(_) => panic!("expected the aliases case"),
    }
    assert_eq!(s.to_value(), wire);
}

#[test]
fn aliases_do_not_nest() {
    let inner = obj(vec![("format", text("aliases")), ("identifiers", Value::Arr(vec![]))]);
    let wire = obj(vec![("format", text("aliases")), ("identifiers", Value::Arr(vec![inner]))]);
    assert_eq!(Aliases::from_value(&wire), Err(Error::UnknownFormat));
    assert_eq!(SubjectId::from_value(&wire), Err(Error::NoMatchingShape));
}

#[test]
fn aliases_decode_errors() {
    let empty = obj(vec![("format", text("aliases")), ("identifiers", Value::Arr(vec![]))]);
    assert_eq!(Aliases::from_value(&empty), Err(Error::SchemaMismatch));
    assert_eq!(SubjectId::from_value(&empty), Err(Error::NoMatchingShape));
    let not_array = obj(vec![("format", text("aliases")), ("identifiers", text("x"))]);
    assert_eq!(Aliases::from_value(&not_array), Err(Error::SchemaMismatch));
    let email = obj(vec![("format", text("email")), ("email", text("a@b.com"))]);
    assert_eq!(Aliases::from_value(&email), Err(Error::UnknownFormat));
    let bad_entry = obj(vec![("format", text("email"))]);
    let wire = obj(vec![("format", text("aliases")), ("identifiers", Value::Arr(vec![bad_entry]))]);
    assert_eq!(Aliases::from_value(&wire), Err(Error::SchemaMismatch));
}

#[test]
fn aliases_keep_duplicates() {
    let email = || obj(vec![("format", text("email")), ("email", text("a@b.com"))]);
    let wire = obj(vec![("format", text("aliases")), ("identifiers", Value::Arr(vec![email(), email()]))]);
    let al = Aliases::from_value(&wire).unwrap();
    assert_eq!(al.identifiers.len(), 2);
    assert_eq!(al.to_value(), wire);
}
