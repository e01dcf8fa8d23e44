use subjectid::{Atomic, SubjectId};

#[test]
fn test_format() {
    let cases = vec![
        Atomic::Account {
            uri: "acct:someone@example.com".to_owned(),
        },
        Atomic::Email {
            email: "someone@example.com".to_owned(),
        },
        Atomic::IssuerSubject {
            issuer: "example.com".to_owned(),
            subject: "2kj34hk".to_owned(),
        },
        Atomic::Opaque {
            id: "khj23dj5k".to_owned(),
        },
        Atomic::PhoneNumber {
            phone_number: "+68482245895".to_owned(),
        },
        Atomic::Did {
            url: "did:example:1234".to_owned(),
        },
        Atomic::Uri {
            uri: "urn:ietf:rfc:2648".to_owned(),
        },
    ];
    let expected = vec![
        SubjectId::FORMAT_ACCOUNT,
        SubjectId::FORMAT_EMAIL,
        SubjectId::FORMAT_ISSUER_SUBJECT,
        SubjectId::FORMAT_OPAQUE,
        SubjectId::FORMAT_PHONE_NUMBER,
        SubjectId::FORMAT_DID,
        SubjectId::FORMAT_URI,
    ];
    for (got, want) in cases.iter().map(Atomic::format).zip(expected) {
        assert_eq!(got, want, "format values do not match");
    }
}

#[test]
fn format_names_are_the_registry_values() {
    assert_eq!(SubjectId::FORMAT_ACCOUNT, "account");
    assert_eq!(SubjectId::FORMAT_EMAIL, "email");
    assert_eq!(SubjectId::FORMAT_ISSUER_SUBJECT, "iss_sub");
    assert_eq!(SubjectId::FORMAT_OPAQUE, "opaque");
    assert_eq!(SubjectId::FORMAT_PHONE_NUMBER, "phone_number");
    assert_eq!(SubjectId::FORMAT_DID, "did");
    assert_eq!(SubjectId::FORMAT_URI, "uri");
    assert_eq!(SubjectId::FORMAT_ALIASES, "aliases");
    let a = Atomic::Did { url: "did:example:1".to_owned() };
    assert_eq!(a.format(), "did");
    assert_eq!(a.format(), a.format());
}

#[test]
fn subject_format_delegates_or_says_aliases() {
    let one = SubjectId::Atomic(Atomic::Opaque { id: "1i3j4l".to_owned() });
    assert_eq!(one.format(), "opaque");
    let many = SubjectId::Aliases(subjectid::Aliases {
        identifiers: vec![Atomic::Email { email: "a@b.com".to_owned() }],
    });
    assert_eq!(many.format(), "aliases");
}
