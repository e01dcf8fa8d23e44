//! Identifier formats that name a single subject and do not nest other
//! identifiers. The aliases format is built out of these.
use vstd::prelude::*;

use crate::error::Error;
use crate::wire::{
    format_of, has_members, members_are, members_view, read_format, read_text, text_field,
    text_is, count_key, lookup, lemma_same_keys_same_object, same_object, Json, Value,
};
use crate::SubjectId;

verus! {

/// An atomic subject identifier: one of the registered formats that are not
/// composed of other identifiers. Each variant holds its required members.
/// The registry asks for non-empty members; decoding refuses an empty one,
/// while a value built directly is taken as given.
#[derive(Debug, Clone, PartialEq, Eq)]
pub enum Atomic {
    /// An `acct:` URI of an account at a service provider.
    Account { uri: String },
    /// An email address, taken as given, with no canonicalization.
    Email { email: String },
    /// An issuer and a subject, as in the `iss` and `sub` claims of a JWT.
    IssuerSubject { issuer: String, subject: String },
    /// A string that means nothing beyond identifying the subject.
    Opaque { id: String },
    /// A telephone number, formatted according to E.164. It is a plain string
    /// here; `PhoneNumber` checks the syntax where that is wanted.
    PhoneNumber { phone_number: String },
    /// A decentralized identifier URL.
    Did { url: String },
    /// A URI of any scheme.
    Uri { uri: String },
}

/// The model of an atomic identifier: the same variants over text.
pub enum AtomicView {
    Account { uri: Seq<char> },
    Email { email: Seq<char> },
    IssuerSubject { issuer: Seq<char>, subject: Seq<char> },
    Opaque { id: Seq<char> },
    PhoneNumber { phone_number: Seq<char> },
    Did { url: Seq<char> },
    Uri { uri: Seq<char> },
}

impl View for Atomic {
    type V = AtomicView;

    open spec fn view(&self) -> AtomicView {
        match self {
            Atomic::Account { uri } => AtomicView::Account { uri: uri@ },
            Atomic::Email { email } => AtomicView::Email { email: email@ },
            Atomic::IssuerSubject { issuer, subject } => AtomicView::IssuerSubject {
                issuer: issuer@,
                subject: subject@,
            },
            Atomic::Opaque { id } => AtomicView::Opaque { id: id@ },
            Atomic::PhoneNumber { phone_number } => AtomicView::PhoneNumber {
                phone_number: phone_number@,
            },
            Atomic::Did { url } => AtomicView::Did { url: url@ },
            Atomic::Uri { uri } => AtomicView::Uri { uri: uri@ },
        }
    }
}

/// The registered name of the format of an atomic identifier.
pub open spec fn format_name(a: AtomicView) -> Seq<char> {
    match a {
        AtomicView::Account { .. } => "account"@,
        AtomicView::Email { .. } => "email"@,
        AtomicView::IssuerSubject { .. } => "iss_sub"@,
        AtomicView::Opaque { .. } => "opaque"@,
        AtomicView::PhoneNumber { .. } => "phone_number"@,
        AtomicView::Did { .. } => "did"@,
        AtomicView::Uri { .. } => "uri"@,
    }
}

/// Every member of the identifier is a non-empty string, as the registry
/// requires.
pub open spec fn atomic_wf(a: AtomicView) -> bool {
    match a {
        AtomicView::Account { uri } => uri.len() > 0,
        AtomicView::Email { email } => email.len() > 0,
        AtomicView::IssuerSubject { issuer, subject } => issuer.len() > 0 && subject.len() > 0,
        AtomicView::Opaque { id } => id.len() > 0,
        AtomicView::PhoneNumber { phone_number } => phone_number.len() > 0,
        AtomicView::Did { url } => url.len() > 0,
        AtomicView::Uri { uri } => uri.len() > 0,
    }
}

/// The members that an identifier declares, besides the discriminator, in
/// the order in which they are written.
pub open spec fn atomic_fields(a: AtomicView) -> Seq<(Seq<char>, Json)> {
    match a {
        AtomicView::Account { uri } => seq![("uri"@, Json::Str(uri))],
        AtomicView::Email { email } => seq![("email"@, Json::Str(email))],
        AtomicView::IssuerSubject { issuer, subject } => seq![
            ("issuer"@, Json::Str(issuer)),
            ("subject"@, Json::Str(subject)),
        ],
        AtomicView::Opaque { id } => seq![("id"@, Json::Str(id))],
        AtomicView::PhoneNumber { phone_number } => seq![
            ("phone_number"@, Json::Str(phone_number)),
        ],
        AtomicView::Did { url } => seq![("url"@, Json::Str(url))],
        AtomicView::Uri { uri } => seq![("uri"@, Json::Str(uri))],
    }
}

/// The wire form of an atomic identifier: the discriminator first, then the
/// declared members, all in one flat object.
pub open spec fn encode_atomic(a: AtomicView) -> Json {
    Json::Obj(seq![("format"@, Json::Str(format_name(a)))] + atomic_fields(a))
}

/// Reads an identifier with one declared member `k` from the members `ms`.
pub open spec fn decode_one(
    ms: Seq<(Seq<char>, Json)>,
    k: Seq<char>,
    make: spec_fn(Seq<char>) -> AtomicView,
) -> Result<AtomicView, Error> {
    if !members_are(ms, seq!["format"@, k]) {
        Err(Error::SchemaMismatch)
    } else {
        match text_field(ms, k) {
            Ok(v) => Ok(make(v)),
            Err(e) => Err(e),
        }
    }
}

/// Reads the members `ms` as an identifier of the atomic format `name`.
pub open spec fn decode_atomic_members(name: Seq<char>, ms: Seq<(Seq<char>, Json)>) -> Result<
    AtomicView,
    Error,
> {
    if name == "account"@ {
        decode_one(ms, "uri"@, |v: Seq<char>| AtomicView::Account { uri: v })
    } else if name == "email"@ {
        decode_one(ms, "email"@, |v: Seq<char>| AtomicView::Email { email: v })
    } else if name == "iss_sub"@ {
        if !members_are(ms, seq!["format"@, "issuer"@, "subject"@]) {
            Err(Error::SchemaMismatch)
        } else {
            match text_field(ms, "issuer"@) {
                Ok(i) => match text_field(ms, "subject"@) {
                    Ok(s) => Ok(AtomicView::IssuerSubject { issuer: i, subject: s }),
                    Err(e) => Err(e),
                },
                Err(e) => Err(e),
            }
        }
    } else if name == "opaque"@ {
        decode_one(ms, "id"@, |v: Seq<char>| AtomicView::Opaque { id: v })
    } else if name == "phone_number"@ {
        decode_one(ms, "phone_number"@, |v: Seq<char>| AtomicView::PhoneNumber { phone_number: v })
    } else if name == "did"@ {
        decode_one(ms, "url"@, |v: Seq<char>| AtomicView::Did { url: v })
    } else if name == "uri"@ {
        decode_one(ms, "uri"@, |v: Seq<char>| AtomicView::Uri { uri: v })
    } else {
        Err(Error::UnknownFormat)
    }
}

/// Decoding a wire value as an atomic identifier: an object whose
/// discriminator names an atomic format and whose other members are exactly
/// that format's members, each a non-empty string.
pub open spec fn decode_atomic(j: Json) -> Result<AtomicView, Error> {
    match j {
        Json::Obj(ms) => match format_of(ms) {
            Some(name) => decode_atomic_members(name, ms),
            None => Err(Error::UnknownFormat),
        },
        _ => Err(Error::SchemaMismatch),
    }
}

/// Builds a member of a wire object.
fn member(k: &str, v: Value) -> (r: (String, Value))
    ensures
        r.0@ == k@,
        r.1 == v,
{
    (k.to_owned(), v)
}

/// Reads an identifier with one declared member `k`.
fn read_one(ms: &Vec<(String, Value)>, k: &str) -> (r: Result<String, Error>)
    ensures
        match r {
            Ok(s) => members_are(members_view(ms@), seq!["format"@, k@]) && text_field(
                members_view(ms@),
                k@,
            ) == Ok::<Seq<char>, Error>(s@),
            Err(e) => !members_are(members_view(ms@), seq!["format"@, k@]) && e
                == Error::SchemaMismatch || members_are(members_view(ms@), seq!["format"@, k@])
                && text_field(members_view(ms@), k@) == Err::<Seq<char>, Error>(e),
        },
{
    let keys = vec!["format", k];
    assert(keys@.map_values(|s: &str| s@) =~= seq!["format"@, k@]);
    if !has_members(ms, &keys) {
        return Err(Error::SchemaMismatch);
    }
    read_text(ms, k)
}

impl Atomic {
    /// The name of the format that this identifier conforms to.
    pub fn format(&self) -> (r: &'static str)
        ensures
            r@ == format_name(self@),
    {
        match self {
            Atomic::Account { .. } => SubjectId::FORMAT_ACCOUNT,
            Atomic::Email { .. } => SubjectId::FORMAT_EMAIL,
            Atomic::IssuerSubject { .. } => SubjectId::FORMAT_ISSUER_SUBJECT,
            Atomic::Opaque { .. } => SubjectId::FORMAT_OPAQUE,
            Atomic::PhoneNumber { .. } => SubjectId::FORMAT_PHONE_NUMBER,
            Atomic::Did { .. } => SubjectId::FORMAT_DID,
            Atomic::Uri { .. } => SubjectId::FORMAT_URI,
        }
    }

    /// The wire form of the identifier.
    pub fn to_value(&self) -> (r: Value)
        ensures
            r@ == encode_atomic(self@),
    {
        let head = member("format", Value::Str(self.format().to_owned()));
        let ms = match self {
            Atomic::Account { uri } => vec![head, member("uri", Value::Str(uri.clone()))],
            Atomic::Email { email } => vec![head, member("email", Value::Str(email.clone()))],
            Atomic::IssuerSubject { issuer, subject } => vec![
                head,
                member("issuer", Value::Str(issuer.clone())),
                member("subject", Value::Str(subject.clone())),
            ],
            Atomic::Opaque { id } => vec![head, member("id", Value::Str(id.clone()))],
            Atomic::PhoneNumber { phone_number } => vec![
                head,
                member("phone_number", Value::Str(phone_number.clone())),
            ],
            Atomic::Did { url } => vec![head, member("url", Value::Str(url.clone()))],
            Atomic::Uri { uri } => vec![head, member("uri", Value::Str(uri.clone()))],
        };
        proof {
            crate::wire::lemma_members_view(ms@);
            assert(members_view(ms@) =~= seq![("format"@, Json::Str(format_name(self@)))]
                + atomic_fields(self@));
        }
        Value::Obj(ms)
    }

    /// Decodes an atomic identifier from its wire form.
    pub fn from_value(v: &Value) -> (r: Result<Atomic, Error>)
        ensures
            match r {
                Ok(a) => decode_atomic(v@) == Ok::<AtomicView, Error>(a@),
                Err(e) => decode_atomic(v@) == Err::<AtomicView, Error>(e),
            },
    {
        let ms = match v {
            Value::Obj(ms) => ms,
            _ => {
                return Err(Error::SchemaMismatch);
            },
        };
        let name = match read_format(ms) {
            Some(name) => name,
            None => {
                return Err(Error::UnknownFormat);
            },
        };
        if text_is(name, "account") {
            match read_one(ms, "uri") {
                Ok(uri) => Ok(Atomic::Account { uri }),
                Err(e) => Err(e),
            }
        } else if text_is(name, "email") {
            match read_one(ms, "email") {
                Ok(email) => Ok(Atomic::Email { email }),
                Err(e) => Err(e),
            }
        } else if text_is(name, "iss_sub") {
            let keys = vec!["format", "issuer", "subject"];
            assert(keys@.map_values(|s: &str| s@) =~= seq!["format"@, "issuer"@, "subject"@]);
            if !has_members(ms, &keys) {
                return Err(Error::SchemaMismatch);
            }
            let issuer = match read_text(ms, "issuer") {
                Ok(s) => s,
                Err(e) => {
                    return Err(e);
                },
            };
            let subject = match read_text(ms, "subject") {
                Ok(s) => s,
                Err(e) => {
                    return Err(e);
                },
            };
            Ok(Atomic::IssuerSubject { issuer, subject })
        } else if text_is(name, "opaque") {
            match read_one(ms, "id") {
                Ok(id) => Ok(Atomic::Opaque { id }),
                Err(e) => Err(e),
            }
        } else if text_is(name, "phone_number") {
            match read_one(ms, "phone_number") {
                Ok(phone_number) => Ok(Atomic::PhoneNumber { phone_number }),
                Err(e) => Err(e),
            }
        } else if text_is(name, "did") {
            match read_one(ms, "url") {
                Ok(url) => Ok(Atomic::Did { url }),
                Err(e) => Err(e),
            }
        } else if text_is(name, "uri") {
            match read_one(ms, "uri") {
                Ok(uri) => Ok(Atomic::Uri { uri }),
                Err(e) => Err(e),
            }
        } else {
            Err(Error::UnknownFormat)
        }
    }
}

/// The text of every literal that the identifier formats use.
pub(crate) proof fn lemma_literals()
    ensures
        "format"@ =~= seq!['f', 'o', 'r', 'm', 'a', 't'],
        "account"@ =~= seq!['a', 'c', 'c', 'o', 'u', 'n', 't'],
        "email"@ =~= seq!['e', 'm', 'a', 'i', 'l'],
        "iss_sub"@ =~= seq!['i', 's', 's', '_', 's', 'u', 'b'],
        "opaque"@ =~= seq!['o', 'p', 'a', 'q', 'u', 'e'],
        "phone_number"@ =~= seq!['p', 'h', 'o', 'n', 'e', '_', 'n', 'u', 'm', 'b', 'e', 'r'],
        "did"@ =~= seq!['d', 'i', 'd'],
        "uri"@ =~= seq!['u', 'r', 'i'],
        "aliases"@ =~= seq!['a', 'l', 'i', 'a', 's', 'e', 's'],
        "issuer"@ =~= seq!['i', 's', 's', 'u', 'e', 'r'],
        "subject"@ =~= seq!['s', 'u', 'b', 'j', 'e', 'c', 't'],
        "id"@ =~= seq!['i', 'd'],
        "url"@ =~= seq!['u', 'r', 'l'],
        "identifiers"@ =~= seq!['i', 'd', 'e', 'n', 't', 'i', 'f', 'i', 'e', 'r', 's'],
{
    reveal_strlit("format");
    reveal_strlit("account");
    reveal_strlit("email");
    reveal_strlit("iss_sub");
    reveal_strlit("opaque");
    reveal_strlit("phone_number");
    reveal_strlit("did");
    reveal_strlit("uri");
    reveal_strlit("aliases");
    reveal_strlit("issuer");
    reveal_strlit("subject");
    reveal_strlit("id");
    reveal_strlit("url");
    reveal_strlit("identifiers");
}

/// An object of the discriminator and one other member.
pub(crate) proof fn lemma_object_of_two(n: Seq<char>, k: Seq<char>, v: Json)
    requires
        k != "format"@,
    ensures
        ({
            let ms = seq![("format"@, Json::Str(n)), (k, v)];
            &&& format_of(ms) == Some(n)
            &&& members_are(ms, seq!["format"@, k])
            &&& lookup(ms, "format"@) == Some(Json::Str(n))
            &&& lookup(ms, k) == Some(v)
        }),
{
    reveal_with_fuel(count_key, 3);
    reveal_with_fuel(lookup, 3);
    let ms = seq![("format"@, Json::Str(n)), (k, v)];
    let keys = seq!["format"@, k];
    assert(ms.drop_last() =~= seq![("format"@, Json::Str(n))]);
    assert(ms.drop_last().drop_last() =~= Seq::<(Seq<char>, Json)>::empty());
    assert(keys[0] == ms[0].0 && keys[1] == ms[1].0);
    assert(count_key(ms, keys[0]) == 1);
    assert(count_key(ms, keys[1]) == 1);
}

/// An object of the discriminator and two other members.
pub(crate) proof fn lemma_object_of_three(n: Seq<char>, k1: Seq<char>, v1: Json, k2: Seq<char>, v2: Json)
    requires
        k1 != "format"@,
        k2 != "format"@,
        k1 != k2,
    ensures
        ({
            let ms = seq![("format"@, Json::Str(n)), (k1, v1), (k2, v2)];
            &&& format_of(ms) == Some(n)
            &&& members_are(ms, seq!["format"@, k1, k2])
            &&& lookup(ms, "format"@) == Some(Json::Str(n))
            &&& lookup(ms, k1) == Some(v1)
            &&& lookup(ms, k2) == Some(v2)
        }),
{
    reveal_with_fuel(count_key, 4);
    reveal_with_fuel(lookup, 4);
    let ms = seq![("format"@, Json::Str(n)), (k1, v1), (k2, v2)];
    let keys = seq!["format"@, k1, k2];
    assert(ms.drop_last() =~= seq![("format"@, Json::Str(n)), (k1, v1)]);
    assert(ms.drop_last().drop_last() =~= seq![("format"@, Json::Str(n))]);
    assert(ms.drop_last().drop_last().drop_last() =~= Seq::<(Seq<char>, Json)>::empty());
    assert(keys[0] == ms[0].0 && keys[1] == ms[1].0 && keys[2] == ms[2].0);
    assert(count_key(ms, keys[0]) == 1);
    assert(count_key(ms, keys[1]) == 1);
    assert(count_key(ms, keys[2]) == 1);
}

/// Encoding an identifier whose members are all non-empty and decoding the
/// result gives the identifier back.
pub proof fn lemma_atomic_round_trip(a: AtomicView)
    requires
        atomic_wf(a),
    ensures
        decode_atomic(encode_atomic(a)) == Ok::<AtomicView, Error>(a),
{
    lemma_literals();
    let n = format_name(a);
    match a {
        AtomicView::IssuerSubject { issuer, subject } => {
            lemma_object_of_three(n, "issuer"@, Json::Str(issuer), "subject"@, Json::Str(subject));
            assert(seq![("format"@, Json::Str(n))] + atomic_fields(a) =~= seq![
                ("format"@, Json::Str(n)),
                ("issuer"@, Json::Str(issuer)),
                ("subject"@, Json::Str(subject)),
            ]);
        },
        _ => {
            let f = atomic_fields(a)[0];
            lemma_object_of_two(n, f.0, f.1);
            assert(seq![("format"@, Json::Str(n))] + atomic_fields(a) =~= seq![
                ("format"@, Json::Str(n)),
                f,
            ]);
        },
    }
}

/// Decoding an object as an atomic identifier and encoding the identifier
/// again gives the same object: the same discriminator and the same members.
/// What decoding gives is well formed, so it decodes again to itself.
pub proof fn lemma_atomic_reencode(j: Json)
    requires
        decode_atomic(j) is Ok,
    ensures
        atomic_wf(decode_atomic(j)->Ok_0),
        same_object(encode_atomic(decode_atomic(j)->Ok_0), j),
{
    lemma_literals();
    let a = decode_atomic(j)->Ok_0;
    let ms = j->Obj_0;
    let n = format_name(a);
    assert(format_of(ms) == Some(n));
    match a {
        AtomicView::IssuerSubject { issuer, subject } => {
            let enc = seq![
                ("format"@, Json::Str(n)),
                ("issuer"@, Json::Str(issuer)),
                ("subject"@, Json::Str(subject)),
            ];
            lemma_object_of_three(n, "issuer"@, Json::Str(issuer), "subject"@, Json::Str(subject));
            assert(seq![("format"@, Json::Str(n))] + atomic_fields(a) =~= enc);
            let keys = seq!["format"@, "issuer"@, "subject"@];
            assert(keys[1] == "issuer"@ && keys[2] == "subject"@);
            lemma_same_keys_same_object(enc, ms, keys);
        },
        _ => {
            let f = atomic_fields(a)[0];
            let enc = seq![("format"@, Json::Str(n)), f];
            lemma_object_of_two(n, f.0, f.1);
            assert(seq![("format"@, Json::Str(n))] + atomic_fields(a) =~= enc);
            let keys = seq!["format"@, f.0];
            assert(keys[1] == f.0);
            lemma_same_keys_same_object(enc, ms, keys);
        },
    }
}

} // verus!