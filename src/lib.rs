//! Subject identifiers for security event tokens: typed identifiers of a
//! subject, each conforming to one registered identifier format, with their
//! encoding to and decoding from an object whose `"format"` member names the
//! format.
use vstd::prelude::*;

mod e164;
mod error;
mod single;
mod wire;

pub use e164::{all_digits, canonical, digits_of, is_ascii_digit, is_e164, lemma_phone_round_trip, PhoneNumber};
pub use error::Error;
pub use single::{
    atomic_fields, atomic_wf, decode_atomic, decode_atomic_members, decode_one, encode_atomic,
    format_name, lemma_atomic_reencode, lemma_atomic_round_trip, Atomic, AtomicView,
};
pub use wire::{
    count_key, format_of, lookup, members_are, members_view, same_object, text_field, value_view,
    values_view, Json, Value,
};

use single::{lemma_literals, lemma_object_of_two};
use wire::{has_members, lemma_values_view, lookup_member, read_format, text_is};

verus! {

/// A subject identifier: either one atomic identifier, or an aliases
/// identifier that lists several atomic identifiers of the same subject.
#[derive(Debug, Clone, PartialEq, Eq)]
pub enum SubjectId {
    Atomic(Atomic),
    Aliases(Aliases),
}

/// The aliases format: a subject known under several atomic identifiers.
/// Aliases do not nest: every entry is atomic.
#[derive(Debug, Clone, PartialEq, Eq)]
pub struct Aliases {
    /// One or more identifiers of the same subject. Duplicates are passed
    /// through unchanged.
    pub identifiers: Vec<Atomic>,
}

/// The model of a subject identifier.
pub enum SubjectIdView {
    Atomic(AtomicView),
    Aliases(Seq<AtomicView>),
}

impl View for Aliases {
    type V = Seq<AtomicView>;

    open spec fn view(&self) -> Seq<AtomicView> {
        self.identifiers@.map_values(|a: Atomic| a@)
    }
}

impl View for SubjectId {
    type V = SubjectIdView;

    open spec fn view(&self) -> SubjectIdView {
        match self {
            SubjectId::Atomic(a) => SubjectIdView::Atomic(a@),
            SubjectId::Aliases(al) => SubjectIdView::Aliases(al@),
        }
    }
}

/// The registered name of the format of a subject identifier.
pub open spec fn subject_format_name(s: SubjectIdView) -> Seq<char> {
    match s {
        SubjectIdView::Atomic(a) => single::format_name(a),
        SubjectIdView::Aliases(_) => "aliases"@,
    }
}

/// Every entry of an aliases identifier is well formed, and there is at
/// least one.
pub open spec fn aliases_wf(ids: Seq<AtomicView>) -> bool {
    &&& ids.len() > 0
    &&& forall|i: int| 0 <= i < ids.len() ==> atomic_wf(#[trigger] ids[i])
}

pub open spec fn subject_wf(s: SubjectIdView) -> bool {
    match s {
        SubjectIdView::Atomic(a) => atomic_wf(a),
        SubjectIdView::Aliases(ids) => aliases_wf(ids),
    }
}

/// Decodes the entries of an aliases identifier in order; the first entry
/// that fails gives the error.
pub open spec fn decode_items(items: Seq<Json>) -> Result<Seq<AtomicView>, Error>
    decreases items.len(),
{
    if items.len() == 0 {
        Ok(Seq::empty())
    } else {
        match decode_items(items.drop_last()) {
            Ok(prefix) => match decode_atomic(items.last()) {
                Ok(a) => Ok(prefix.push(a)),
                Err(e) => Err(e),
            },
            Err(e) => Err(e),
        }
    }
}

/// Decoding a wire value as an aliases identifier: an object whose
/// discriminator is `"aliases"` and whose only other member is
/// `"identifiers"`, a non-empty array of atomic identifiers.
pub open spec fn decode_aliases(j: Json) -> Result<Seq<AtomicView>, Error> {
    match j {
        Json::Obj(ms) => match format_of(ms) {
            Some(name) => if name != "aliases"@ {
                Err(Error::UnknownFormat)
            } else if !members_are(ms, seq!["format"@, "identifiers"@]) {
                Err(Error::SchemaMismatch)
            } else {
                match lookup(ms, "identifiers"@) {
                    Some(Json::Arr(items)) => if items.len() == 0 {
                        Err(Error::SchemaMismatch)
                    } else {
                        decode_items(items)
                    },
                    _ => Err(Error::SchemaMismatch),
                }
            },
            None => Err(Error::UnknownFormat),
        },
        _ => Err(Error::SchemaMismatch),
    }
}

/// Decoding a wire value as a subject identifier: as an atomic identifier
/// where that succeeds, else as an aliases identifier, else no shape fits.
pub open spec fn decode_subject(j: Json) -> Result<SubjectIdView, Error> {
    match decode_atomic(j) {
        Ok(a) => Ok(SubjectIdView::Atomic(a)),
        Err(_) => match decode_aliases(j) {
            Ok(ids) => Ok(SubjectIdView::Aliases(ids)),
            Err(_) => Err(Error::NoMatchingShape),
        },
    }
}

/// The wire form of an aliases identifier.
pub open spec fn encode_aliases(ids: Seq<AtomicView>) -> Json {
    Json::Obj(
        seq![
            ("format"@, Json::Str("aliases"@)),
            ("identifiers"@, Json::Arr(ids.map_values(|a: AtomicView| encode_atomic(a)))),
        ],
    )
}

/// The wire form of a subject identifier.
pub open spec fn encode_subject(s: SubjectIdView) -> Json {
    match s {
        SubjectIdView::Atomic(a) => encode_atomic(a),
        SubjectIdView::Aliases(ids) => encode_aliases(ids),
    }
}

/// Once an entry fails, the entries after it do not change the error.
proof fn lemma_items_error_stays(items: Seq<Json>, i: int)
    requires
        0 <= i <= items.len(),
        decode_items(items.take(i)) is Err,
    ensures
        decode_items(items) == decode_items(items.take(i)),
    decreases items.len() - i,
{
    if i == items.len() {
        assert(items.take(i) =~= items);
    } else {
        assert(items.take(i + 1).drop_last() =~= items.take(i));
        lemma_items_error_stays(items, i + 1);
    }
}

/// The name of the aliases format is reserved: no atomic format has it.
pub proof fn lemma_aliases_name_reserved(a: AtomicView)
    ensures
        format_name(a) != "aliases"@,
{
    lemma_literals();
    assert(format_name(a)[1] != "aliases"@[1] || format_name(a).len() != "aliases"@.len());
}

/// Aliases do not nest: an object that decodes as an aliases identifier is
/// refused as an atomic identifier, so it can never be an entry of another.
pub proof fn lemma_aliases_not_atomic(j: Json)
    requires
        decode_aliases(j) is Ok,
    ensures
        decode_atomic(j) == Err::<AtomicView, Error>(Error::UnknownFormat),
{
    lemma_literals();
    let n = "aliases"@;
    assert(n != "account"@ && n != "opaque"@) by {
        assert(n[1] != "account"@[1] && n[1] != "opaque"@[1]);
    }
}

/// Decoding the wire forms of well-formed identifiers gives them back.
proof fn lemma_items_round_trip(ids: Seq<AtomicView>)
    requires
        forall|i: int| 0 <= i < ids.len() ==> atomic_wf(#[trigger] ids[i]),
    ensures
        decode_items(ids.map_values(|a: AtomicView| encode_atomic(a))) == Ok::<
            Seq<AtomicView>,
            Error,
        >(ids),
    decreases ids.len(),
{
    if ids.len() > 0 {
        let items = ids.map_values(|a: AtomicView| encode_atomic(a));
        let p = ids.drop_last();
        assert(items.drop_last() =~= p.map_values(|a: AtomicView| encode_atomic(a)));
        assert(forall|i: int| 0 <= i < p.len() ==> #[trigger] p[i] == ids[i]);
        lemma_items_round_trip(p);
        lemma_atomic_round_trip(ids.last());
        assert(items.last() == encode_atomic(ids.last()));
        assert(p.push(ids.last()) =~= ids);
    } else {
        assert(ids =~= Seq::<AtomicView>::empty());
    }
}

/// Encoding a well-formed subject identifier and decoding the result gives
/// the identifier back, in the same case.
pub proof fn lemma_subject_round_trip(s: SubjectIdView)
    requires
        subject_wf(s),
    ensures
        decode_subject(encode_subject(s)) == Ok::<SubjectIdView, Error>(s),
{
    match s {
        SubjectIdView::Atomic(a) => {
            lemma_atomic_round_trip(a);
        },
        SubjectIdView::Aliases(ids) => {
            lemma_literals();
            let items = Json::Arr(ids.map_values(|a: AtomicView| encode_atomic(a)));
            lemma_object_of_two("aliases"@, "identifiers"@, items);
            lemma_items_round_trip(ids);
            lemma_aliases_not_atomic(encode_aliases(ids));
        },
    }
}

/// Decoded entries are one for each item, and each is well formed.
proof fn lemma_items_decoded_wf(items: Seq<Json>)
    requires
        decode_items(items) is Ok,
    ensures
        decode_items(items)->Ok_0.len() == items.len(),
        forall|i: int|
            0 <= i < items.len() ==> atomic_wf(#[trigger] decode_items(items)->Ok_0[i]),
    decreases items.len(),
{
    if items.len() > 0 {
        lemma_items_decoded_wf(items.drop_last());
        single::lemma_atomic_reencode(items.last());
    }
}

/// What decoding gives is well formed, and encoding it and decoding again
/// gives it back.
pub proof fn lemma_subject_reencode(j: Json)
    requires
        decode_subject(j) is Ok,
    ensures
        subject_wf(decode_subject(j)->Ok_0),
        decode_subject(encode_subject(decode_subject(j)->Ok_0)) == decode_subject(j),
{
    let s = decode_subject(j)->Ok_0;
    match s {
        SubjectIdView::Atomic(a) => {
            single::lemma_atomic_reencode(j);
        },
        SubjectIdView::Aliases(ids) => {
            let items = lookup(j->Obj_0, "identifiers"@)->Some_0->Arr_0;
            lemma_items_decoded_wf(items);
        },
    }
    lemma_subject_round_trip(s);
}

impl Aliases {
    /// The wire form of the identifier.
    pub fn to_value(&self) -> (r: Value)
        ensures
            r@ == encode_aliases(self@),
    {
        let mut items: Vec<Value> = Vec::new();
        let mut i: usize = 0;
        while i < self.identifiers.len()
            invariant
                i <= self.identifiers@.len(),
                items@.len() == i,
                forall|j: int| 0 <= j < i ==> value_view(#[trigger] items@[j]) == encode_atomic(
                    self.identifiers@[j]@,
                ),
            decreases self.identifiers@.len() - i,
        {
            items.push(self.identifiers[i].to_value());
            i = i + 1;
        }
        proof {
            lemma_values_view(items@);
            assert(values_view(items@) =~= self@.map_values(|a: AtomicView| encode_atomic(a)));
        }
        let ghost arr = Json::Arr(values_view(items@));
        let ms = vec![
            ("format".to_owned(), Value::Str("aliases".to_owned())),
            ("identifiers".to_owned(), Value::Arr(items)),
        ];
        proof {
            wire::lemma_members_view(ms@);
            assert(value_view(ms@[1].1) == arr);
            assert(wire::members_view(ms@) =~= encode_aliases(self@)->Obj_0);
        }
        Value::Obj(ms)
    }

    /// Decodes an aliases identifier from its wire form.
    pub fn from_value(v: &Value) -> (r: Result<Aliases, Error>)
        ensures
            match r {
                Ok(al) => decode_aliases(v@) == Ok::<Seq<AtomicView>, Error>(al@),
                Err(e) => decode_aliases(v@) == Err::<Seq<AtomicView>, Error>(e),
            },
    {
        let ms = match v {
            Value::Obj(ms) => ms,
            _ => {
                return Err(Error::SchemaMismatch);
            },
        };
        match read_format(ms) {
            Some(name) => {
                if !text_is(name, SubjectId::FORMAT_ALIASES) {
                    return Err(Error::UnknownFormat);
                }
            },
            None => {
                return Err(Error::UnknownFormat);
            },
        }
        let keys = vec!["format", "identifiers"];
        assert(keys@.map_values(|s: &str| s@) =~= seq!["format"@, "identifiers"@]);
        if !has_members(ms, &keys) {
            return Err(Error::SchemaMismatch);
        }
        let items = match lookup_member(ms, "identifiers") {
            Some(Value::Arr(items)) => items,
            _ => {
                return Err(Error::SchemaMismatch);
            },
        };
        if items.len() == 0 {
            return Err(Error::SchemaMismatch);
        }
        let ghost iv = values_view(items@);
        proof {
            lemma_values_view(items@);
        }
        let mut out: Vec<Atomic> = Vec::new();
        assert(decode_aliases(v@) == decode_items(iv));
        assert(iv.take(0) =~= Seq::<Json>::empty());
        assert(out@.map_values(|a: Atomic| a@) =~= Seq::<AtomicView>::empty());
        let mut i: usize = 0;
        while i < items.len()
            invariant
                i <= items@.len(),
                decode_aliases(v@) == decode_items(iv),
                iv == values_view(items@),
                iv.len() == items@.len(),
                forall|j: int| 0 <= j < items@.len() ==> #[trigger] iv[j] == value_view(items@[j]),
                decode_items(iv.take(i as int)) == Ok::<Seq<AtomicView>, Error>(
                    out@.map_values(|a: Atomic| a@),
                ),
            decreases items@.len() - i,
        {
            assert(iv.take(i + 1).drop_last() =~= iv.take(i as int));
            match Atomic::from_value(&items[i]) {
                Ok(a) => {
                    let ghost before = out@;
                    out.push(a);
                    assert(out@.map_values(|a: Atomic| a@) =~= before.map_values(|a: Atomic| a@).push(a@));
                },
                Err(e) => {
                    proof {
                        lemma_items_error_stays(iv, i + 1);
                    }
                    return Err(e);
                },
            }
            i = i + 1;
        }
        assert(iv.take(i as int) =~= iv);
        Ok(Aliases { identifiers: out })
    }
}

impl SubjectId {
    pub const FORMAT_ACCOUNT: &'static str = "account";
    pub const FORMAT_EMAIL: &'static str = "email";
    pub const FORMAT_ISSUER_SUBJECT: &'static str = "iss_sub";
    pub const FORMAT_OPAQUE: &'static str = "opaque";
    pub const FORMAT_PHONE_NUMBER: &'static str = "phone_number";
    pub const FORMAT_DID: &'static str = "did";
    pub const FORMAT_URI: &'static str = "uri";
    pub const FORMAT_ALIASES: &'static str = "aliases";

    /// The name of the format that this identifier conforms to.
    pub fn format(&self) -> (r: &'static str)
        ensures
            r@ == subject_format_name(self@),
    {
        match self {
            SubjectId::Atomic(id) => id.format(),
            SubjectId::Aliases(..) => SubjectId::FORMAT_ALIASES,
        }
    }

    /// The wire form of the identifier: that of the atomic identifier or of
    /// the aliases identifier it holds, with no wrapping.
    pub fn to_value(&self) -> (r: Value)
        ensures
            r@ == encode_subject(self@),
    {
        match self {
            SubjectId::Atomic(a) => a.to_value(),
            SubjectId::Aliases(al) => al.to_value(),
        }
    }

    /// Decodes a subject identifier: first as an atomic identifier, then as
    /// an aliases identifier; the first that succeeds wins.
    pub fn from_value(v: &Value) -> (r: Result<SubjectId, Error>)
        ensures
            match r {
                Ok(s) => decode_subject(v@) == Ok::<SubjectIdView, Error>(s@),
                Err(e) => decode_subject(v@) == Err::<SubjectIdView, Error>(e),
            },
    {
        match Atomic::from_value(v) {
            Ok(a) => Ok(SubjectId::Atomic(a)),
            Err(_) => match Aliases::from_value(v) {
                Ok(al) => Ok(SubjectId::Aliases(al)),
                Err(_) => Err(Error::NoMatchingShape),
            },
        }
    }
}

} // verus!
