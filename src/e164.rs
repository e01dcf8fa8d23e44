//! E.164 telephone numbers as a value type that only holds valid numbers.
use vstd::prelude::*;

use crate::error::Error;
use crate::wire::{Json, Value};

verus! {

pub open spec fn is_ascii_digit(c: char) -> bool {
    '0' <= c && c <= '9'
}

pub open spec fn all_digits(s: Seq<char>) -> bool {
    forall|i: int| 0 <= i < s.len() ==> is_ascii_digit(#[trigger] s[i])
}

/// The digits of a candidate number: the text without one leading `+`.
pub open spec fn digits_of(s: Seq<char>) -> Seq<char> {
    if s.len() > 0 && s[0] == '+' {
        s.drop_first()
    } else {
        s
    }
}

/// The grammar `^\+?(\d{1,15})$`, with `\d` the ASCII digits.
pub open spec fn is_e164(s: Seq<char>) -> bool {
    let d = digits_of(s);
    1 <= d.len() <= 15 && all_digits(d)
}

/// The stored form of a number: always a `+` and then the digits.
pub open spec fn canonical(s: Seq<char>) -> Seq<char> {
    seq!['+'] + digits_of(s)
}

/// A telephone number in E.164 form, held as `+` followed by one to fifteen
/// digits. Parsing is the only way to build one.
#[derive(Debug)]
pub struct PhoneNumber {
    number: String,
}

impl View for PhoneNumber {
    type V = Seq<char>;

    closed spec fn view(&self) -> Seq<char> {
        self.number@
    }
}

impl PhoneNumber {
    #[verifier::type_invariant]
    spec fn inv(&self) -> bool {
        is_e164(self.number@) && self.number@ == canonical(self.number@)
    }

    /// Parses `s`, which must be an optional `+` and one to fifteen digits.
    pub fn parse(s: &str) -> (r: Result<PhoneNumber, Error>)
        ensures
            match r {
                Ok(p) => is_e164(s@) && p@ == canonical(s@),
                Err(e) => !is_e164(s@) && e == Error::InvalidPhoneNumber,
            },
    {
        let n = s.unicode_len();
        let start: usize = if n > 0 && s.get_char(0) == '+' {
            1
        } else {
            0
        };
        let ghost d = digits_of(s@);
        assert(d =~= s@.subrange(start as int, n as int));
        if n - start < 1 || n - start > 15 {
            return Err(Error::InvalidPhoneNumber);
        }
        let mut i: usize = start;
        while i < n
            invariant
                start <= i <= n,
                n == s@.len(),
                d == digits_of(s@),
                d =~= s@.subrange(start as int, n as int),
                forall|j: int| 0 <= j < i - start ==> is_ascii_digit(#[trigger] d[j]),
            decreases n - i,
        {
            let c = s.get_char(i);
            if !('0' <= c && c <= '9') {
                assert(d[i - start] == c);
                assert(!all_digits(d));
                return Err(Error::InvalidPhoneNumber);
            }
            i = i + 1;
        }
        let number = if start == 1 {
            let t = s.to_owned();
            assert(t@ =~= canonical(s@));
            t
        } else {
            let t = "+".to_owned().concat(s);
            proof {
                reveal_strlit("+");
            }
            assert(t@ =~= canonical(s@));
            t
        };
        assert(canonical(number@) =~= number@);
        Ok(PhoneNumber { number })
    }

    /// The canonical text of the number, which is valid and already canonical.
    pub fn to_string(&self) -> (r: String)
        ensures
            r@ == self@,
            is_e164(r@),
            r@ == canonical(r@),
    {
        proof {
            use_type_invariant(self);
        }
        self.number.clone()
    }

    /// The wire form of the number: its canonical text as a plain string.
    pub fn to_value(&self) -> (r: Value)
        ensures
            r@ == Json::Str(self@),
    {
        Value::Str(self.number.clone())
    }

    /// Reads a number from a wire value, which must be a string that parses.
    pub fn from_value(v: &Value) -> (r: Result<PhoneNumber, Error>)
        ensures
            match v@ {
                Json::Str(s) => match r {
                    Ok(p) => is_e164(s) && p@ == canonical(s),
                    Err(e) => !is_e164(s) && e == Error::InvalidPhoneNumber,
                },
                _ => r == Err::<PhoneNumber, Error>(Error::SchemaMismatch),
            },
    {
        match v {
            Value::Str(s) => PhoneNumber::parse(s.as_str()),
            _ => Err(Error::SchemaMismatch),
        }
    }
}

impl Clone for PhoneNumber {
    fn clone(&self) -> (r: PhoneNumber)
        ensures
            r@ == self@,
    {
        proof {
            use_type_invariant(self);
        }
        PhoneNumber { number: self.number.clone() }
    }
}

impl PartialEq for PhoneNumber {
    fn eq(&self, o: &PhoneNumber) -> (r: bool)
        ensures
            r == (self@ == o@),
    {
        self.number == o.number
    }
}

impl vstd::std_specs::cmp::PartialEqSpecImpl for PhoneNumber {
    open spec fn obeys_eq_spec() -> bool {
        true
    }

    open spec fn eq_spec(&self, o: &PhoneNumber) -> bool {
        self@ == o@
    }
}

impl std::str::FromStr for PhoneNumber {
    type Err = Error;

    fn from_str(s: &str) -> (r: Result<PhoneNumber, Error>)
        ensures
            match r {
                Ok(p) => is_e164(s@) && p@ == canonical(s@),
                Err(e) => !is_e164(s@) && e == Error::InvalidPhoneNumber,
            },
    {
        PhoneNumber::parse(s)
    }
}

/// Parsing is idempotent: a parsed number, written out and parsed again,
/// gives the same number, and its text is `+` followed by the digits.
pub proof fn lemma_phone_round_trip(s: Seq<char>)
    requires
        is_e164(s),
    ensures
        canonical(s) == seq!['+'] + digits_of(s),
        is_e164(canonical(s)),
        canonical(canonical(s)) == canonical(s),
{
    let c = canonical(s);
    assert(digits_of(c) =~= digits_of(s));
}

} // verus!
