//! The typed decoder for captured path parameters.
//!
//! Route matching yields an ordered list of (capture-name, captured-string)
//! pairs.  The decoder reads that list directly — no intermediate map — into
//! the shape the caller asks for: a single scalar, a positional sequence or
//! tuple, a struct addressed by field name, or a unit enum picked by the
//! first capture's value.  Anything that does not fit yields a decode error
//! that names the offence.

use vstd::prelude::*;

use crate::text::{
    format_u64, parse_bool, parse_char, parse_i64, parse_u64, spec_parse_bool, spec_parse_char,
    spec_parse_i64, spec_parse_u64, spec_u64_string, str_eq,
};

verus! {

/// Why a decode failed.
#[derive(Debug)]
pub enum DecodeError {
    /// The number of captures does not fit the target's arity.
    WrongArity(String),
    /// A captured string does not parse as the requested scalar.
    Parse(String),
    /// No capture carries the requested field name.
    MissingField(String),
    /// The first capture's value names no variant of the target enum.
    UnknownVariant(String),
    /// An enum target needs at least one capture and none was given.
    Empty(String),
}

impl DecodeError {
    /// The error's message.
    pub open spec fn spec_message(self) -> Seq<char> {
        match self {
            DecodeError::WrongArity(m) => m@,
            DecodeError::Parse(m) => m@,
            DecodeError::MissingField(m) => m@,
            DecodeError::UnknownVariant(m) => m@,
            DecodeError::Empty(m) => m@,
        }
    }

    /// The error's message.
    pub fn message(&self) -> (m: &String)
        ensures
            m@ == self.spec_message(),
    {
        match self {
            DecodeError::WrongArity(m) => m,
            DecodeError::Parse(m) => m,
            DecodeError::MissingField(m) => m,
            DecodeError::UnknownVariant(m) => m,
            DecodeError::Empty(m) => m,
        }
    }
}

/// The message reporting a capture count that does not fit.
pub open spec fn wrong_arity_msg(got: int, expected: int) -> Seq<char> {
    "wrong number of parameters: "@ + spec_u64_string(got) + " expected "@ + spec_u64_string(
        expected,
    )
}

/// The message reporting an unparsable capture.
pub open spec fn parse_msg(value: Seq<char>, target: Seq<char>) -> Seq<char> {
    "can not parse `"@ + value + "` to a "@ + target
}

/// The message reporting an absent field.
pub open spec fn missing_field_msg(name: Seq<char>) -> Seq<char> {
    "missing field `"@ + name + "`"@
}

/// A variant name between backticks.
pub open spec fn ticked(v: Seq<char>) -> Seq<char> {
    "`"@ + v + "`"@
}

/// Backticked variant names joined by commas.
pub open spec fn ticked_list(vs: Seq<Seq<char>>) -> Seq<char>
    decreases vs.len(),
{
    if vs.len() == 0 {
        Seq::empty()
    } else if vs.len() == 1 {
        ticked(vs[0])
    } else {
        ticked_list(vs.drop_last()) + ", "@ + ticked(vs.last())
    }
}

/// How the expected variants are listed in an unknown-variant message.
pub open spec fn expected_list(vs: Seq<Seq<char>>) -> Seq<char> {
    if vs.len() == 0 {
        "nothing"@
    } else if vs.len() == 1 {
        ticked(vs[0])
    } else if vs.len() == 2 {
        ticked(vs[0]) + " or "@ + ticked(vs[1])
    } else {
        "one of "@ + ticked_list(vs)
    }
}

/// The message reporting a value that names no variant.
pub open spec fn unknown_variant_msg(value: Seq<char>, vs: Seq<Seq<char>>) -> Seq<char> {
    "unknown variant `"@ + value + "`, expected "@ + expected_list(vs)
}

/// The message reporting an enum decode with no captures at all.
pub open spec fn empty_msg() -> Seq<char> {
    "expected at least one parameter"@
}

/// The views of a list of variant names.
pub open spec fn variant_views(vs: Seq<&str>) -> Seq<Seq<char>> {
    vs.map_values(|v: &str| v@)
}

fn wrong_arity_error(got: usize, expected: usize) -> (e: DecodeError)
    ensures
        e matches DecodeError::WrongArity(m) && m@ == wrong_arity_msg(
            got as int,
            expected as int,
        ),
{
    let mut m = String::from_str("wrong number of parameters: ");
    m.append(format_u64(got as u64).as_str());
    m.append(" expected ");
    m.append(format_u64(expected as u64).as_str());
    proof {
        assert(m@ =~= wrong_arity_msg(got as int, expected as int));
    }
    DecodeError::WrongArity(m)
}

fn parse_error(value: &str, target: &str) -> (e: DecodeError)
    ensures
        e matches DecodeError::Parse(m) && m@ == parse_msg(value@, target@),
{
    let mut m = String::from_str("can not parse `");
    m.append(value);
    m.append("` to a ");
    m.append(target);
    proof {
        assert(m@ =~= parse_msg(value@, target@));
    }
    DecodeError::Parse(m)
}

fn missing_field_error(name: &str) -> (e: DecodeError)
    ensures
        e matches DecodeError::MissingField(m) && m@ == missing_field_msg(name@),
{
    let mut m = String::from_str("missing field `");
    m.append(name);
    m.append("`");
    proof {
        assert(m@ =~= missing_field_msg(name@));
    }
    DecodeError::MissingField(m)
}

fn unknown_variant_error(value: &str, variants: &[&str]) -> (e: DecodeError)
    ensures
        e matches DecodeError::UnknownVariant(m) && m@ == unknown_variant_msg(
            value@,
            variant_views(variants@),
        ),
{
    proof {
        reveal_strlit("`");
        reveal_strlit(", ");
        reveal_strlit(", `");
        reveal_strlit(" or ");
        reveal_strlit("` or `");
        reveal_strlit("`, expected ");
    }
    let ghost vs = variant_views(variants@);
    let mut m = String::from_str("unknown variant `");
    m.append(value);
    m.append("`, expected ");
    let n: usize = variants.len();
    if n == 0 {
        m.append("nothing");
    } else if n == 1 {
        m.append("`");
        m.append(variants[0]);
        m.append("`");
    } else if n == 2 {
        m.append("`");
        m.append(variants[0]);
        m.append("` or `");
        m.append(variants[1]);
        m.append("`");
    } else {
        m.append("one of ");
        let mut acc = String::from_str("`");
        acc.append(variants[0]);
        acc.append("`");
        proof {
            assert(vs.take(1) =~= seq![vs[0]]);
            assert(acc@ =~= ticked_list(vs.take(1)));
        }
        let mut i: usize = 1;
        while i < n
            invariant
                1 <= i <= n,
                n == variants@.len(),
                vs == variant_views(variants@),
                acc@ == ticked_list(vs.take(i as int)),
            decreases n - i,
        {
            acc.append(", `");
            acc.append(variants[i]);
            acc.append("`");
            proof {
                reveal_strlit("`");
                reveal_strlit(", ");
                reveal_strlit(", `");
                assert(vs.take(i + 1).drop_last() =~= vs.take(i as int));
                assert(vs.take(i + 1).last() == vs[i as int]);
                assert(vs[i as int] == variants@[i as int]@);
                assert(ticked_list(vs.take(i + 1)) == ticked_list(vs.take(i as int)) + ", "@
                    + ticked(vs[i as int]));
                assert(acc@ =~= ticked_list(vs.take(i + 1)));
            }
            i = i + 1;
        }
        proof {
            assert(vs.take(n as int) =~= vs);
        }
        m.append(acc.as_str());
    }
    proof {
        assert(m@ =~= unknown_variant_msg(value@, vs));
    }
    DecodeError::UnknownVariant(m)
}

fn empty_error() -> (e: DecodeError)
    ensures
        e matches DecodeError::Empty(m) && m@ == empty_msg(),
{
    DecodeError::Empty(String::from_str("expected at least one parameter"))
}

/// The views of a list of (name, value) capture pairs.
pub open spec fn pairs_of(items: Seq<(String, String)>) -> Seq<(Seq<char>, Seq<char>)> {
    items.map_values(|p: (String, String)| (p.0@, p.1@))
}

/// The least index whose capture name equals `name`, if any.
pub open spec fn spec_find_key(s: Seq<(Seq<char>, Seq<char>)>, name: Seq<char>) -> Option<int>
    decreases s.len(),
{
    if s.len() == 0 {
        None
    } else if s[0].0 == name {
        Some(0)
    } else {
        match spec_find_key(s.drop_first(), name) {
            Some(i) => Some(i + 1),
            None => None,
        }
    }
}

/// The least index whose entry equals `value`, if any.
pub open spec fn spec_find_variant(vs: Seq<Seq<char>>, value: Seq<char>) -> Option<int>
    decreases vs.len(),
{
    if vs.len() == 0 {
        None
    } else if vs[0] == value {
        Some(0)
    } else {
        match spec_find_variant(vs.drop_first(), value) {
            Some(i) => Some(i + 1),
            None => None,
        }
    }
}

/// The ordered capture list of one matched route, ready to be decoded.
#[derive(Debug)]
pub struct Parameters {
    items: Vec<(String, String)>,
}

impl View for Parameters {
    type V = Seq<(Seq<char>, Seq<char>)>;

    closed spec fn view(&self) -> Seq<(Seq<char>, Seq<char>)> {
        pairs_of(self.items@)
    }
}

impl Parameters {
    /// Wraps an ordered capture list.
    pub fn new(items: Vec<(String, String)>) -> (p: Parameters)
        ensures
            p@ == pairs_of(items@),
    {
        Parameters { items }
    }

    /// How many captures there are.
    pub fn len(&self) -> (n: usize)
        ensures
            n == self@.len(),
    {
        self.items.len()
    }

    /// The single capture's value: the base of every scalar decode.  Exactly
    /// one capture must be present.
    pub fn one_value(&self) -> (r: Result<&String, DecodeError>)
        ensures
            match r {
                Ok(v) => self@.len() == 1 && v@ == self@[0].1,
                Err(e) => e matches DecodeError::WrongArity(m) && self@.len() != 1 && m@
                    == wrong_arity_msg(self@.len() as int, 1),
            },
    {
        if self.items.len() != 1 {
            Err(wrong_arity_error(self.items.len(), 1))
        } else {
            Ok(&self.items[0].1)
        }
    }

    /// Decodes the capture list as one `u64`.
    pub fn one_u64(&self) -> (r: Result<u64, DecodeError>)
        ensures
            match r {
                Ok(v) => self@.len() == 1 && spec_parse_u64(self@[0].1) == Some(v),
                Err(e) => match e {
                    DecodeError::WrongArity(m) => self@.len() != 1 && m@ == wrong_arity_msg(
                        self@.len() as int,
                        1,
                    ),
                    DecodeError::Parse(m) => self@.len() == 1 && spec_parse_u64(self@[0].1)
                        is None && m@ == parse_msg(self@[0].1, "u64"@),
                    _ => false,
                },
            },
    {
        let v = match self.one_value() {
            Ok(v) => v,
            Err(e) => {
                return Err(e);
            },
        };
        match parse_u64(v.as_str()) {
            Some(n) => Ok(n),
            None => Err(parse_error(v.as_str(), "u64")),
        }
    }

    /// Decodes the capture list as one `i64`.
    pub fn one_i64(&self) -> (r: Result<i64, DecodeError>)
        ensures
            match r {
                Ok(v) => self@.len() == 1 && spec_parse_i64(self@[0].1) == Some(v),
                Err(e) => match e {
                    DecodeError::WrongArity(m) => self@.len() != 1 && m@ == wrong_arity_msg(
                        self@.len() as int,
                        1,
                    ),
                    DecodeError::Parse(m) => self@.len() == 1 && spec_parse_i64(self@[0].1)
                        is None && m@ == parse_msg(self@[0].1, "i64"@),
                    _ => false,
                },
            },
    {
        let v = match self.one_value() {
            Ok(v) => v,
            Err(e) => {
                return Err(e);
            },
        };
        match parse_i64(v.as_str()) {
            Some(n) => Ok(n),
            None => Err(parse_error(v.as_str(), "i64")),
        }
    }

    /// Decodes the capture list as one `bool`.
    pub fn one_bool(&self) -> (r: Result<bool, DecodeError>)
        ensures
            match r {
                Ok(v) => self@.len() == 1 && spec_parse_bool(self@[0].1) == Some(v),
                Err(e) => match e {
                    DecodeError::WrongArity(m) => self@.len() != 1 && m@ == wrong_arity_msg(
                        self@.len() as int,
                        1,
                    ),
                    DecodeError::Parse(m) => self@.len() == 1 && spec_parse_bool(self@[0].1)
                        is None && m@ == parse_msg(self@[0].1, "bool"@),
                    _ => false,
                },
            },
    {
        let v = match self.one_value() {
            Ok(v) => v,
            Err(e) => {
                return Err(e);
            },
        };
        match parse_bool(v.as_str()) {
            Some(b) => Ok(b),
            None => Err(parse_error(v.as_str(), "bool")),
        }
    }

    /// Decodes the capture list as one `char`.
    pub fn one_char(&self) -> (r: Result<char, DecodeError>)
        ensures
            match r {
                Ok(v) => self@.len() == 1 && spec_parse_char(self@[0].1) == Some(v),
                Err(e) => match e {
                    DecodeError::WrongArity(m) => self@.len() != 1 && m@ == wrong_arity_msg(
                        self@.len() as int,
                        1,
                    ),
                    DecodeError::Parse(m) => self@.len() == 1 && spec_parse_char(self@[0].1)
                        is None && m@ == parse_msg(self@[0].1, "char"@),
                    _ => false,
                },
            },
    {
        let v = match self.one_value() {
            Ok(v) => v,
            Err(e) => {
                return Err(e);
            },
        };
        match parse_char(v.as_str()) {
            Some(c) => Ok(c),
            None => Err(parse_error(v.as_str(), "char")),
        }
    }

    /// Decodes the capture list as one string.
    pub fn one_string(&self) -> (r: Result<String, DecodeError>)
        ensures
            match r {
                Ok(v) => self@.len() == 1 && v@ == self@[0].1,
                Err(e) => e matches DecodeError::WrongArity(m) && self@.len() != 1 && m@
                    == wrong_arity_msg(self@.len() as int, 1),
            },
    {
        match self.one_value() {
            Ok(v) => Ok(v.clone()),
            Err(e) => Err(e),
        }
    }

    /// The capture values in order, names dropped: the positional view that
    /// sequence targets read.
    pub fn values(&self) -> (r: Vec<String>)
        ensures
            r@.len() == self@.len(),
            forall|i: int| 0 <= i < r@.len() ==> r@[i]@ == self@[i].1,
    {
        let mut r: Vec<String> = Vec::new();
        let n = self.items.len();
        let mut i: usize = 0;
        while i < n
            invariant
                i <= n,
                n == self.items@.len(),
                r@.len() == i,
                forall|j: int| 0 <= j < i ==> r@[j]@ == self@[j].1,
            decreases n - i,
        {
            r.push(self.items[i].1.clone());
            i = i + 1;
        }
        r
    }

    /// Checks that at least `n` captures are present, as a tuple or
    /// fixed-size-array target of arity `n` demands.
    pub fn tuple_arity(&self, n: usize) -> (r: Result<(), DecodeError>)
        ensures
            match r {
                Ok(_) => self@.len() >= n,
                Err(e) => e matches DecodeError::WrongArity(m) && self@.len() < n && m@
                    == wrong_arity_msg(self@.len() as int, n as int),
            },
    {
        if self.items.len() < n {
            Err(wrong_arity_error(self.items.len(), n))
        } else {
            Ok(())
        }
    }

    /// The value at position `i`, as positional targets read it.
    pub fn string_at(&self, i: usize) -> (r: Result<String, DecodeError>)
        requires
            i < usize::MAX,
        ensures
            match r {
                Ok(v) => i < self@.len() && v@ == self@[i as int].1,
                Err(e) => e matches DecodeError::WrongArity(m) && i >= self@.len() && m@
                    == wrong_arity_msg(self@.len() as int, i + 1),
            },
    {
        if i >= self.items.len() {
            Err(wrong_arity_error(self.items.len(), i + 1))
        } else {
            Ok(self.items[i].1.clone())
        }
    }

    /// The value at position `i`, parsed as a `u64`.
    pub fn u64_at(&self, i: usize) -> (r: Result<u64, DecodeError>)
        requires
            i < usize::MAX,
        ensures
            match r {
                Ok(v) => i < self@.len() && spec_parse_u64(self@[i as int].1) == Some(v),
                Err(e) => match e {
                    DecodeError::WrongArity(m) => i >= self@.len() && m@ == wrong_arity_msg(
                        self@.len() as int,
                        i + 1,
                    ),
                    DecodeError::Parse(m) => i < self@.len() && spec_parse_u64(self@[i as int].1)
                        is None && m@ == parse_msg(self@[i as int].1, "u64"@),
                    _ => false,
                },
            },
    {
        if i >= self.items.len() {
            return Err(wrong_arity_error(self.items.len(), i + 1));
        }
        let v = &self.items[i].1;
        match parse_u64(v.as_str()) {
            Some(n) => Ok(n),
            None => Err(parse_error(v.as_str(), "u64")),
        }
    }

    /// The least-indexed capture named `name`, if any: the lookup a struct
    /// target makes for each of its fields.
    pub fn field(&self, name: &str) -> (r: Option<&String>)
        ensures
            match r {
                Some(v) => spec_find_key(self@, name@) matches Some(i) && v@ == self@[i].1,
                None => spec_find_key(self@, name@) is None,
            },
    {
        let n = self.items.len();
        let mut i: usize = 0;
        while i < n
            invariant
                i <= n,
                n == self.items@.len(),
                forall|j: int| 0 <= j < i ==> self@[j].0 != name@,
            decreases n - i,
        {
            if str_eq(self.items[i].0.as_str(), name) {
                proof {
                    lemma_find_key_first(self@, name@, i as int);
                }
                return Some(&self.items[i].1);
            }
            i = i + 1;
        }
        proof {
            lemma_find_key_none(self@, name@);
        }
        None
    }

    /// The capture named `name`, parsed as a `u64`; the field must be
    /// present.
    pub fn field_u64(&self, name: &str) -> (r: Result<u64, DecodeError>)
        ensures
            match r {
                Ok(v) => spec_find_key(self@, name@) matches Some(i) && spec_parse_u64(self@[i].1)
                    == Some(v),
                Err(e) => match e {
                    DecodeError::MissingField(m) => spec_find_key(self@, name@) is None && m@
                        == missing_field_msg(name@),
                    DecodeError::Parse(m) => spec_find_key(self@, name@) matches Some(i)
                        && spec_parse_u64(self@[i].1) is None && m@ == parse_msg(
                        self@[i].1,
                        "u64"@,
                    ),
                    _ => false,
                },
            },
    {
        match self.field(name) {
            Some(v) => match parse_u64(v.as_str()) {
                Some(n) => Ok(n),
                None => Err(parse_error(v.as_str(), "u64")),
            },
            None => Err(missing_field_error(name)),
        }
    }

    /// The capture named `name`, parsed as a `u64` if present: how an
    /// optional field decodes, absence being no error.
    pub fn field_opt_u64(&self, name: &str) -> (r: Result<Option<u64>, DecodeError>)
        ensures
            match r {
                Ok(opt) => match opt {
                    Some(v) => spec_find_key(self@, name@) matches Some(i) && spec_parse_u64(
                        self@[i].1,
                    ) == Some(v),
                    None => spec_find_key(self@, name@) is None,
                },
                Err(e) => e matches DecodeError::Parse(m) && spec_find_key(self@, name@)
                    matches Some(i) && spec_parse_u64(self@[i].1) is None && m@ == parse_msg(
                    self@[i].1,
                    "u64"@,
                ),
            },
    {
        match self.field(name) {
            Some(v) => match parse_u64(v.as_str()) {
                Some(n) => Ok(Some(n)),
                None => Err(parse_error(v.as_str(), "u64")),
            },
            None => Ok(None),
        }
    }

    /// The capture named `name` as a string; the field must be present.
    pub fn field_string(&self, name: &str) -> (r: Result<String, DecodeError>)
        ensures
            match r {
                Ok(v) => spec_find_key(self@, name@) matches Some(i) && v@ == self@[i].1,
                Err(e) => e matches DecodeError::MissingField(m) && spec_find_key(self@, name@)
                    is None && m@ == missing_field_msg(name@),
            },
    {
        match self.field(name) {
            Some(v) => Ok(v.clone()),
            None => Err(missing_field_error(name)),
        }
    }

    /// Decodes the capture list as a unit enum: the first capture's value,
    /// matched case-sensitively against the declared variant names, picks the
    /// variant.  At least one capture must be present.
    pub fn variant(&self, variants: &[&str]) -> (r: Result<usize, DecodeError>)
        ensures
            match r {
                Ok(i) => self@.len() > 0 && spec_find_variant(
                    variant_views(variants@),
                    self@[0].1,
                ) == Some(i as int),
                Err(e) => match e {
                    DecodeError::Empty(m) => self@.len() == 0 && m@ == empty_msg(),
                    DecodeError::UnknownVariant(m) => self@.len() > 0 && spec_find_variant(
                        variant_views(variants@),
                        self@[0].1,
                    ) is None && m@ == unknown_variant_msg(self@[0].1, variant_views(variants@)),
                    _ => false,
                },
            },
    {
        if self.items.len() == 0 {
            return Err(empty_error());
        }
        match_variant(self.items[0].1.as_str(), variants)
    }

    /// Decodes the value at position `i` as a unit enum, as a positional
    /// element of enum type does.
    pub fn variant_at(&self, i: usize, variants: &[&str]) -> (r: Result<usize, DecodeError>)
        requires
            i < usize::MAX,
        ensures
            match r {
                Ok(k) => i < self@.len() && spec_find_variant(
                    variant_views(variants@),
                    self@[i as int].1,
                ) == Some(k as int),
                Err(e) => match e {
                    DecodeError::WrongArity(m) => i >= self@.len() && m@ == wrong_arity_msg(
                        self@.len() as int,
                        i + 1,
                    ),
                    DecodeError::UnknownVariant(m) => i < self@.len() && spec_find_variant(
                        variant_views(variants@),
                        self@[i as int].1,
                    ) is None && m@ == unknown_variant_msg(
                        self@[i as int].1,
                        variant_views(variants@),
                    ),
                    _ => false,
                },
            },
    {
        if i >= self.items.len() {
            return Err(wrong_arity_error(self.items.len(), i + 1));
        }
        match_variant(self.items[i].1.as_str(), variants)
    }
}

/// Matches a captured value against declared unit-variant names,
/// case-sensitively, yielding the index of the first that fits.
pub fn match_variant(value: &str, variants: &[&str]) -> (r: Result<usize, DecodeError>)
    ensures
        match r {
            Ok(i) => spec_find_variant(variant_views(variants@), value@) == Some(i as int),
            Err(e) => e matches DecodeError::UnknownVariant(m) && spec_find_variant(
                variant_views(variants@),
                value@,
            ) is None && m@ == unknown_variant_msg(value@, variant_views(variants@)),
        },
{
    let n = variants.len();
    let mut i: usize = 0;
    while i < n
        invariant
            i <= n,
            n == variants@.len(),
            forall|j: int| 0 <= j < i ==> variant_views(variants@)[j] != value@,
        decreases n - i,
    {
        if str_eq(variants[i], value) {
            proof {
                lemma_find_variant_first(variant_views(variants@), value@, i as int);
            }
            return Ok(i);
        }
        i = i + 1;
    }
    proof {
        lemma_find_variant_none(variant_views(variants@), value@);
    }
    Err(unknown_variant_error(value, variants))
}

/// A name first seen at index `i` is found exactly there.
proof fn lemma_find_key_first(s: Seq<(Seq<char>, Seq<char>)>, name: Seq<char>, i: int)
    requires
        0 <= i < s.len(),
        s[i].0 == name,
        forall|j: int| 0 <= j < i ==> s[j].0 != name,
    ensures
        spec_find_key(s, name) == Some(i),
    decreases i,
{
    if i > 0 {
        lemma_find_key_first(s.drop_first(), name, i - 1);
    }
}

/// A name in no pair is found nowhere.
proof fn lemma_find_key_none(s: Seq<(Seq<char>, Seq<char>)>, name: Seq<char>)
    requires
        forall|j: int| 0 <= j < s.len() ==> s[j].0 != name,
    ensures
        spec_find_key(s, name) is None,
    decreases s.len(),
{
    if s.len() > 0 {
        lemma_find_key_none(s.drop_first(), name);
    }
}

/// A value first seen at index `i` is found exactly there.
proof fn lemma_find_variant_first(vs: Seq<Seq<char>>, value: Seq<char>, i: int)
    requires
        0 <= i < vs.len(),
        vs[i] == value,
        forall|j: int| 0 <= j < i ==> vs[j] != value,
    ensures
        spec_find_variant(vs, value) == Some(i),
    decreases i,
{
    if i > 0 {
        lemma_find_variant_first(vs.drop_first(), value, i - 1);
    }
}

/// A value in no entry is found nowhere.
proof fn lemma_find_variant_none(vs: Seq<Seq<char>>, value: Seq<char>)
    requires
        forall|j: int| 0 <= j < vs.len() ==> vs[j] != value,
    ensures
        spec_find_variant(vs, value) is None,
    decreases vs.len(),
{
    if vs.len() > 0 {
        lemma_find_variant_none(vs.drop_first(), value);
    }
}

} // verus!
