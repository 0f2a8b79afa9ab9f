//! The names that primitive types and transforms have in metadata files.

use crate::datatypes::PrimitiveType;
use crate::text::{decimal, digit, digits, push_decimal_u64};
use crate::transform::Transform;
use vstd::prelude::*;
use vstd::string::{StrSliceExecFns, StringExecFns};

verus! {

/// What a digit counts, if the character is one.
pub open spec fn digit_value(c: char) -> Option<nat> {
    if '0' <= c && c <= '9' {
        Some((c as int - '0' as int) as nat)
    } else {
        None
    }
}

/// The number that a text of digits says, if the text is one.
pub open spec fn number_of(s: Seq<char>) -> Option<nat>
    decreases s.len(),
{
    if s.len() == 0 {
        None
    } else if s.len() == 1 {
        digit_value(s[0])
    } else {
        match number_of(s.drop_last()) {
            None => None,
            Some(n) => match digit_value(s.last()) {
                None => None,
                Some(d) => Some(10 * n + d),
            },
        }
    }
}

/// The number that a text of digits says, if the text is one and the number is no greater than
/// `limit`.
pub open spec fn number_within(s: Seq<char>, limit: nat) -> Option<nat> {
    match number_of(s) {
        Some(n) => if n <= limit {
            Some(n)
        } else {
            None
        },
        None => None,
    }
}

/// The text without the spaces at its beginning.
pub open spec fn without_leading_spaces(s: Seq<char>) -> Seq<char>
    decreases s.len(),
{
    if s.len() > 0 && s[0] == ' ' {
        without_leading_spaces(s.drop_first())
    } else {
        s
    }
}

/// The text is some text between these two.
pub open spec fn enclosed(s: Seq<char>, before: Seq<char>, after: Seq<char>) -> bool {
    &&& before.len() + after.len() <= s.len()
    &&& s.take(before.len() as int) == before
    &&& s.skip(s.len() - after.len()) == after
}

/// The text between these two.
pub open spec fn inside(s: Seq<char>, before: Seq<char>, after: Seq<char>) -> Seq<char> {
    s.subrange(before.len() as int, s.len() - after.len())
}

/// The name of a primitive type.
pub open spec fn primitive_name(t: PrimitiveType) -> Seq<char> {
    match t {
        PrimitiveType::Boolean => "boolean"@,
        PrimitiveType::Int => "int"@,
        PrimitiveType::Long => "long"@,
        PrimitiveType::Float => "float"@,
        PrimitiveType::Double => "double"@,
        PrimitiveType::Decimal { precision, scale } => "decimal("@ + decimal(precision as int) + ","@ + decimal(
            scale as int,
        ) + ")"@,
        PrimitiveType::Date => "date"@,
        PrimitiveType::Time => "time"@,
        PrimitiveType::Timestamp => "timestamp"@,
        PrimitiveType::Timestamptz => "timestamptz"@,
        PrimitiveType::TimestampNs => "timestamp_ns"@,
        PrimitiveType::TimestamptzNs => "timestamptz_ns"@,
        PrimitiveType::String => "string"@,
        PrimitiveType::Uuid => "uuid"@,
        PrimitiveType::Fixed(n) => "fixed["@ + decimal(n as int) + "]"@,
        PrimitiveType::Binary => "binary"@,
    }
}

/// The primitive type whose name has no numbers in it.
pub open spec fn plain_primitive_named(s: Seq<char>) -> Option<PrimitiveType> {
    if s == "boolean"@ {
        Some(PrimitiveType::Boolean)
    } else if s == "int"@ {
        Some(PrimitiveType::Int)
    } else if s == "long"@ {
        Some(PrimitiveType::Long)
    } else if s == "float"@ {
        Some(PrimitiveType::Float)
    } else if s == "double"@ {
        Some(PrimitiveType::Double)
    } else if s == "date"@ {
        Some(PrimitiveType::Date)
    } else if s == "time"@ {
        Some(PrimitiveType::Time)
    } else if s == "timestamp"@ {
        Some(PrimitiveType::Timestamp)
    } else if s == "timestamptz"@ {
        Some(PrimitiveType::Timestamptz)
    } else if s == "timestamp_ns"@ {
        Some(PrimitiveType::TimestampNs)
    } else if s == "timestamptz_ns"@ {
        Some(PrimitiveType::TimestamptzNs)
    } else if s == "string"@ {
        Some(PrimitiveType::String)
    } else if s == "uuid"@ {
        Some(PrimitiveType::Uuid)
    } else if s == "binary"@ {
        Some(PrimitiveType::Binary)
    } else {
        None
    }
}

/// The decimal type with this precision and scale: two numbers with a comma between them, spaces
/// allowed before each number.
pub open spec fn decimal_type_of(s: Seq<char>) -> Option<PrimitiveType> {
    match s.index_of_first(',') {
        None => None,
        Some(comma) => match number_within(without_leading_spaces(s.take(comma)), u32::MAX as nat) {
            None => None,
            Some(precision) => match number_within(without_leading_spaces(s.skip(comma + 1)), u32::MAX as nat) {
                None => None,
                Some(scale) => Some(
                    PrimitiveType::Decimal { precision: precision as u32, scale: scale as u32 },
                ),
            },
        },
    }
}

/// The primitive type with this name.
pub open spec fn primitive_named(s: Seq<char>) -> Option<PrimitiveType> {
    if enclosed(s, "fixed["@, "]"@) {
        match number_within(inside(s, "fixed["@, "]"@), u64::MAX as nat) {
            Some(n) => Some(PrimitiveType::Fixed(n as u64)),
            None => None,
        }
    } else if enclosed(s, "decimal("@, ")"@) {
        decimal_type_of(inside(s, "decimal("@, ")"@))
    } else {
        plain_primitive_named(s)
    }
}

/// The name of a transform.
pub open spec fn transform_name(t: Transform) -> Seq<char> {
    match t {
        Transform::Identity => "identity"@,
        Transform::Bucket(n) => "bucket["@ + decimal(n as int) + "]"@,
        Transform::Truncate(w) => "truncate["@ + decimal(w as int) + "]"@,
        Transform::Year => "year"@,
        Transform::Month => "month"@,
        Transform::Day => "day"@,
        Transform::Hour => "hour"@,
        Transform::Void => "void"@,
        Transform::Unknown => "unknown"@,
    }
}

/// The transform with this name.
pub open spec fn transform_named(s: Seq<char>) -> Option<Transform> {
    if enclosed(s, "bucket["@, "]"@) {
        match number_within(inside(s, "bucket["@, "]"@), u32::MAX as nat) {
            Some(n) => Some(Transform::Bucket(n as u32)),
            None => None,
        }
    } else if enclosed(s, "truncate["@, "]"@) {
        match number_within(inside(s, "truncate["@, "]"@), u32::MAX as nat) {
            Some(n) => Some(Transform::Truncate(n as u32)),
            None => None,
        }
    } else if s == "identity"@ {
        Some(Transform::Identity)
    } else if s == "year"@ {
        Some(Transform::Year)
    } else if s == "month"@ {
        Some(Transform::Month)
    } else if s == "day"@ {
        Some(Transform::Day)
    } else if s == "hour"@ {
        Some(Transform::Hour)
    } else if s == "void"@ {
        Some(Transform::Void)
    } else if s == "unknown"@ {
        Some(Transform::Unknown)
    } else {
        None
    }
}

/// A digit says what it counts, and is neither a comma nor a space.
proof fn digit_means(d: nat)
    requires
        d < 10,
    ensures
        digit(d).len() == 1,
        digit_value(digit(d)[0]) == Some(d),
{
    reveal_strlit("0");
    reveal_strlit("1");
    reveal_strlit("2");
    reveal_strlit("3");
    reveal_strlit("4");
    reveal_strlit("5");
    reveal_strlit("6");
    reveal_strlit("7");
    reveal_strlit("8");
    reveal_strlit("9");
}

/// The decimal form of a number says that number, and all its characters are digits.
pub proof fn digits_mean(n: nat)
    ensures
        digits(n).len() > 0,
        number_of(digits(n)) == Some(n),
        forall|i: int| 0 <= i < digits(n).len() ==> digit_value(#[trigger] digits(n)[i]) is Some,
    decreases n,
{
    if n < 10 {
        digit_means(n);
    } else {
        digits_mean(n / 10);
        digit_means(n % 10);
        assert(digits(n).drop_last() =~= digits(n / 10));
        assert(digits(n).last() == digit(n % 10)[0]);
        assert forall|i: int| 0 <= i < digits(n).len() implies digit_value(#[trigger] digits(n)[i]) is Some by {
            if i < digits(n).len() - 1 {
                assert(digits(n)[i] == digits(n / 10)[i]);
            }
        }
    }
}

/// A text of digits begins with a text of digits, which says no greater number.
proof fn number_prefix(s: Seq<char>, k: int)
    requires
        0 < k <= s.len(),
        number_of(s) is Some,
    ensures
        number_of(s.take(k)) is Some,
        number_of(s.take(k)).unwrap() <= number_of(s).unwrap(),
    decreases s.len(),
{
    if k == s.len() {
        assert(s.take(k) =~= s);
    } else {
        assert(s.drop_last().take(k) =~= s.take(k));
        number_prefix(s.drop_last(), k);
    }
}

/// A text between two others is told apart from them.
proof fn enclosing(before: Seq<char>, middle: Seq<char>, after: Seq<char>)
    ensures
        enclosed(before + middle + after, before, after),
        inside(before + middle + after, before, after) == middle,
{
    let s: Seq<char> = before + middle + after;
    assert(s.take(before.len() as int) =~= before);
    assert(s.skip(s.len() - after.len()) =~= after);
    assert(inside(s, before, after) =~= middle);
}

/// The decimal form of a number begins with a digit and has no comma in it.
proof fn decimal_is_bare(n: nat)
    ensures
        decimal(n as int) == digits(n),
        number_of(decimal(n as int)) == Some(n),
        without_leading_spaces(decimal(n as int)) == decimal(n as int),
        !decimal(n as int).contains(','),
{
    digits_mean(n);
    assert(digit_value(digits(n)[0]) is Some);
    assert forall|i: int| 0 <= i < digits(n).len() implies digits(n)[i] != ',' by {
        assert(digit_value(digits(n)[i]) is Some);
    }
}

/// The name of a primitive type names that type.
pub proof fn primitive_names_read_back(t: PrimitiveType)
    ensures
        primitive_named(primitive_name(t)) == Some(t),
{
    reveal_strlit("fixed[");
    reveal_strlit("]");
    reveal_strlit("decimal(");
    reveal_strlit(")");
    reveal_strlit(",");
    match t {
        PrimitiveType::Fixed(n) => {
            decimal_is_bare(n as nat);
            enclosing("fixed["@, decimal(n as int), "]"@);
        },
        PrimitiveType::Decimal { precision, scale } => {
            decimal_is_bare(precision as nat);
            decimal_is_bare(scale as nat);
            let p: Seq<char> = decimal(precision as int);
            let q: Seq<char> = decimal(scale as int);
            let numbers: Seq<char> = p + ","@ + q;
            assert(primitive_name(t) =~= "decimal("@ + numbers + ")"@);
            enclosing("decimal("@, numbers, ")"@);
            assert(primitive_name(t).last() == ')');
            assert(!enclosed(primitive_name(t), "fixed["@, "]"@)) by {
                assert(primitive_name(t).skip(primitive_name(t).len() - 1)[0] == ')');
            }
            assert(numbers[p.len() as int] == ',');
            assert forall|i: int| 0 <= i < p.len() implies numbers[i] != ',' by {
                assert(p.contains(p[i]));
            }
            numbers.index_of_first_ensures(',');
            assert(numbers.contains(','));
            assert(numbers.take(p.len() as int) =~= p);
            assert(numbers.skip(p.len() as int + 1) =~= q);
        },
        _ => {
            plain_primitive_names_read_back(t);
        },
    }
}

/// The name of a transform names that transform.
pub proof fn transform_names_read_back(t: Transform)
    ensures
        transform_named(transform_name(t)) == Some(t),
{
    reveal_strlit("bucket[");
    reveal_strlit("truncate[");
    reveal_strlit("]");
    match t {
        Transform::Bucket(n) => {
            decimal_is_bare(n as nat);
            enclosing("bucket["@, decimal(n as int), "]"@);
        },
        Transform::Truncate(w) => {
            decimal_is_bare(w as nat);
            enclosing("truncate["@, decimal(w as int), "]"@);
            assert(!enclosed(transform_name(t), "bucket["@, "]"@)) by {
                assert(transform_name(t).take(7)[0] == 't');
            }
        },
        _ => {
            reveal_strlit("identity");
            reveal_strlit("year");
            reveal_strlit("month");
            reveal_strlit("day");
            reveal_strlit("hour");
            reveal_strlit("void");
            reveal_strlit("unknown");
            let s: Seq<char> = transform_name(t);
            assert(s.skip(s.len() - 1)[0] != ']');
            assert("identity"@[0] == 'i');
            assert("year"@[0] == 'y');
            assert("month"@[0] == 'm');
            assert("day"@[0] == 'd');
            assert("hour"@[0] == 'h');
            assert("void"@[0] == 'v');
            assert("unknown"@[0] == 'u');
        },
    }
}

proof fn plain_primitive_names_read_back(t: PrimitiveType)
    requires
        !(t is Fixed),
        !(t is Decimal),
    ensures
        primitive_named(primitive_name(t)) == Some(t),
{
    reveal_strlit("fixed[");
    reveal_strlit("]");
    reveal_strlit("decimal(");
    reveal_strlit(")");
    reveal_strlit("boolean");
    reveal_strlit("int");
    reveal_strlit("long");
    reveal_strlit("float");
    reveal_strlit("double");
    reveal_strlit("date");
    reveal_strlit("time");
    reveal_strlit("timestamp");
    reveal_strlit("timestamptz");
    reveal_strlit("timestamp_ns");
    reveal_strlit("timestamptz_ns");
    reveal_strlit("string");
    reveal_strlit("uuid");
    reveal_strlit("binary");
    let s: Seq<char> = primitive_name(t);
    assert(s.skip(s.len() - 1)[0] != ']');
    assert(s.skip(s.len() - 1)[0] != ')');
    assert("boolean"@[1] == 'o');
    assert("binary"@[1] == 'i');
    assert("int"@[0] == 'i');
    assert("long"@[0] == 'l');
    assert("float"@[0] == 'f');
    assert("double"@[1] == 'o');
    assert("date"@[0] == 'd');
    assert("time"@[0] == 't');
    assert("uuid"@[0] == 'u');
    assert("string"@[0] == 's');
}

fn digit_of(c: char) -> (r: Option<u64>)
    ensures
        match r {
            Some(d) => digit_value(c) == Some(d as nat) && d < 10,
            None => digit_value(c) is None,
        },
{
    if '0' <= c && c <= '9' {
        Some((c as u32 - '0' as u32) as u64)
    } else {
        None
    }
}

/// The number in a part of a text.
fn number_at(text: &str, from: usize, to: usize, limit: u64) -> (r: Option<u64>)
    requires
        from <= to <= text@.len(),
    ensures
        ({
            let said = number_within(text@.subrange(from as int, to as int), limit as nat);
            match r {
                Some(n) => said == Some(n as nat) && n <= limit,
                None => said is None,
            }
        }),
{
    let ghost part: Seq<char> = text@.subrange(from as int, to as int);
    if from == to {
        return None;
    }
    let mut n: u64 = 0;
    let mut i: usize = from;
    while i < to
        invariant
            from <= i <= to <= text@.len(),
            from < to,
            part == text@.subrange(from as int, to as int),
            i == from ==> n == 0,
            i > from ==> number_of(part.take(i - from)) == Some(n as nat) && n <= limit,
        decreases to - i,
    {
        let ghost next: Seq<char> = part.take(i - from + 1);
        proof {
            assert(next.last() == text@[i as int]);
            assert(next.drop_last() =~= part.take(i - from));
            if number_of(part) is Some {
                number_prefix(part, i - from + 1);
            }
        }
        match digit_of(text.get_char(i)) {
            None => {
                return None;
            },
            Some(d) => {
                proof {
                    assert(number_of(next) == Some((10 * n + d) as nat));
                }
                if d > limit || n > (limit - d) / 10 {
                    return None;
                }
                n = 10 * n + d;
            },
        }
        i = i + 1;
    }
    proof {
        assert(part.take(i - from) =~= part);
    }
    Some(n)
}

/// Where the spaces at the beginning of a part of a text end.
fn skip_spaces(text: &str, from: usize, to: usize) -> (r: usize)
    requires
        from <= to <= text@.len(),
    ensures
        from <= r <= to,
        text@.subrange(r as int, to as int) == without_leading_spaces(text@.subrange(from as int, to as int)),
{
    let mut i: usize = from;
    while i < to && text.get_char(i) == ' '
        invariant
            from <= i <= to <= text@.len(),
            without_leading_spaces(text@.subrange(i as int, to as int)) == without_leading_spaces(
                text@.subrange(from as int, to as int),
            ),
        ensures
            from <= i <= to,
            i < to ==> text@[i as int] != ' ',
            without_leading_spaces(text@.subrange(i as int, to as int)) == without_leading_spaces(
                text@.subrange(from as int, to as int),
            ),
        decreases to - i,
    {
        proof {
            assert(text@.subrange(i as int, to as int).drop_first() =~= text@.subrange(i + 1, to as int));
        }
        i = i + 1;
    }
    i
}

/// Tells whether the text is some text between these two.
fn is_enclosed(text: &str, before: &str, after: &str) -> (r: bool)
    requires
        before@.len() + after@.len() <= usize::MAX,
    ensures
        r == enclosed(text@, before@, after@),
{
    let n: usize = text.unicode_len();
    let b: usize = before.unicode_len();
    let a: usize = after.unicode_len();
    if n < b + a {
        return false;
    }
    let head: String = text.substring_char(0, b).to_owned();
    let tail: String = text.substring_char(n - a, n).to_owned();
    proof {
        assert(head@ =~= text@.take(b as int));
        assert(tail@ =~= text@.skip(n - a));
    }
    head == before.to_owned() && tail == after.to_owned()
}

fn is_text(text: &str, other: &str) -> (r: bool)
    ensures
        r == (text@ == other@),
{
    text.to_owned() == other.to_owned()
}

/// The place of the first comma in a part of a text.
fn comma_at(text: &str, from: usize, to: usize) -> (r: Option<usize>)
    requires
        from <= to <= text@.len(),
    ensures
        ({
            let place = text@.subrange(from as int, to as int).index_of_first(',');
            match r {
                Some(i) => from <= i < to && place == Some(i - from),
                None => place is None,
            }
        }),
{
    let ghost part: Seq<char> = text@.subrange(from as int, to as int);
    let mut i: usize = from;
    while i < to
        invariant
            from <= i <= to <= text@.len(),
            part == text@.subrange(from as int, to as int),
            forall|j: int| 0 <= j < i - from ==> part[j] != ',',
        decreases to - i,
    {
        if text.get_char(i) == ',' {
            proof {
                assert(part[i - from] == ',');
                part.index_of_first_ensures(',');
            }
            return Some(i);
        }
        i = i + 1;
    }
    proof {
        part.index_of_first_ensures(',');
    }
    None
}

impl PrimitiveType {
    /// The name of the type in metadata files.
    pub fn name(self) -> (r: String)
        ensures
            r@ == primitive_name(self),
    {
        match self {
            PrimitiveType::Boolean => "boolean".to_owned(),
            PrimitiveType::Int => "int".to_owned(),
            PrimitiveType::Long => "long".to_owned(),
            PrimitiveType::Float => "float".to_owned(),
            PrimitiveType::Double => "double".to_owned(),
            PrimitiveType::Decimal { precision, scale } => {
                let mut text: String = "decimal(".to_owned();
                push_decimal_u64(&mut text, precision as u64);
                text.append(",");
                push_decimal_u64(&mut text, scale as u64);
                text.append(")");
                text
            },
            PrimitiveType::Date => "date".to_owned(),
            PrimitiveType::Time => "time".to_owned(),
            PrimitiveType::Timestamp => "timestamp".to_owned(),
            PrimitiveType::Timestamptz => "timestamptz".to_owned(),
            PrimitiveType::TimestampNs => "timestamp_ns".to_owned(),
            PrimitiveType::TimestamptzNs => "timestamptz_ns".to_owned(),
            PrimitiveType::String => "string".to_owned(),
            PrimitiveType::Uuid => "uuid".to_owned(),
            PrimitiveType::Fixed(n) => {
                let mut text: String = "fixed[".to_owned();
                push_decimal_u64(&mut text, n);
                text.append("]");
                text
            },
            PrimitiveType::Binary => "binary".to_owned(),
        }
    }

    /// The type with this name in metadata files.
    pub fn from_name(name: &str) -> (r: Option<PrimitiveType>)
        ensures
            r == primitive_named(name@),
    {
        proof {
            reveal_strlit("fixed[");
            reveal_strlit("]");
            reveal_strlit("decimal(");
            reveal_strlit(")");
        }
        let n: usize = name.unicode_len();
        if is_enclosed(name, "fixed[", "]") {
            return match number_at(name, 6, n - 1, u64::MAX) {
                Some(length) => Some(PrimitiveType::Fixed(length)),
                None => None,
            };
        }
        if is_enclosed(name, "decimal(", ")") {
            let ghost numbers: Seq<char> = name@.subrange(8, n - 1);
            return match comma_at(name, 8, n - 1) {
                None => None,
                Some(comma) => {
                    let first: usize = skip_spaces(name, 8, comma);
                    let second: usize = skip_spaces(name, comma + 1, n - 1);
                    proof {
                        assert(name@.subrange(8, comma as int) =~= numbers.take(comma - 8));
                        assert(name@.subrange(comma + 1, n - 1) =~= numbers.skip(comma - 8 + 1));
                    }
                    match number_at(name, first, comma, u32::MAX as u64) {
                        None => None,
                        Some(precision) => match number_at(name, second, n - 1, u32::MAX as u64) {
                            None => None,
                            Some(scale) => Some(
                                PrimitiveType::Decimal { precision: precision as u32, scale: scale as u32 },
                            ),
                        },
                    }
                },
            };
        }
        if is_text(name, "boolean") {
            Some(PrimitiveType::Boolean)
        } else if is_text(name, "int") {
            Some(PrimitiveType::Int)
        } else if is_text(name, "long") {
            Some(PrimitiveType::Long)
        } else if is_text(name, "float") {
            Some(PrimitiveType::Float)
        } else if is_text(name, "double") {
            Some(PrimitiveType::Double)
        } else if is_text(name, "date") {
            Some(PrimitiveType::Date)
        } else if is_text(name, "time") {
            Some(PrimitiveType::Time)
        } else if is_text(name, "timestamp") {
            Some(PrimitiveType::Timestamp)
        } else if is_text(name, "timestamptz") {
            Some(PrimitiveType::Timestamptz)
        } else if is_text(name, "timestamp_ns") {
            Some(PrimitiveType::TimestampNs)
        } else if is_text(name, "timestamptz_ns") {
            Some(PrimitiveType::TimestamptzNs)
        } else if is_text(name, "string") {
            Some(PrimitiveType::String)
        } else if is_text(name, "uuid") {
            Some(PrimitiveType::Uuid)
        } else if is_text(name, "binary") {
            Some(PrimitiveType::Binary)
        } else {
            None
        }
    }
}

impl Transform {
    /// The name of the transform in metadata files.
    pub fn name(self) -> (r: String)
        ensures
            r@ == transform_name(self),
    {
        match self {
            Transform::Identity => "identity".to_owned(),
            Transform::Bucket(n) => {
                let mut text: String = "bucket[".to_owned();
                push_decimal_u64(&mut text, n as u64);
                text.append("]");
                text
            },
            Transform::Truncate(w) => {
                let mut text: String = "truncate[".to_owned();
                push_decimal_u64(&mut text, w as u64);
                text.append("]");
                text
            },
            Transform::Year => "year".to_owned(),
            Transform::Month => "month".to_owned(),
            Transform::Day => "day".to_owned(),
            Transform::Hour => "hour".to_owned(),
            Transform::Void => "void".to_owned(),
            Transform::Unknown => "unknown".to_owned(),
        }
    }

    /// The transform with this name in metadata files.
    pub fn from_name(name: &str) -> (r: Option<Transform>)
        ensures
            r == transform_named(name@),
    {
        proof {
            reveal_strlit("bucket[");
            reveal_strlit("truncate[");
            reveal_strlit("]");
        }
        let n: usize = name.unicode_len();
        if is_enclosed(name, "bucket[", "]") {
            return match number_at(name, 7, n - 1, u32::MAX as u64) {
                Some(buckets) => Some(Transform::Bucket(buckets as u32)),
                None => None,
            };
        }
        if is_enclosed(name, "truncate[", "]") {
            return match number_at(name, 9, n - 1, u32::MAX as u64) {
                Some(width) => Some(Transform::Truncate(width as u32)),
                None => None,
            };
        }
        if is_text(name, "identity") {
            Some(Transform::Identity)
        } else if is_text(name, "year") {
            Some(Transform::Year)
        } else if is_text(name, "month") {
            Some(Transform::Month)
        } else if is_text(name, "day") {
            Some(Transform::Day)
        } else if is_text(name, "hour") {
            Some(Transform::Hour)
        } else if is_text(name, "void") {
            Some(Transform::Void)
        } else if is_text(name, "unknown") {
            Some(Transform::Unknown)
        } else {
            None
        }
    }
}

} // verus!
