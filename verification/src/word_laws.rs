//! What names, numbers and other small values say.

use crate::datatypes::PrimitiveType;
use crate::documents::VersionNumber;
use crate::error::{Error, ErrorKind};
use crate::format_version::FormatVersion;
use crate::names::{
    enclosed, inside, number_of, number_within, primitive_named, primitive_names_read_back, transform_names_read_back,
    without_leading_spaces,
};
use crate::partition::PartitionSpec;
use crate::snapshot::{SnapshotReference, SnapshotRetention};
use crate::sort::SortOrder;
use crate::string_map::StringMap;
use crate::text::{around_number, decimal, digit, digits, trailing_slashes_only, trim_trailing_slashes};
use crate::transform::Transform;
use vstd::prelude::*;

verus! {

/// The character of a digit.
pub open spec fn figure(k: u8) -> char {
    match k {
        0 => '0',
        1 => '1',
        2 => '2',
        3 => '3',
        4 => '4',
        5 => '5',
        6 => '6',
        7 => '7',
        8 => '8',
        _ => '9',
    }
}

proof fn digit_is_a_figure(k: nat)
    requires
        k < 10,
    ensures
        digit(k) == seq![figure(k as u8)],
{
    reveal_strlit("0");
    reveal_strlit("1");
    reveal_strlit("2");
    reveal_strlit("3");
    reveal_strlit("4");
    reveal_strlit("5");
    reveal_strlit("6");
    reveal_strlit("7");
    reveal_strlit("8");
    reveal_strlit("9");
    assert(digit(k) =~= seq![figure(k as u8)]);
}

/// A number of one figure is written as that figure between the texts around it.
pub proof fn small_numbers_are_figures(before: &str, k: i64, after: &str, r: String)
    requires
        0 <= k < 10,
        call_ensures(around_number, (before, k, after), r),
    ensures
        r@ == before@ + seq![figure(k as u8)] + after@,
{
    digit_is_a_figure(k as nat);
}

/// Ten times a number and a figure more is written as the number with the figure behind it.
pub proof fn numbers_grow_by_figures(before: &str, after: &str, n: i64, k: i64, m: i64, r: String, s: String)
    requires
        n > 0,
        0 <= k < 10,
        m == 10 * n + k,
        call_ensures(around_number, (before, n, after), r),
        call_ensures(around_number, (before, m, after), s),
    ensures
        s@ == r@.take(r@.len() - after@.len()) + seq![figure(k as u8)] + after@,
{
    digit_is_a_figure(k as nat);
    assert(m as int / 10 == n);
    assert(m as int % 10 == k);
    assert(digits(m as nat) == digits(n as nat) + digit(k as nat));
    assert(r@.take(r@.len() - after@.len()) =~= before@ + decimal(n as int));
    assert(s@ =~= before@ + decimal(n as int) + seq![figure(k as u8)] + after@);
}

/// A number below zero is written as its opposite with a minus sign before it.
pub proof fn negative_numbers_have_a_sign(before: &str, after: &str, n: i64, m: i64, r: String, s: String)
    requires
        n > 0,
        m == -n,
        call_ensures(around_number, (before, n, after), r),
        call_ensures(around_number, (before, m, after), s),
    ensures
        s@ == before@ + seq!['-'] + r@.skip(before@.len() as int),
{
    reveal_strlit("-");
    assert("-"@ =~= seq!['-']);
    assert(r@.skip(before@.len() as int) =~= decimal(n as int) + after@);
    assert(s@ =~= before@ + seq!['-'] + r@.skip(before@.len() as int));
}

/// Of a text whose trailing slashes are taken away, the beginning up to some place is left: behind
/// it there were slashes only, and just before it there is none.
pub proof fn only_trailing_slashes_go(text: String, r: String)
    requires
        call_ensures(trim_trailing_slashes, (&text,), r),
    ensures
        r@.is_prefix_of(text@),
        forall|i: int| r@.len() <= i < text@.len() ==> text@[i] == '/',
        r@.len() > 0 ==> r@.last() != '/',
{
    trailing_slashes_only(text@);
}

/// The names of the primitive types.
pub proof fn primitive_types_have_their_names(t: PrimitiveType, r: String)
    requires
        call_ensures(PrimitiveType::name, (t,), r),
    ensures
        match t {
            PrimitiveType::Boolean => r@ == "boolean"@,
            PrimitiveType::Int => r@ == "int"@,
            PrimitiveType::Long => r@ == "long"@,
            PrimitiveType::Float => r@ == "float"@,
            PrimitiveType::Double => r@ == "double"@,
            PrimitiveType::Decimal { precision, scale } => r@ == "decimal("@ + decimal(precision as int) + ","@
                + decimal(scale as int) + ")"@,
            PrimitiveType::Date => r@ == "date"@,
            PrimitiveType::Time => r@ == "time"@,
            PrimitiveType::Timestamp => r@ == "timestamp"@,
            PrimitiveType::Timestamptz => r@ == "timestamptz"@,
            PrimitiveType::TimestampNs => r@ == "timestamp_ns"@,
            PrimitiveType::TimestamptzNs => r@ == "timestamptz_ns"@,
            PrimitiveType::String => r@ == "string"@,
            PrimitiveType::Uuid => r@ == "uuid"@,
            PrimitiveType::Fixed(length) => r@ == "fixed["@ + decimal(length as int) + "]"@,
            PrimitiveType::Binary => r@ == "binary"@,
        },
{
}

/// The names of the transforms.
pub proof fn transforms_have_their_names(t: Transform, r: String)
    requires
        call_ensures(Transform::name, (t,), r),
    ensures
        match t {
            Transform::Identity => r@ == "identity"@,
            Transform::Bucket(buckets) => r@ == "bucket["@ + decimal(buckets as int) + "]"@,
            Transform::Truncate(width) => r@ == "truncate["@ + decimal(width as int) + "]"@,
            Transform::Year => r@ == "year"@,
            Transform::Month => r@ == "month"@,
            Transform::Day => r@ == "day"@,
            Transform::Hour => r@ == "hour"@,
            Transform::Void => r@ == "void"@,
            Transform::Unknown => r@ == "unknown"@,
        },
{
}

/// What has a name is found again by that name.
pub proof fn names_lead_back(
    t: PrimitiveType,
    u: Transform,
    written: String,
    name: &str,
    found: Option<PrimitiveType>,
    found_transform: Option<Transform>,
)
    requires
        name@ == written@,
    ensures
        call_ensures(PrimitiveType::name, (t,), written) && call_ensures(PrimitiveType::from_name, (name,), found)
            ==> found == Some(t),
        call_ensures(Transform::name, (u,), written) && call_ensures(
            Transform::from_name,
            (name,),
            found_transform,
        ) ==> found_transform == Some(u),
{
    primitive_names_read_back(t);
    transform_names_read_back(u);
}

/// A type or a transform without numbers is found by its own name only.
pub proof fn plain_names_are_the_only_ones(
    name: &str,
    found: Option<PrimitiveType>,
    written: String,
    found_transform: Option<Transform>,
)
    ensures
        call_ensures(PrimitiveType::from_name, (name,), found) && found is Some && !(found->Some_0 is Fixed) && !(
        found->Some_0 is Decimal) && call_ensures(PrimitiveType::name, (found->Some_0,), written) ==> name@
            == written@,
        call_ensures(Transform::from_name, (name,), found_transform) && found_transform is Some && !(
        found_transform->Some_0 is Bucket) && !(found_transform->Some_0 is Truncate) && call_ensures(
            Transform::name,
            (found_transform->Some_0,),
            written,
        ) ==> name@ == written@,
{
}

/// A space before either number in the name of a decimal type makes no difference.
pub proof fn spaces_before_numbers_are_skipped(
    precision: Seq<char>,
    scale: Seq<char>,
    plain: &str,
    first: &str,
    second: &str,
    r: Option<PrimitiveType>,
    r1: Option<PrimitiveType>,
    r2: Option<PrimitiveType>,
)
    requires
        !precision.contains(','),
        plain@ == "decimal("@ + (precision + seq![','] + scale) + ")"@,
        first@ == "decimal("@ + (seq![' '] + precision + seq![','] + scale) + ")"@,
        second@ == "decimal("@ + (precision + seq![',', ' '] + scale) + ")"@,
        call_ensures(PrimitiveType::from_name, (plain,), r),
        call_ensures(PrimitiveType::from_name, (first,), r1),
        call_ensures(PrimitiveType::from_name, (second,), r2),
    ensures
        r1 == r,
        r2 == r,
{
    assert forall|i: int| 0 <= i < precision.len() implies precision[i] != ',' by {
        assert(precision.contains(precision[i]));
    }
    let one: Seq<char> = seq![' '] + precision;
    let two: Seq<char> = seq![' '] + scale;
    assert forall|i: int| 0 <= i < one.len() implies one[i] != ',' by {
        if i > 0 {
            assert(one[i] == precision[i - 1]);
        }
    }
    assert(precision + seq![',', ' '] + scale =~= precision + seq![','] + two);
    decimal_names_are_split(precision, scale, plain@);
    decimal_names_are_split(one, scale, first@);
    decimal_names_are_split(precision, two, second@);
    assert(one.drop_first() =~= precision);
    assert(two.drop_first() =~= scale);
}

proof fn decimal_names_are_split(p: Seq<char>, q: Seq<char>, name: Seq<char>)
    requires
        forall|i: int| 0 <= i < p.len() ==> p[i] != ',',
        name == "decimal("@ + (p + seq![','] + q) + ")"@,
    ensures
        primitive_named(name) == (match number_within(without_leading_spaces(p), u32::MAX as nat) {
            None => None,
            Some(precision) => match number_within(without_leading_spaces(q), u32::MAX as nat) {
                None => None,
                Some(scale) => Some(PrimitiveType::Decimal { precision: precision as u32, scale: scale as u32 }),
            },
        }),
{
    reveal_strlit("decimal(");
    reveal_strlit(")");
    reveal_strlit("fixed[");
    reveal_strlit("]");
    let numbers: Seq<char> = p + seq![','] + q;
    assert(name.take(8) =~= "decimal("@);
    assert(name.skip(name.len() - 1) =~= ")"@);
    assert(name.subrange(8, name.len() - 1) =~= numbers);
    assert(name.skip(name.len() - 1)[0] == ')');
    assert(!enclosed(name, "fixed["@, "]"@));
    assert(numbers[p.len() as int] == ',');
    assert(numbers.contains(','));
    numbers.index_of_first_ensures(',');
    assert forall|i: int| 0 <= i < p.len() implies numbers[i] != ',' by {
        assert(numbers[i] == p[i]);
    }
    assert(numbers.take(p.len() as int) =~= p);
    assert(numbers.skip(p.len() as int + 1) =~= q);
}

proof fn number_has_figures_only(s: Seq<char>)
    requires
        number_of(s) is Some,
    ensures
        s.len() > 0,
        forall|i: int| 0 <= i < s.len() ==> '0' <= #[trigger] s[i] && s[i] <= '9',
    decreases s.len(),
{
    if s.len() > 1 {
        number_has_figures_only(s.drop_last());
        assert forall|i: int| 0 <= i < s.len() implies '0' <= #[trigger] s[i] && s[i] <= '9' by {
            if i < s.len() - 1 {
                assert(s.drop_last()[i] == s[i]);
            }
        }
    }
}

/// Between the brackets in the name of a type or a transform there are figures only, at least one.
pub proof fn numbers_in_names_are_figures(
    name: &str,
    found: Option<PrimitiveType>,
    found_transform: Option<Transform>,
)
    ensures
        call_ensures(PrimitiveType::from_name, (name,), found) && found is Some && found->Some_0 is Fixed ==> {
            &&& name@.len() > 7
            &&& name@.take(6) == "fixed["@
            &&& name@.last() == ']'
            &&& forall|i: int| 6 <= i < name@.len() - 1 ==> '0' <= #[trigger] name@[i] && name@[i] <= '9'
        },
        call_ensures(Transform::from_name, (name,), found_transform) && found_transform is Some
            && found_transform->Some_0 is Bucket ==> {
            &&& name@.len() > 8
            &&& name@.take(7) == "bucket["@
            &&& name@.last() == ']'
            &&& forall|i: int| 7 <= i < name@.len() - 1 ==> '0' <= #[trigger] name@[i] && name@[i] <= '9'
        },
        call_ensures(Transform::from_name, (name,), found_transform) && found_transform is Some
            && found_transform->Some_0 is Truncate ==> {
            &&& name@.len() > 10
            &&& name@.take(9) == "truncate["@
            &&& name@.last() == ']'
            &&& forall|i: int| 9 <= i < name@.len() - 1 ==> '0' <= #[trigger] name@[i] && name@[i] <= '9'
        },
{
    reveal_strlit("fixed[");
    reveal_strlit("bucket[");
    reveal_strlit("truncate[");
    reveal_strlit("]");
    let s: Seq<char> = name@;
    if call_ensures(PrimitiveType::from_name, (name,), found) && found is Some && found->Some_0 is Fixed {
        assert(enclosed(s, "fixed["@, "]"@));
        figures_between(s, "fixed["@);
    }
    if call_ensures(Transform::from_name, (name,), found_transform) && found_transform is Some {
        if found_transform->Some_0 is Bucket {
            assert(enclosed(s, "bucket["@, "]"@));
            figures_between(s, "bucket["@);
        }
        if found_transform->Some_0 is Truncate {
            assert(enclosed(s, "truncate["@, "]"@));
            figures_between(s, "truncate["@);
        }
    }
}

proof fn figures_between(s: Seq<char>, before: Seq<char>)
    requires
        enclosed(s, before, "]"@),
        number_of(inside(s, before, "]"@)) is Some,
    ensures
        s.len() > before.len() + 1,
        s.last() == ']',
        forall|i: int| before.len() <= i < s.len() - 1 ==> '0' <= #[trigger] s[i] && s[i] <= '9',
{
    reveal_strlit("]");
    let t: Seq<char> = inside(s, before, "]"@);
    number_has_figures_only(t);
    assert(s.skip(s.len() - 1)[0] == "]"@[0]);
    assert forall|i: int| before.len() <= i < s.len() - 1 implies '0' <= #[trigger] s[i] && s[i] <= '9' by {
        assert(t[i - before.len()] == s[i]);
    }
}

/// The versions are numbered one and two, are named after their numbers and are found by them; no
/// other number is a version.
pub proof fn versions_have_their_numbers(v: FormatVersion, n: u8, k: u8, found: Option<FormatVersion>, name: String)
    ensures
        call_ensures(FormatVersion::number, (v,), n) ==> n == (if v == FormatVersion::V1 {
            1
        } else {
            2int
        }),
        call_ensures(FormatVersion::from_number, (k,), found) ==> {
            &&& k == 1 <==> found == Some(FormatVersion::V1)
            &&& k == 2 <==> found == Some(FormatVersion::V2)
            &&& k != 1 && k != 2 <==> found is None
        },
        call_ensures(FormatVersion::to_string, (&v,), name) ==> name@ == (if v == FormatVersion::V1 {
            "v1"@
        } else {
            "v2"@
        }),
{
}

/// A version number that is known beforehand is written as it is, and only that number is read.
pub proof fn version_numbers_are_fixed<const V: u8>(
    v: VersionNumber<V>,
    n: u8,
    k: u8,
    r: Result<VersionNumber<V>, String>,
)
    ensures
        call_ensures(VersionNumber::<V>::serialize, (&v,), n) ==> n == V,
        call_ensures(VersionNumber::<V>::deserialize, (k,), r) ==> (r is Ok <==> k == V) && (r matches Err(message)
            ==> message@ == "Invalid Version"@),
{
}

/// An error is shown as its kind, an arrow and its message.
pub proof fn errors_are_shown(kind: ErrorKind, message: String, e: Error, shown: String, k: ErrorKind)
    requires
        call_ensures(Error::new, (kind, message), e) || kind == ErrorKind::DataInvalid && call_ensures(
            Error::data_invalid,
            (message,),
            e,
        ),
    ensures
        e.kind == kind,
        e.message@ == message@,
        call_ensures(Error::kind, (&e,), k) ==> k == kind,
        call_ensures(Error::to_string, (&e,), shown) ==> shown@ == (match kind {
            ErrorKind::Unexpected => "Unexpected"@,
            ErrorKind::DataInvalid => "DataInvalid"@,
        }) + " => "@ + message@,
{
}

/// The order of unsorted rows has id zero and no keys, the spec of unpartitioned rows has id zero
/// and no fields, and a plain branch points to its snapshot and limits nothing.
pub proof fn empty_ones_hold_nothing(order: SortOrder, spec: PartitionSpec, id: i64, branch: SnapshotReference)
    ensures
        call_ensures(SortOrder::unsorted_order, (), order) ==> order.order_id == 0 && order.fields@.len() == 0,
        call_ensures(PartitionSpec::unpartition_spec, (), spec) ==> spec.spec_id == 0 && spec.fields@.len() == 0,
        call_ensures(SnapshotReference::branch, (id,), branch) ==> {
            &&& branch.snapshot_id == id
            &&& branch.retention matches SnapshotRetention::Branch {
                min_snapshots_to_keep,
                max_snapshot_age_ms,
                max_ref_age_ms,
            } && min_snapshots_to_keep is None && max_snapshot_age_ms is None && max_ref_age_ms is None
        },
{
}

/// What is put into a map of texts is found again under its name, and what is under other names
/// stays as it was.
pub proof fn maps_keep_what_is_put<V>(
    m: &mut StringMap<V>,
    name: String,
    value: V,
    asked: &str,
    before: Option<&V>,
    found: Option<&V>,
)
    requires
        call_ensures(StringMap::<V>::insert, (m, name, value), ()),
        call_ensures(StringMap::<V>::get, (&*old(m), asked), before),
        call_ensures(StringMap::<V>::get, (&*final(m), asked), found),
    ensures
        asked@ == name@ ==> (found matches Some(v) && *v == value),
        asked@ != name@ ==> (found is Some <==> before is Some),
        asked@ != name@ && found is Some && before is Some ==> *found->Some_0 == *before->Some_0,
{
}

/// A new map holds nothing, and a map is empty exactly when nothing is found in it.
pub proof fn new_maps_hold_nothing<V>(m: StringMap<V>, name: &str, found: Option<&V>, has: bool, empty: bool)
    requires
        call_ensures(StringMap::<V>::get, (&m, name), found),
    ensures
        call_ensures(StringMap::<V>::new, (), m) ==> found is None,
        call_ensures(StringMap::<V>::contains_key, (&m, name), has) ==> has == (found is Some),
        call_ensures(StringMap::<V>::is_empty, (&m,), empty) && empty ==> found is None,
{
}

} // verus!
