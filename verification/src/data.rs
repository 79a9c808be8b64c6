//! A JSON-shaped value tree for structured results.

use vstd::prelude::*;

verus! {

/// A JSON-shaped value.
#[derive(Debug)]
pub enum DataValue {
    Null,
    Bool(bool),
    U64(u64),
    Str(String),
    Array(Vec<DataValue>),
    Object(Vec<(String, DataValue)>),
}

/// The mathematical view of a `DataValue`.
pub enum DataView {
    Null,
    Bool(bool),
    U64(u64),
    Str(Seq<char>),
    Array(Seq<DataView>),
    Object(Seq<(Seq<char>, DataView)>),
}

/// The view of `d`.
pub open spec fn data_view(d: DataValue) -> DataView
    decreases d,
{
    match d {
        DataValue::Null => DataView::Null,
        DataValue::Bool(b) => DataView::Bool(b),
        DataValue::U64(n) => DataView::U64(n),
        DataValue::Str(s) => DataView::Str(s@),
        DataValue::Array(v) => DataView::Array(
            Seq::new(v@.len(), |i: int| if 0 <= i < v@.len() { data_view(v@[i]) } else { DataView::Null }),
        ),
        DataValue::Object(v) => DataView::Object(
            Seq::new(
                v@.len(),
                |i: int| if 0 <= i < v@.len() { (v@[i].0@, data_view(v@[i].1)) } else { (Seq::empty(), DataView::Null) },
            ),
        ),
    }
}

impl View for DataValue {
    type V = DataView;

    open spec fn view(&self) -> DataView {
        data_view(*self)
    }
}

/// The view of an object built from `fields`.
pub open spec fn object_view(fields: Seq<(String, DataValue)>) -> DataView {
    DataView::Object(fields.map_values(|p: (String, DataValue)| (p.0@, p.1@)))
}

/// An object holding `fields` in order.
pub fn object(fields: Vec<(String, DataValue)>) -> (d: DataValue)
    ensures
        d@ == object_view(fields@),
{
    let ghost f = fields@;
    let d = DataValue::Object(fields);
    proof {
        assert(d->Object_0@ == f);
        assert(d@ is Object);
        let t = d@->Object_0;
        let m = f.map_values(|p: (String, DataValue)| (p.0@, p.1@));
        assert(t.len() == m.len());
        assert forall|i: int| 0 <= i < t.len() implies t[i] == m[i] by {
            assert(t[i] == (f[i].0@, data_view(f[i].1)));
        }
        assert(t =~= m);
    }
    d
}

/// A string value holding the characters of `s`.
pub fn text(s: &str) -> (d: DataValue)
    ensures
        d@ == DataView::Str(s@),
{
    DataValue::Str(s.to_owned())
}

/// The decimal digits of `n`, most significant first, without leading zeros.
pub open spec fn decimal(n: nat) -> Seq<char>
    decreases n,
{
    if n < 10 {
        seq![digit_char(n)]
    } else {
        decimal(n / 10) + seq![digit_char(n % 10)]
    }
}

pub open spec fn digit_char(d: nat) -> char {
    ((48 + d) as u8) as char
}

/// The decimal text of `n`.
pub fn decimal_string(n: u64) -> (s: String)
    ensures
        s@ == decimal(n as nat),
{
    let mut digits: Vec<char> = Vec::new();
    let mut m: u64 = n;
    loop
        invariant_except_break
            m <= n,
            decimal(n as nat) == decimal(m as nat) + digits@.reverse(),
        ensures
            decimal(n as nat) == digits@.reverse(),
        decreases m,
    {
        let d = (m % 10) as u8;
        let c = (48u8 + d) as char;
        proof {
            assert(c == digit_char((m % 10) as nat));
        }
        let ghost before = digits@;
        digits.push(c);
        proof {
            assert(digits@.reverse() =~= seq![c] + before.reverse());
        }
        if m < 10 {
            proof {
                assert(decimal(m as nat) == seq![c]);
                assert(decimal(n as nat) =~= digits@.reverse());
            }
            break;
        }
        proof {
            assert(decimal(m as nat) == decimal((m / 10) as nat) + seq![digit_char((m % 10) as nat)]);
            assert(decimal(n as nat) =~= decimal((m / 10) as nat) + digits@.reverse());
        }
        m = m / 10;
    }
    let mut out: Vec<char> = Vec::new();
    let mut i: usize = digits.len();
    while i > 0
        invariant
            i <= digits@.len(),
            out@ =~= digits@.subrange(i as int, digits@.len() as int).reverse(),
        decreases i,
    {
        i -= 1;
        let ghost before = out@;
        out.push(digits[i]);
        proof {
            assert(digits@.subrange(i as int, digits@.len() as int) =~= seq![digits@[i as int]]
                + digits@.subrange(i + 1, digits@.len() as int));
        }
    }
    proof {
        assert(digits@.subrange(0, digits@.len() as int) =~= digits@);
        assert(out@ =~= decimal(n as nat));
    }
    crate::text::string_from_chars(out.as_slice())
}

/// The empty array.
pub fn empty_array() -> (d: DataValue)
    ensures
        d@ == DataView::Array(Seq::empty()),
{
    let d = DataValue::Array(Vec::new());
    proof {
        assert(d@ is Array);
        assert(d@->Array_0 =~= Seq::<DataView>::empty());
    }
    d
}

/// An object with one field.
pub fn object1(k0: &str, v0: DataValue) -> (d: DataValue)
    ensures
        d@ == DataView::Object(seq![(k0@, v0@)]),
{
    let mut f: Vec<(String, DataValue)> = Vec::new();
    f.push((k0.to_owned(), v0));
    let d = object(f);
    proof {
        assert(d@->Object_0 =~= seq![(k0@, v0@)]);
    }
    d
}

/// An object with three fields, in order.
pub fn object3(k0: &str, v0: DataValue, k1: &str, v1: DataValue, k2: &str, v2: DataValue) -> (d: DataValue)
    ensures
        d@ == DataView::Object(seq![(k0@, v0@), (k1@, v1@), (k2@, v2@)]),
{
    let ghost (a, b, c) = (v0@, v1@, v2@);
    let mut f: Vec<(String, DataValue)> = Vec::new();
    f.push((k0.to_owned(), v0));
    f.push((k1.to_owned(), v1));
    f.push((k2.to_owned(), v2));
    let d = object(f);
    proof {
        assert(d@->Object_0 =~= seq![(k0@, a), (k1@, b), (k2@, c)]);
    }
    d
}

/// An object with four fields, in order.
pub fn object4(k0: &str, v0: DataValue, k1: &str, v1: DataValue, k2: &str, v2: DataValue, k3: &str, v3: DataValue) -> (d:
    DataValue)
    ensures
        d@ == DataView::Object(seq![(k0@, v0@), (k1@, v1@), (k2@, v2@), (k3@, v3@)]),
{
    let ghost (a, b, c, e) = (v0@, v1@, v2@, v3@);
    let mut f: Vec<(String, DataValue)> = Vec::new();
    f.push((k0.to_owned(), v0));
    f.push((k1.to_owned(), v1));
    f.push((k2.to_owned(), v2));
    f.push((k3.to_owned(), v3));
    let d = object(f);
    proof {
        assert(d@->Object_0 =~= seq![(k0@, a), (k1@, b), (k2@, c), (k3@, e)]);
    }
    d
}

/// An object with five fields, in order.
pub fn object5(
    k0: &str,
    v0: DataValue,
    k1: &str,
    v1: DataValue,
    k2: &str,
    v2: DataValue,
    k3: &str,
    v3: DataValue,
    k4: &str,
    v4: DataValue,
) -> (d: DataValue)
    ensures
        d@ == DataView::Object(seq![(k0@, v0@), (k1@, v1@), (k2@, v2@), (k3@, v3@), (k4@, v4@)]),
{
    let ghost (a, b, c, e, g) = (v0@, v1@, v2@, v3@, v4@);
    let mut f: Vec<(String, DataValue)> = Vec::new();
    f.push((k0.to_owned(), v0));
    f.push((k1.to_owned(), v1));
    f.push((k2.to_owned(), v2));
    f.push((k3.to_owned(), v3));
    f.push((k4.to_owned(), v4));
    let d = object(f);
    proof {
        assert(d@->Object_0 =~= seq![(k0@, a), (k1@, b), (k2@, c), (k3@, e), (k4@, g)]);
    }
    d
}

} // verus!
