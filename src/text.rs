use vstd::prelude::*;
use crate::measurement::{AttributeValue, MeasurementPoint, WrappedValue};
use crate::resources::{consumer_id_text, consumer_kind, resource_id_text, resource_kind};

verus! {

pub open spec fn digit_text(d: int) -> Seq<char> {
    if d == 0 {
        "0"@
    } else if d == 1 {
        "1"@
    } else if d == 2 {
        "2"@
    } else if d == 3 {
        "3"@
    } else if d == 4 {
        "4"@
    } else if d == 5 {
        "5"@
    } else if d == 6 {
        "6"@
    } else if d == 7 {
        "7"@
    } else if d == 8 {
        "8"@
    } else {
        "9"@
    }
}

/// The decimal notation of `n`, without leading zeros.
pub open spec fn decimal(n: nat) -> Seq<char>
    decreases n,
{
    if n < 10 {
        digit_text(n as int)
    } else {
        decimal(n / 10) + digit_text((n % 10) as int)
    }
}

/// The texts of a point that the host renders: its time, and its value when
/// that is a floating-point number.
pub struct PointText {
    pub time: String,
    pub float_value: String,
}

/// An unsigned value in decimal; a floating-point one as the host rendered it.
pub open spec fn value_text(v: WrappedValue, float_text: Seq<char>) -> Seq<char> {
    match v {
        WrappedValue::U64(x) => decimal(x as nat),
        WrappedValue::F64Bits(_) => float_text,
    }
}

pub open spec fn attr_value_text(v: AttributeValue) -> Seq<char> {
    match v {
        AttributeValue::U64(x) => decimal(x as nat),
        AttributeValue::Bool(b) => if b {
            "true"@
        } else {
            "false"@
        },
        AttributeValue::Str(s) => s@,
    }
}

pub open spec fn attr_text(a: (String, AttributeValue)) -> Seq<char> {
    a.0@ + "='"@ + attr_value_text(a.1) + "'"@
}

/// The attributes as `k='v'` items separated by commas, in their order.
pub open spec fn attrs_text(s: Seq<(String, AttributeValue)>) -> Seq<char>
    decreases s.len(),
{
    if s.len() == 0 {
        Seq::empty()
    } else if s.len() == 1 {
        attr_text(s[0])
    } else {
        attrs_text(s.drop_last()) + ","@ + attr_text(s.last())
    }
}

/// The text line of a point whose metric is named `name`, with the host's
/// texts for its time and floating-point value.
pub open spec fn line_text(p: MeasurementPoint, name: Seq<char>, texts: PointText) -> Seq<char> {
    texts.time@ + ": "@ + name + " = "@ + value_text(p.value, texts.float_value@)
        + "; resource = "@ + resource_kind(p.resource) + "/"@ + resource_id_text(p.resource)
        + "; consumer = "@ + consumer_kind(p.consumer) + "/"@ + consumer_id_text(p.consumer)
        + "; attributes = ["@ + attrs_text(p.attrs()) + "]"@
}

fn digit_str(d: u64) -> (r: &'static str)
    requires
        d < 10,
    ensures
        r@ == digit_text(d as int),
{
    if d == 0 {
        "0"
    } else if d == 1 {
        "1"
    } else if d == 2 {
        "2"
    } else if d == 3 {
        "3"
    } else if d == 4 {
        "4"
    } else if d == 5 {
        "5"
    } else if d == 6 {
        "6"
    } else if d == 7 {
        "7"
    } else if d == 8 {
        "8"
    } else {
        "9"
    }
}

/// Appends the decimal notation of `n` to `s`.
pub fn push_decimal(s: &mut String, n: u64)
    ensures
        final(s)@ == old(s)@ + decimal(n as nat),
    decreases n,
{
    if n >= 10 {
        push_decimal(s, n / 10);
    }
    s.append(digit_str(n % 10));
    proof {
        if n >= 10 {
            assert(final(s)@ =~= old(s)@ + decimal(n as nat));
        }
    }
}

/// The decimal notation of `n`.
pub fn decimal_string(n: u64) -> (r: String)
    ensures
        r@ == decimal(n as nat),
{
    let mut s = String::new();
    push_decimal(&mut s, n);
    proof {
        assert(s@ =~= decimal(n as nat));
    }
    s
}

fn push_value(s: &mut String, v: WrappedValue, float_text: &String)
    ensures
        final(s)@ == old(s)@ + value_text(v, float_text@),
{
    match v {
        WrappedValue::U64(x) => push_decimal(s, x),
        WrappedValue::F64Bits(_) => s.append(float_text.as_str()),
    }
}

fn push_attr(s: &mut String, a: &(String, AttributeValue))
    ensures
        final(s)@ == old(s)@ + attr_text(*a),
{
    s.append(a.0.as_str());
    s.append("='");
    match &a.1 {
        AttributeValue::U64(x) => push_decimal(s, *x),
        AttributeValue::Bool(b) => if *b {
            s.append("true");
        } else {
            s.append("false");
        },
        AttributeValue::Str(t) => s.append(t.as_str()),
    }
    s.append("'");
    assert(final(s)@ =~= old(s)@ + attr_text(*a));
}

/// Renders a point as one text line; `name` is the name of its metric.
pub fn render_line(p: &MeasurementPoint, name: &String, texts: &PointText) -> (r: String)
    ensures
        r@ == line_text(*p, name@, *texts),
{
    let mut s = String::new();
    s.append(texts.time.as_str());
    s.append(": ");
    s.append(name.as_str());
    s.append(" = ");
    push_value(&mut s, p.value, &texts.float_value);
    s.append("; resource = ");
    s.append(p.resource.kind());
    s.append("/");
    p.resource.push_id(&mut s);
    s.append("; consumer = ");
    s.append(p.consumer.kind());
    s.append("/");
    p.consumer.push_id(&mut s);
    s.append("; attributes = [");
    let n = p.attributes.len();
    let mut i: usize = 0;
    let ghost prefix = s@;
    while i < n
        invariant
            n == p.attrs().len(),
            i <= n,
            s@ == prefix + attrs_text(p.attrs().take(i as int)),
        decreases n - i,
    {
        if i > 0 {
            s.append(",");
        }
        push_attr(&mut s, &p.attributes[i]);
        proof {
            let t = p.attrs().take(i + 1);
            assert(t.drop_last() =~= p.attrs().take(i as int));
            assert(t.last() == p.attrs()[i as int]);
            if i == 0 {
                assert(attrs_text(p.attrs().take(0)) =~= Seq::<char>::empty());
            }
        }
        i = i + 1;
        assert(s@ =~= prefix + attrs_text(p.attrs().take(i as int)));
    }
    s.append("]");
    proof {
        assert(p.attrs().take(n as int) =~= p.attrs());
        assert(s@ =~= line_text(*p, name@, *texts));
    }
    s
}

} // verus!
