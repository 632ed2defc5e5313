use vstd::prelude::*;

verus! {

/// An entity type that can be laid out as a row of named numeric features.
pub trait Featurizable {
    /// The numeric type of a feature.
    type Scalar;

    /// The number of features in a row.
    fn num_feats() -> usize;

    /// The names of the features, in row order.
    fn feature_names() -> Vec<String>;

    /// The features of this entity, in row order.
    fn featurize(&self) -> Vec<Self::Scalar>;

    /// The name of the entity type.
    fn name() -> &'static str;
}

/// The character of a decimal digit.
pub open spec fn digit_char(d: nat) -> char {
    if d == 0 {
        '0'
    } else if d == 1 {
        '1'
    } else if d == 2 {
        '2'
    } else if d == 3 {
        '3'
    } else if d == 4 {
        '4'
    } else if d == 5 {
        '5'
    } else if d == 6 {
        '6'
    } else if d == 7 {
        '7'
    } else if d == 8 {
        '8'
    } else {
        '9'
    }
}

/// A number in decimal, without leading zeros.
pub open spec fn spec_decimal(n: nat) -> Seq<char>
    decreases n,
{
    if n < 10 {
        seq![digit_char(n)]
    } else {
        spec_decimal(n / 10).push(digit_char(n % 10))
    }
}

fn digit(d: usize) -> (s: &'static str)
    requires
        d < 10,
    ensures
        s@ == seq![digit_char(d as nat)],
{
    proof {
        reveal_strlit("0");
        reveal_strlit("1");
        reveal_strlit("2");
        reveal_strlit("3");
        reveal_strlit("4");
        reveal_strlit("5");
        reveal_strlit("6");
        reveal_strlit("7");
        reveal_strlit("8");
        reveal_strlit("9");
    }
    let s = if d == 0 {
        "0"
    } else if d == 1 {
        "1"
    } else if d == 2 {
        "2"
    } else if d == 3 {
        "3"
    } else if d == 4 {
        "4"
    } else if d == 5 {
        "5"
    } else if d == 6 {
        "6"
    } else if d == 7 {
        "7"
    } else if d == 8 {
        "8"
    } else {
        "9"
    };
    assert(s@ =~= seq![digit_char(d as nat)]);
    s
}

/// A number in decimal, without leading zeros.
pub fn decimal(n: usize) -> (text: String)
    ensures
        text@ == spec_decimal(n as nat),
    decreases n,
{
    if n < 10 {
        digit(n).to_owned()
    } else {
        let mut text = decimal(n / 10);
        text.append(digit(n % 10));
        assert(text@ =~= spec_decimal((n / 10) as nat).push(digit_char((n % 10) as nat)));
        text
    }
}

/// The name of a feature inside a field: the field's name, a dot, and the
/// feature's own name.
pub open spec fn spec_nested(prefix: Seq<char>, name: Seq<char>) -> Seq<char> {
    prefix + seq!['.'] + name
}

/// The name of the flag that tells whether an enum is at a variant.
pub open spec fn spec_flag(variant: Seq<char>) -> Seq<char> {
    seq!['i', 's', '_'] + variant
}

/// The name of a feature inside a field: the field's name, a dot, and the
/// feature's own name.
pub fn nested(prefix: &str, name: &str) -> (text: String)
    ensures
        text@ == spec_nested(prefix@, name@),
{
    proof {
        reveal_strlit(".");
    }
    let mut text = prefix.to_owned();
    text.append(".");
    text.append(name);
    assert(text@ =~= spec_nested(prefix@, name@));
    text
}

/// The feature names of a field whose type is itself featurizable: each of
/// the type's feature names, behind the field's name and a dot.
pub fn nested_names(prefix: &str, names: &Vec<String>) -> (out: Vec<String>)
    ensures
        out@.len() == names@.len(),
        forall|i: int| 0 <= i < out@.len() ==> (#[trigger] out@[i])@ == spec_nested(prefix@, names@[i]@),
{
    let mut out: Vec<String> = Vec::new();
    let mut i: usize = 0;
    while i < names.len()
        invariant
            i <= names@.len(),
            out@.len() == i,
            forall|k: int| 0 <= k < i ==> (#[trigger] out@[k])@ == spec_nested(prefix@, names@[k]@),
        decreases names.len() - i,
    {
        out.push(nested(prefix, names[i].as_str()));
        i += 1;
    }
    out
}

/// The name of element `index` of an array field: the field's name, a dot,
/// and the index in decimal.
pub fn indexed(prefix: &str, index: usize) -> (text: String)
    ensures
        text@ == spec_nested(prefix@, spec_decimal(index as nat)),
{
    let number = decimal(index);
    nested(prefix, number.as_str())
}

/// The feature names of an enum: one flag per variant, `is_` and the
/// variant's name.
pub fn flag_names(variants: &Vec<String>) -> (out: Vec<String>)
    ensures
        out@.len() == variants@.len(),
        forall|i: int| 0 <= i < out@.len() ==> (#[trigger] out@[i])@ == spec_flag(variants@[i]@),
{
    proof {
        reveal_strlit("is_");
    }
    let mut out: Vec<String> = Vec::new();
    let mut i: usize = 0;
    while i < variants.len()
        invariant
            i <= variants@.len(),
            out@.len() == i,
            "is_"@ == seq!['i', 's', '_'],
            forall|k: int| 0 <= k < i ==> (#[trigger] out@[k])@ == spec_flag(variants@[k]@),
        decreases variants.len() - i,
    {
        let mut text = "is_".to_owned();
        text.append(variants[i].as_str());
        assert(text@ =~= spec_flag(variants@[i as int]@));
        out.push(text);
        i += 1;
    }
    out
}

} // verus!
