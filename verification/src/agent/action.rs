use crate::low_level::env::names_view;
use vstd::prelude::*;

verus! {

/// A categorical action: a closed set of `num_actions()` choices, each with an
/// index below that number and a human readable label.
pub trait Action<'a>: Sized {
    /// The choice with the given index.
    fn from_u64(index: u64) -> Self;

    /// The index of this choice.
    fn to_u64(&self) -> u64;

    /// The number of choices.
    fn num_actions() -> u64;

    /// The name of the action type.
    fn name() -> &'a str;

    /// One label per choice, in index order.
    fn labels() -> Vec<String>;
}

/// The number of combinations of one choice per radix.
pub open spec fn spec_product(radices: Seq<u64>) -> nat
    decreases radices.len(),
{
    if radices.len() == 0 {
        1
    } else {
        spec_product(radices.drop_last()) * (radices.last() as nat)
    }
}

/// Whether `digits` holds one digit per radix, each below its radix.
pub open spec fn digits_in_range(digits: Seq<u64>, radices: Seq<u64>) -> bool {
    &&& digits.len() == radices.len()
    &&& forall|i: int| 0 <= i < digits.len() ==> digits[i] < radices[i]
}

/// The index of a combination: the first digit is the most significant.
pub open spec fn spec_encode(digits: Seq<u64>, radices: Seq<u64>) -> nat
    decreases digits.len(),
{
    if digits.len() == 0 || radices.len() == 0 {
        0
    } else {
        spec_encode(digits.drop_last(), radices.drop_last()) * (radices.last() as nat) + (
        digits.last() as nat)
    }
}

/// The combination with the given index: the last digit is `index % radix`.
/// Where a radix is zero there is no combination, and the digit is zero.
pub open spec fn spec_decode(index: nat, radices: Seq<u64>) -> Seq<nat>
    decreases radices.len(),
{
    if radices.len() == 0 {
        Seq::empty()
    } else if radices.last() == 0 {
        spec_decode(0, radices.drop_last()).push(0)
    } else {
        spec_decode(index / (radices.last() as nat), radices.drop_last()).push(
            index % (radices.last() as nat),
        )
    }
}

/// The digits of a combination as natural numbers.
pub open spec fn digits_as_nat(digits: Seq<u64>) -> Seq<nat> {
    Seq::new(digits.len(), |i: int| digits[i] as nat)
}

/// With a zero radix there is no combination.
pub proof fn lemma_product_zero(radices: Seq<u64>, k: int)
    requires
        0 <= k < radices.len(),
        radices[k] == 0,
    ensures
        spec_product(radices) == 0,
    decreases radices.len(),
{
    if k == radices.len() - 1 {
        assert(spec_product(radices.drop_last()) * 0 == 0) by (nonlinear_arith);
    } else {
        lemma_product_zero(radices.drop_last(), k);
        assert(0 * (radices.last() as nat) == 0) by (nonlinear_arith);
    }
}

/// A combination of in-range digits has an index below the number of combinations.
pub proof fn lemma_encode_below_product(digits: Seq<u64>, radices: Seq<u64>)
    requires
        digits_in_range(digits, radices),
    ensures
        spec_encode(digits, radices) < spec_product(radices),
    decreases digits.len(),
{
    if digits.len() > 0 {
        let e = spec_encode(digits.drop_last(), radices.drop_last());
        let p = spec_product(radices.drop_last());
        let r = radices.last() as nat;
        let d = digits.last() as nat;
        lemma_encode_below_product(digits.drop_last(), radices.drop_last());
        assert(e * r + d < p * r) by (nonlinear_arith)
            requires
                e < p,
                d < r,
        ;
    }
}

/// Decoding the index of a combination gives the combination back.
pub proof fn lemma_decode_encode(digits: Seq<u64>, radices: Seq<u64>)
    requires
        digits_in_range(digits, radices),
    ensures
        spec_decode(spec_encode(digits, radices), radices) == digits_as_nat(digits),
    decreases digits.len(),
{
    if digits.len() == 0 {
        assert(spec_decode(0, radices) =~= digits_as_nat(digits));
    } else {
        let e = spec_encode(digits.drop_last(), radices.drop_last());
        let r = radices.last() as nat;
        let d = digits.last() as nat;
        lemma_decode_encode(digits.drop_last(), radices.drop_last());
        assert((e * r + d) / r == e && (e * r + d) % r == d) by {
            vstd::arithmetic::div_mod::lemma_fundamental_div_mod_converse(
                (e * r + d) as int,
                r as int,
                e as int,
                d as int,
            );
            assert(e * r == r * e) by (nonlinear_arith);
        }
        assert(digits_as_nat(digits.drop_last()).push(d) =~= digits_as_nat(digits));
    }
}

/// Encoding the combination decoded from an index below the number of
/// combinations gives the index back, and its digits are in range.
pub proof fn lemma_encode_decode(index: nat, radices: Seq<u64>, digits: Seq<u64>)
    requires
        index < spec_product(radices),
        digits_as_nat(digits) == spec_decode(index, radices),
    ensures
        digits_in_range(digits, radices),
        spec_encode(digits, radices) == index,
    decreases radices.len(),
{
    lemma_decode_len(index, radices);
    assert(digits.len() == digits_as_nat(digits).len());
    if radices.len() > 0 {
        let r = radices.last() as nat;
        let p = spec_product(radices.drop_last());
        assert(r > 0) by {
            if r == 0 {
                assert(p * 0 == 0) by (nonlinear_arith);
            }
        }
        let q = index / r;
        assert(q < p) by {
            vstd::arithmetic::div_mod::lemma_fundamental_div_mod(index as int, r as int);
            assert(index < p * r);
            assert(q < p) by (nonlinear_arith)
                requires
                    index == r * q + index % r,
                    index % r >= 0,
                    index < p * r,
                    r > 0,
            ;
        }
        let front = digits.drop_last();
        assert(digits_as_nat(front) =~= spec_decode(q, radices.drop_last())) by {
            assert(digits_as_nat(digits).drop_last() =~= digits_as_nat(front));
            assert(spec_decode(index, radices).drop_last() =~= spec_decode(
                q,
                radices.drop_last(),
            ));
        }
        lemma_encode_decode(q, radices.drop_last(), front);
        assert(digits_as_nat(digits).last() == index % r);
        assert(digits.last() as nat == index % r);
        assert(index % r < r) by {
            vstd::arithmetic::div_mod::lemma_mod_bound(index as int, r as int);
        }
        assert forall|i: int| 0 <= i < digits.len() implies digits[i] < radices[i] by {
            if i < digits.len() - 1 {
                assert(front[i] == digits[i]);
                assert(radices.drop_last()[i] == radices[i]);
            }
        }
        assert(q * r + index % r == index) by {
            vstd::arithmetic::div_mod::lemma_fundamental_div_mod(index as int, r as int);
            assert(q * r == r * q) by (nonlinear_arith);
        }
    }
}

/// A combination has one digit per radix.
pub proof fn lemma_decode_len(index: nat, radices: Seq<u64>)
    ensures
        spec_decode(index, radices).len() == radices.len(),
    decreases radices.len(),
{
    if radices.len() > 0 {
        if radices.last() == 0 {
            lemma_decode_len(0, radices.drop_last());
        } else {
            lemma_decode_len(index / (radices.last() as nat), radices.drop_last());
        }
    }
}

/// A prefix of a combination of in-range digits has no larger index.
pub proof fn lemma_encode_prefix(digits: Seq<u64>, radices: Seq<u64>, k: int)
    requires
        digits_in_range(digits, radices),
        0 <= k <= digits.len(),
    ensures
        spec_encode(digits.take(k), radices.take(k)) <= spec_encode(digits, radices),
    decreases digits.len(),
{
    if k == digits.len() {
        assert(digits.take(k) =~= digits);
        assert(radices.take(k) =~= radices);
    } else {
        let e = spec_encode(digits.drop_last(), radices.drop_last());
        let r = radices.last() as nat;
        lemma_encode_prefix(digits.drop_last(), radices.drop_last(), k);
        assert(digits.drop_last().take(k) =~= digits.take(k));
        assert(radices.drop_last().take(k) =~= radices.take(k));
        assert(e <= e * r) by (nonlinear_arith)
            requires
                r >= 1,
        ;
    }
}

/// With no zero radix, a prefix of the radices has no more combinations.
pub proof fn lemma_product_prefix(radices: Seq<u64>, k: int)
    requires
        forall|i: int| 0 <= i < radices.len() ==> radices[i] > 0,
        0 <= k <= radices.len(),
    ensures
        spec_product(radices.take(k)) <= spec_product(radices),
    decreases radices.len(),
{
    if k == radices.len() {
        assert(radices.take(k) =~= radices);
    } else {
        let p = spec_product(radices.drop_last());
        let r = radices.last() as nat;
        lemma_product_prefix(radices.drop_last(), k);
        assert(radices.drop_last().take(k) =~= radices.take(k));
        assert(p <= p * r) by (nonlinear_arith)
            requires
                r >= 1,
        ;
    }
}

/// The number of combinations of one choice out of each radix, in order: what
/// `num_actions` is for an action made of several parts. `None` where the
/// number does not fit the machine word.
pub fn product_num_actions(radices: &Vec<u64>) -> (n: Option<u64>)
    ensures
        match n {
            Some(v) => v == spec_product(radices@),
            None => spec_product(radices@) > u64::MAX,
        },
{
    let mut j: usize = 0;
    while j < radices.len()
        invariant
            j <= radices.len(),
            forall|i: int| 0 <= i < j ==> radices@[i] > 0,
        decreases radices.len() - j,
    {
        if radices[j] == 0 {
            proof {
                lemma_product_zero(radices@, j as int);
            }
            return Some(0);
        }
        j += 1;
    }
    let mut acc: u64 = 1;
    let mut i: usize = 0;
    assert(radices@.take(0) =~= Seq::<u64>::empty());
    while i < radices.len()
        invariant
            i <= radices.len(),
            forall|i: int| 0 <= i < radices.len() ==> radices@[i] > 0,
            acc == spec_product(radices@.take(i as int)),
        decreases radices.len() - i,
    {
        proof {
            assert(radices@.take(i as int + 1).drop_last() =~= radices@.take(i as int));
            assert(radices@.take(i as int + 1).last() == radices@[i as int]);
        }
        match acc.checked_mul(radices[i]) {
            Some(v) => {
                acc = v;
            },
            None => {
                proof {
                    lemma_product_prefix(radices@, i as int + 1);
                }
                return None;
            },
        }
        i += 1;
    }
    assert(radices@.take(radices.len() as int) =~= radices@);
    Some(acc)
}

/// The index of a combination of parts, the first part the most significant:
/// what `to_u64` is for an action made of several parts. `None` where a digit
/// is not below its radix, the lengths differ, or the index does not fit the
/// machine word.
pub fn encode_digits(digits: &Vec<u64>, radices: &Vec<u64>) -> (index: Option<u64>)
    ensures
        match index {
            Some(v) => digits_in_range(digits@, radices@) && v == spec_encode(digits@, radices@),
            None => !digits_in_range(digits@, radices@) || spec_encode(digits@, radices@)
                > u64::MAX,
        },
{
    if digits.len() != radices.len() {
        return None;
    }
    let mut acc: u64 = 0;
    let mut i: usize = 0;
    assert(digits@.take(0) =~= Seq::<u64>::empty());
    while i < digits.len()
        invariant
            i <= digits.len(),
            digits.len() == radices.len(),
            forall|k: int| 0 <= k < i ==> digits@[k] < radices@[k],
            acc == spec_encode(digits@.take(i as int), radices@.take(i as int)),
        decreases digits.len() - i,
    {
        if digits[i] >= radices[i] {
            return None;
        }
        proof {
            assert(digits@.take(i as int + 1).drop_last() =~= digits@.take(i as int));
            assert(radices@.take(i as int + 1).drop_last() =~= radices@.take(i as int));
            assert(digits@.take(i as int + 1).last() == digits@[i as int]);
            assert(radices@.take(i as int + 1).last() == radices@[i as int]);
            if digits_in_range(digits@, radices@) {
                lemma_encode_prefix(digits@, radices@, i as int + 1);
            }
        }
        let scaled = match acc.checked_mul(radices[i]) {
            Some(v) => v,
            None => {
                return None;
            },
        };
        acc = match scaled.checked_add(digits[i]) {
            Some(v) => v,
            None => {
                return None;
            },
        };
        i += 1;
    }
    assert(digits@.take(digits.len() as int) =~= digits@);
    assert(radices@.take(radices.len() as int) =~= radices@);
    Some(acc)
}

/// The parts of the combination with the given index: what `from_u64` is for
/// an action made of several parts. `None` where the index is not below the
/// number of combinations.
pub fn decode_digits(index: u64, radices: &Vec<u64>) -> (digits: Option<Vec<u64>>)
    ensures
        match digits {
            Some(d) => index < spec_product(radices@) && digits_as_nat(d@) == spec_decode(
                index as nat,
                radices@,
            ),
            None => index >= spec_product(radices@),
        },
{
    let n = radices.len();
    let mut out: Vec<u64> = Vec::new();
    let mut j: usize = 0;
    while j < n
        invariant
            j <= n,
            n == radices.len(),
            out.len() == j,
            forall|i: int| 0 <= i < j ==> radices@[i] > 0,
        decreases n - j,
    {
        if radices[j] == 0 {
            proof {
                lemma_product_zero(radices@, j as int);
            }
            return None;
        }
        out.push(0);
        j += 1;
    }
    let mut rem: u64 = index;
    let mut k: usize = n;
    proof {
        assert(radices@.take(n as int) =~= radices@);
        assert(digits_as_nat(out@.skip(n as int)) =~= Seq::<nat>::empty());
        lemma_decode_len(index as nat, radices@);
        assert(spec_decode(index as nat, radices@) + Seq::<nat>::empty() =~= spec_decode(
            index as nat,
            radices@,
        ));
    }
    while k > 0
        invariant
            k <= n,
            n == radices.len(),
            out.len() == n,
            forall|i: int| 0 <= i < n ==> radices@[i] > 0,
            spec_decode(index as nat, radices@) == spec_decode(
                rem as nat,
                radices@.take(k as int),
            ) + digits_as_nat(out@.skip(k as int)),
            (index < spec_product(radices@)) <==> (rem < spec_product(radices@.take(k as int))),
        decreases k,
    {
        let r = radices[k - 1];
        let digit = rem % r;
        let next = rem / r;
        proof {
            let cur = radices@.take(k as int);
            let front = radices@.take(k as int - 1);
            let p = spec_product(front);
            assert(cur.drop_last() =~= front);
            assert(cur.last() == r);
            lemma_decode_len(next as nat, front);
            vstd::arithmetic::div_mod::lemma_fundamental_div_mod(rem as int, r as int);
            assert((rem < p * r) <==> (next < p)) by (nonlinear_arith)
                requires
                    rem == r * next + digit,
                    0 <= digit < r,
                    p >= 0,
                    next >= 0,
            ;
        }
        let ghost before = out@;
        out.set(k - 1, digit);
        proof {
            let front = radices@.take(k as int - 1);
            assert(digits_as_nat(out@.skip(k as int - 1)) =~= seq![digit as nat] + digits_as_nat(
                before.skip(k as int),
            ));
            assert(spec_decode(next as nat, front).push(digit as nat) + digits_as_nat(
                before.skip(k as int),
            ) =~= spec_decode(next as nat, front) + digits_as_nat(out@.skip(k as int - 1)));
        }
        rem = next;
        k -= 1;
    }
    proof {
        assert(radices@.take(0) =~= Seq::<u64>::empty());
        assert(out@.skip(0) =~= out@);
        assert(Seq::<nat>::empty() + digits_as_nat(out@) =~= digits_as_nat(out@));
    }
    if rem == 0 {
        Some(out)
    } else {
        None
    }
}

/// The parts of an action made of several: the name of each part and the
/// labels of its choices.
pub open spec fn parts_view(parts: Seq<(String, Vec<String>)>) -> Seq<(Seq<char>, Seq<Seq<char>>)> {
    Seq::new(parts.len(), |k: int| (parts[k].0@, names_view(parts[k].1@)))
}

/// The number of choices of each part.
pub open spec fn part_radices(parts: Seq<(Seq<char>, Seq<Seq<char>>)>) -> Seq<u64> {
    Seq::new(parts.len(), |k: int| parts[k].1.len() as u64)
}

/// The label of one part at one of its choices: the part's name, `=`, and
/// the choice's label.
pub open spec fn part_label(part: (Seq<char>, Seq<Seq<char>>), choice: nat) -> Seq<char> {
    part.0 + seq!['='] + part.1[choice as int]
}

/// The label of a combination: the labels of the parts at their choices,
/// with commas between them.
pub open spec fn combined_label(parts: Seq<(Seq<char>, Seq<Seq<char>>)>, digits: Seq<nat>) -> Seq<
    char,
>
    decreases parts.len(),
{
    if parts.len() == 0 || digits.len() == 0 {
        Seq::empty()
    } else if parts.len() == 1 {
        part_label(parts[0], digits.last())
    } else {
        combined_label(parts.drop_last(), digits.drop_last()) + seq![','] + part_label(
            parts.last(),
            digits.last(),
        )
    }
}

/// The labels of an action made of several parts: one per combination, in
/// the order of the combinations' indices. Each is made of the parts' labels
/// at the combination's choices, as `name=label`, with commas between them.
pub fn product_labels(parts: &Vec<(String, Vec<String>)>) -> (labels: Vec<String>)
    ensures
        labels@.len() == spec_product(part_radices(parts_view(parts@))),
        forall|i: int|
            0 <= i < labels@.len() ==> (#[trigger] labels@[i])@ == combined_label(
                parts_view(parts@),
                spec_decode(i as nat, part_radices(parts_view(parts@))),
            ),
{
    let ghost all = parts_view(parts@);
    let ghost radices = part_radices(all);
    let mut labels: Vec<String> = Vec::new();
    labels.push(String::new());
    let mut k: usize = 0;
    proof {
        reveal_strlit(",");
        reveal_strlit("=");
        assert(all.take(0) =~= Seq::<(Seq<char>, Seq<Seq<char>>)>::empty());
        assert(radices.take(0) =~= Seq::<u64>::empty());
    }
    while k < parts.len()
        invariant
            k <= parts@.len(),
            all == parts_view(parts@),
            radices == part_radices(all),
            ","@ == seq![','],
            "="@ == seq!['='],
            labels@.len() == spec_product(radices.take(k as int)),
            forall|i: int|
                0 <= i < labels@.len() ==> (#[trigger] labels@[i])@ == combined_label(
                    all.take(k as int),
                    spec_decode(i as nat, radices.take(k as int)),
                ),
        decreases parts.len() - k,
    {
        let name = &parts[k].0;
        let choices = &parts[k].1;
        let n = choices.len();
        let ghost front = all.take(k as int);
        let ghost front_radices = radices.take(k as int);
        let ghost here = all.take(k as int + 1);
        let ghost here_radices = radices.take(k as int + 1);
        proof {
            assert(here.drop_last() =~= front);
            assert(here_radices.drop_last() =~= front_radices);
            assert(here.last() == all[k as int]);
            assert(here_radices.last() == n as u64);
            assert(all[k as int] == (name@, names_view(choices@)));
        }
        let mut next: Vec<String> = Vec::new();
        let mut a: usize = 0;
        while a < labels.len()
            invariant
                a <= labels@.len(),
                k < parts@.len(),
                n == choices@.len(),
                n <= u64::MAX,
                ","@ == seq![','],
                "="@ == seq!['='],
                front == all.take(k as int),
                here == all.take(k as int + 1),
                front_radices == radices.take(k as int),
                here_radices == radices.take(k as int + 1),
                here.drop_last() == front,
                here_radices.drop_last() == front_radices,
                here.last() == (name@, names_view(choices@)),
                here_radices.last() == n as u64,
                here.len() == k + 1,
                here_radices.len() == k + 1,
                labels@.len() == spec_product(front_radices),
                forall|i: int|
                    0 <= i < labels@.len() ==> (#[trigger] labels@[i])@ == combined_label(
                        front,
                        spec_decode(i as nat, front_radices),
                    ),
                next@.len() == a * n,
                forall|i: int|
                    0 <= i < next@.len() ==> (#[trigger] next@[i])@ == combined_label(
                        here,
                        spec_decode(i as nat, here_radices),
                    ),
            decreases labels.len() - a,
        {
            let mut c: usize = 0;
            while c < n
                invariant
                    c <= n,
                    a < labels@.len(),
                    k < parts@.len(),
                    n == choices@.len(),
                    n <= u64::MAX,
                    ","@ == seq![','],
                    "="@ == seq!['='],
                    here.drop_last() == front,
                    here_radices.drop_last() == front_radices,
                    here.last() == (name@, names_view(choices@)),
                    here_radices.last() == n as u64,
                    here.len() == k + 1,
                    here_radices.len() == k + 1,
                    labels@[a as int]@ == combined_label(
                        front,
                        spec_decode(a as nat, front_radices),
                    ),
                    next@.len() == a * n + c,
                    forall|i: int|
                        0 <= i < next@.len() ==> (#[trigger] next@[i])@ == combined_label(
                            here,
                            spec_decode(i as nat, here_radices),
                        ),
                decreases n - c,
            {
                let mut text = labels[a].clone();
                if k > 0 {
                    text.append(",");
                }
                text.append(name.as_str());
                text.append("=");
                text.append(choices[c].as_str());
                proof {
                    let i = (a * n + c) as nat;
                    assert(i / (n as nat) == a && i % (n as nat) == c) by {
                        vstd::arithmetic::div_mod::lemma_fundamental_div_mod_converse(
                            i as int,
                            n as int,
                            a as int,
                            c as int,
                        );
                    }
                    lemma_decode_len(a as nat, front_radices);
                    let digits = spec_decode(i, here_radices);
                    assert(digits == spec_decode(a as nat, front_radices).push(c as nat));
                    assert(digits.drop_last() =~= spec_decode(a as nat, front_radices));
                    assert(digits.last() == c);
                    assert(names_view(choices@)[c as int] == choices@[c as int]@);
                    assert(part_label(here.last(), c as nat) == name@ + seq!['='] + choices@[c as int]@);
                    if k == 0 {
                        assert(front.len() == 0);
                        assert(labels@[a as int]@ =~= Seq::<char>::empty());
                        assert(here[0] == here.last());
                        assert(text@ =~= combined_label(here, digits));
                    } else {
                        assert(text@ =~= combined_label(here, digits));
                    }
                }
                next.push(text);
                c += 1;
            }
            proof {
                assert((a + 1) * n == a * n + n) by (nonlinear_arith);
            }
            a += 1;
        }
        proof {
            assert(spec_product(here_radices) == spec_product(front_radices) * (n as nat));
        }
        labels = next;
        k += 1;
    }
    proof {
        assert(all.take(parts@.len() as int) =~= all);
        assert(radices.take(parts@.len() as int) =~= radices);
    }
    labels
}

} // verus!
