//! Byte-level building blocks shared by the stored encodings: the
//! colon-separated field model, decimal rendering and parsing, and
//! constant-time byte comparison.

use vstd::prelude::*;

verus! {

use vstd::string::StringSliceAdditionalSpecFns;

/// The ASCII colon that separates the fields of every stored encoding.
pub const COLON: u8 = 58;

/// True when no byte of `s` is the field separator.
pub open spec fn no_colon(s: Seq<u8>) -> bool {
    forall|i: int| 0 <= i < s.len() ==> s[i] != COLON
}

/// True when every byte of `s` is ASCII.
pub open spec fn ascii_seq(s: Seq<u8>) -> bool {
    forall|i: int| 0 <= i < s.len() ==> s[i] < 128
}

/// The fields of `s`, split on every colon. Splitting never fails: an
/// input without colons is a single field, and adjacent colons produce
/// empty fields.
pub open spec fn split_colon(s: Seq<u8>) -> Seq<Seq<u8>>
    decreases s.len(),
{
    if s.len() == 0 {
        seq![Seq::<u8>::empty()]
    } else if s[0] == COLON {
        seq![Seq::<u8>::empty()] + split_colon(s.drop_first())
    } else {
        let t = split_colon(s.drop_first());
        seq![seq![s[0]] + t[0]] + t.drop_first()
    }
}

/// Splitting yields at least one field.
pub proof fn lemma_split_len(s: Seq<u8>)
    ensures
        split_colon(s).len() >= 1,
    decreases s.len(),
{
    if s.len() != 0 {
        lemma_split_len(s.drop_first());
    }
}

/// A colon-free input is one whole field.
pub proof fn lemma_split_single(s: Seq<u8>)
    requires
        no_colon(s),
    ensures
        split_colon(s) =~= seq![s],
    decreases s.len(),
{
    if s.len() == 0 {
        assert(s =~= Seq::<u8>::empty());
    } else {
        lemma_split_single(s.drop_first());
        assert(seq![s[0]] + s.drop_first() =~= s);
    }
}

/// A colon-free field followed by a colon splits off as the first field.
pub proof fn lemma_split_prepend(a: Seq<u8>, rest: Seq<u8>)
    requires
        no_colon(a),
    ensures
        split_colon(a + seq![COLON] + rest) =~= seq![a] + split_colon(rest),
    decreases a.len(),
{
    let s = a + seq![COLON] + rest;
    if a.len() == 0 {
        assert(s =~= seq![COLON] + rest);
        assert(s.drop_first() =~= rest);
        assert(a =~= Seq::<u8>::empty());
    } else {
        assert(s[0] == a[0]);
        assert(s.drop_first() =~= a.drop_first() + seq![COLON] + rest);
        lemma_split_prepend(a.drop_first(), rest);
        lemma_split_len(rest);
        let t = split_colon(s.drop_first());
        assert(t[0] == a.drop_first());
        assert(seq![s[0]] + t[0] =~= a);
        assert(t.drop_first() =~= split_colon(rest));
    }
}

/// Splits `s` into its colon-separated fields.
pub fn split_colons(s: &[u8]) -> (r: Vec<Vec<u8>>)
    ensures
        r.deep_view() == split_colon(s@),
{
    let ghost whole = s@;
    let mut done: Vec<Vec<u8>> = Vec::new();
    let mut cur: Vec<u8> = Vec::new();
    let mut i: usize = 0;
    proof {
        assert(cur@ + whole.skip(0) =~= whole);
    }
    while i < s.len()
        invariant
            whole == s@,
            i <= whole.len(),
            no_colon(cur@),
            split_colon(whole) == done.deep_view() + split_colon(cur@ + whole.skip(i as int)),
        decreases whole.len() - i,
    {
        let b = s[i];
        if b == COLON {
            proof {
                assert(cur@ + whole.skip(i as int) =~= cur@ + seq![COLON] + whole.skip(
                    i as int + 1,
                ));
                lemma_split_prepend(cur@, whole.skip(i as int + 1));
            }
            let ghost pre_dv = done.deep_view();
            let ghost cur_s = cur@;
            done.push(cur);
            cur = Vec::new();
            proof {
                assert(done.deep_view() =~~= pre_dv + seq![cur_s]);
                assert(cur@ + whole.skip(i as int + 1) =~= whole.skip(i as int + 1));
                assert(pre_dv + (seq![cur_s] + split_colon(whole.skip(i as int + 1)))
                    =~~= done.deep_view() + split_colon(whole.skip(i as int + 1)));
            }
        } else {
            proof {
                assert(cur@ + whole.skip(i as int) =~= cur@.push(b) + whole.skip(i as int + 1));
            }
            cur.push(b);
        }
        i += 1;
    }
    proof {
        assert(cur@ + whole.skip(i as int) =~= cur@);
        lemma_split_single(cur@);
    }
    let ghost pre_dv = done.deep_view();
    let ghost cur_s = cur@;
    done.push(cur);
    proof {
        assert(done.deep_view() =~~= pre_dv + seq![cur_s]);
        assert(split_colon(whole) =~~= done.deep_view());
    }
    done
}

/// The fields joined back into one byte string, a colon between each
/// pair of neighbours: the inverse of `split_colon` on colon-free fields.
pub open spec fn join_colon(segs: Seq<Seq<u8>>) -> Seq<u8>
    decreases segs.len(),
{
    if segs.len() == 0 {
        Seq::<u8>::empty()
    } else if segs.len() == 1 {
        segs[0]
    } else {
        segs[0] + seq![COLON] + join_colon(segs.drop_first())
    }
}

/// Appending one more field appends a colon and the field.
pub proof fn lemma_join_push(segs: Seq<Seq<u8>>, s: Seq<u8>)
    requires
        segs.len() >= 1,
    ensures
        join_colon(segs.push(s)) == join_colon(segs) + seq![COLON] + s,
    decreases segs.len(),
{
    if segs.len() == 1 {
        assert(segs.push(s).drop_first() =~~= seq![s]);
        assert(join_colon(seq![s]) == s);
        assert(join_colon(segs.push(s)) == segs[0] + seq![COLON] + s);
    } else {
        assert(segs.push(s).drop_first() =~~= segs.drop_first().push(s));
        lemma_join_push(segs.drop_first(), s);
        assert((segs[0] + seq![COLON] + (join_colon(segs.drop_first()) + seq![COLON] + s)) =~= (
        segs[0] + seq![COLON] + join_colon(segs.drop_first())) + seq![COLON] + s);
    }
}

/// Splitting a join of colon-free fields gives the fields back.
pub proof fn lemma_split_join(segs: Seq<Seq<u8>>)
    requires
        segs.len() >= 1,
        forall|k: int| 0 <= k < segs.len() ==> no_colon(#[trigger] segs[k]),
    ensures
        split_colon(join_colon(segs)) =~~= segs,
    decreases segs.len(),
{
    if segs.len() == 1 {
        lemma_split_single(segs[0]);
    } else {
        lemma_split_prepend(segs[0], join_colon(segs.drop_first()));
        lemma_split_join(segs.drop_first());
    }
}

/// A join of ASCII fields is ASCII.
pub proof fn lemma_join_ascii(segs: Seq<Seq<u8>>)
    requires
        forall|k: int| 0 <= k < segs.len() ==> ascii_seq(#[trigger] segs[k]),
    ensures
        ascii_seq(join_colon(segs)),
    decreases segs.len(),
{
    if segs.len() > 1 {
        lemma_join_ascii(segs.drop_first());
    }
}

/// An all-ASCII byte string is valid UTF-8, one character per byte.
pub proof fn lemma_ascii_valid_utf8(s: Seq<u8>)
    requires
        ascii_seq(s),
    ensures
        vstd::utf8::valid_utf8(s),
{
    assert(s.subrange(0, 0) =~= Seq::<u8>::empty());
    assert(vstd::utf8::partial_valid_utf8(s, 0));
    assert forall|i: int| 0 <= i < s.len() implies vstd::utf8::is_leading_byte_width_1(
        s[i],
    ) by {
        assert(s[i] < 128);
    }
    vstd::utf8::partial_valid_utf8_extend_ascii_block(s, 0, s.len() as int);
    assert(s.subrange(0, s.len() as int) =~= s);
}

/// Joins the fields with a colon between each pair of neighbours.
pub fn join_with_colons(segs: &Vec<Vec<u8>>) -> (out: Vec<u8>)
    requires
        segs@.len() >= 1,
    ensures
        out@ == join_colon(segs.deep_view()),
{
    let ghost dv = segs.deep_view();
    proof {
        assert(dv.len() == segs@.len());
        assert(dv[0] =~= segs@[0]@);
    }
    let mut out: Vec<u8> = Vec::new();
    out.extend_from_slice(segs[0].as_slice());
    proof {
        assert(out@ =~= join_colon(dv.take(1)));
    }
    let mut k: usize = 1;
    while k < segs.len()
        invariant
            dv == segs.deep_view(),
            dv.len() == segs@.len(),
            1 <= k <= segs@.len(),
            out@ == join_colon(dv.take(k as int)),
        decreases segs@.len() - k,
    {
        out.push(COLON);
        proof {
            assert(dv[k as int] =~= segs@[k as int]@);
        }
        out.extend_from_slice(segs[k].as_slice());
        proof {
            assert(dv.take(k as int + 1) =~~= dv.take(k as int).push(dv[k as int]));
            lemma_join_push(dv.take(k as int), dv[k as int]);
            assert(out@ =~= join_colon(dv.take(k as int)) + seq![COLON] + dv[k as int]);
        }
        k += 1;
    }
    proof {
        assert(dv.take(k as int) =~~= dv);
    }
    out
}

/// Builds the canonical decimal rendering of `n` as its own field.
pub fn dec_field(n: u64) -> (r: Vec<u8>)
    ensures
        r@ == dec_digits(n as nat),
{
    let mut out: Vec<u8> = Vec::new();
    push_u64_dec(&mut out, n);
    out
}

/// True when `b` is an ASCII decimal digit.
pub open spec fn is_digit(b: u8) -> bool {
    48 <= b <= 57
}

/// The numeric value of a digit byte; zero on anything else.
pub open spec fn digit_val(b: u8) -> nat {
    if is_digit(b) {
        (b - 48) as nat
    } else {
        0
    }
}

/// True when `s` is one or more digit bytes: the only shape the numeric
/// fields of an encoding may take.
pub open spec fn all_digits(s: Seq<u8>) -> bool {
    s.len() > 0 && forall|i: int| 0 <= i < s.len() ==> is_digit(#[trigger] s[i])
}

/// The value of a digit string, most significant digit first.
pub open spec fn dec_value(s: Seq<u8>) -> nat
    decreases s.len(),
{
    if s.len() == 0 {
        0
    } else {
        dec_value(s.drop_last()) * 10 + digit_val(s.last())
    }
}

/// The canonical decimal rendering of `n`: no sign, no leading zeros.
pub open spec fn dec_digits(n: nat) -> Seq<u8>
    decreases n,
{
    if n < 10 {
        seq![(48 + n) as u8]
    } else {
        dec_digits(n / 10).push((48 + n % 10) as u8)
    }
}

/// The canonical rendering is made of digits and reads back as `n`.
pub proof fn lemma_dec_digits(n: nat)
    ensures
        all_digits(dec_digits(n)),
        dec_value(dec_digits(n)) == n,
    decreases n,
{
    if n < 10 {
        let d = dec_digits(n);
        assert(d.drop_last() =~= Seq::<u8>::empty());
        assert(dec_value(Seq::<u8>::empty()) == 0);
        assert(dec_value(d) == dec_value(d.drop_last()) * 10 + digit_val(d.last()));
    } else {
        lemma_dec_digits(n / 10);
        let d = dec_digits(n);
        assert(d.drop_last() =~= dec_digits(n / 10));
        assert(dec_value(d) == (n / 10) * 10 + n % 10);
    }
}

/// Digit strings hold no separator and are ASCII.
pub proof fn lemma_digits_ascii(s: Seq<u8>)
    requires
        all_digits(s),
    ensures
        no_colon(s),
        ascii_seq(s),
{
}

/// The value of a digit string dominates the value of each of its prefixes.
pub proof fn lemma_dec_value_prefix(s: Seq<u8>, i: int)
    requires
        0 <= i <= s.len(),
        forall|j: int| 0 <= j < s.len() ==> is_digit(#[trigger] s[j]),
    ensures
        dec_value(s.take(i)) <= dec_value(s),
    decreases s.len() - i,
{
    if i == s.len() {
        assert(s.take(i) =~= s);
    } else {
        lemma_dec_value_prefix(s, i + 1);
        let a = dec_value(s.take(i));
        assert(s.take(i + 1).drop_last() =~= s.take(i));
        assert(dec_value(s.take(i + 1)) == a * 10 + digit_val(s.take(i + 1).last()));
        assert(a * 10 >= a) by (nonlinear_arith)
            requires a >= 0;
    }
}

/// Parses an unsigned decimal field: one or more digits whose value fits
/// in a `u64`; anything else is rejected.
pub fn parse_u64(s: &[u8]) -> (r: Option<u64>)
    ensures
        match r {
            Some(v) => all_digits(s@) && dec_value(s@) <= u64::MAX && v == dec_value(s@),
            None => !(all_digits(s@) && dec_value(s@) <= u64::MAX),
        },
{
    if s.len() == 0 {
        return None;
    }
    let mut acc: u64 = 0;
    let mut i: usize = 0;
    proof {
        assert(s@.take(0) =~= Seq::<u8>::empty());
    }
    while i < s.len()
        invariant
            0 < s@.len(),
            i <= s@.len(),
            forall|j: int| 0 <= j < i ==> is_digit(#[trigger] s@[j]),
            acc == dec_value(s@.take(i as int)),
        decreases s@.len() - i,
    {
        let b = s[i];
        if b < 48 || b > 57 {
            return None;
        }
        let d = (b - 48) as u64;
        if acc > (u64::MAX - d) / 10 {
            proof {
                let m = u64::MAX as int;
                vstd::arithmetic::div_mod::lemma_fundamental_div_mod(m - d, 10);
                assert(acc * 10 + d > m);
                if all_digits(s@) {
                    lemma_dec_value_prefix(s@, i as int + 1);
                    assert(s@.take(i as int + 1).drop_last() =~= s@.take(i as int));
                    assert(dec_value(s@.take(i as int + 1)) == acc * 10 + d);
                }
            }
            return None;
        }
        proof {
            let m = u64::MAX as int;
            vstd::arithmetic::div_mod::lemma_fundamental_div_mod(m - d, 10);
            assert(acc * 10 + d <= m);
            assert(s@.take(i as int + 1).drop_last() =~= s@.take(i as int));
        }
        acc = acc * 10 + d;
        i += 1;
    }
    proof {
        assert(s@.take(i as int) =~= s@);
    }
    Some(acc)
}

/// Appends the canonical decimal rendering of `n` to `out`.
pub fn push_u64_dec(out: &mut Vec<u8>, n: u64)
    ensures
        final(out)@ == old(out)@ + dec_digits(n as nat),
    decreases n,
{
    if n < 10 {
        out.push(48 + n as u8);
        proof {
            assert(old(out)@.push((48 + n) as u8) =~= old(out)@ + dec_digits(n as nat));
        }
    } else {
        proof {
            vstd::arithmetic::div_mod::lemma_fundamental_div_mod(n as int, 10);
        }
        push_u64_dec(out, n / 10);
        out.push(48 + (n % 10) as u8);
        proof {
            assert((old(out)@ + dec_digits(n as nat / 10)).push((48 + n as nat % 10) as u8)
                =~= old(out)@ + dec_digits(n as nat));
        }
    }
}

/// Compares two byte strings for equality. The scan always walks the
/// whole of both inputs when their lengths agree, so the comparison of
/// secret material does not leak a matching prefix through timing.
pub fn bytes_eq(a: &[u8], b: &[u8]) -> (r: bool)
    ensures
        r == (a@ == b@),
{
    if a.len() != b.len() {
        proof {
            assert(a@ != b@);
        }
        return false;
    }
    let mut acc: u8 = 0;
    let mut i: usize = 0;
    while i < a.len()
        invariant
            a@.len() == b@.len(),
            i <= a@.len(),
            (acc == 0) <==> (forall|j: int| 0 <= j < i ==> a@[j] == b@[j]),
        decreases a@.len() - i,
    {
        let x = a[i];
        let y = b[i];
        let d = x ^ y;
        let acc0 = acc;
        proof {
            assert(((x ^ y) == 0) == (x == y)) by (bit_vector);
            assert(((acc0 | d) == 0) == (acc0 == 0 && d == 0)) by (bit_vector);
        }
        acc = acc | d;
        i += 1;
    }
    if acc == 0 {
        proof {
            assert(a@ =~= b@);
        }
        true
    } else {
        false
    }
}

#[verifier::external_type_specification]
#[verifier::external_body]
pub struct ExFromUtf8Error(std::string::FromUtf8Error);

/// Relies on `String::from_utf8`: it accepts exactly valid UTF-8 and
/// returns the characters those bytes encode, as `vstd`'s UTF-8 model
/// states them.
pub assume_specification[ String::from_utf8 ](vec: Vec<u8>) -> (r: Result<
    String,
    std::string::FromUtf8Error,
>)
    ensures
        r matches Ok(s) ==> vstd::utf8::valid_utf8(vec@) && s@ == vstd::utf8::decode_utf8(vec@),
        r is Err ==> !vstd::utf8::valid_utf8(vec@),
;

/// Relies on `str::from_utf8`: it accepts exactly valid UTF-8.
#[verifier::external_body]
pub(crate) fn utf8_is_valid(data: &[u8]) -> (r: bool)
    ensures
        r == vstd::utf8::valid_utf8(data@),
{
    core::str::from_utf8(data).is_ok()
}

/// Compares two text fragments for equality, byte by byte.
pub fn str_eq(a: &str, b: &str) -> (r: bool)
    ensures
        r == (a@ == b@),
{
    let r = bytes_eq(a.as_bytes(), b.as_bytes());
    proof {
        if a.spec_bytes() == b.spec_bytes() {
            vstd::utf8::encode_utf8_decode_utf8(a@);
            vstd::utf8::encode_utf8_decode_utf8(b@);
        }
    }
    r
}

} // verus!
