//! Parsing a live process-identifier list.
//!
//! The list is a newline-separated sequence of lines. Each line that reads as
//! a decimal integer — an optional sign, then at least one ASCII digit, with
//! a value inside the 32-bit range — contributes its value; every other line
//! is dropped silently. The result is the set of the values contributed.

use vstd::prelude::*;

use crate::procset::ProcSet;

verus! {

/// An ASCII decimal digit.
pub open spec fn is_ascii_digit(b: u8) -> bool {
    48 <= b && b <= 57
}

/// Every byte of `s` is an ASCII decimal digit.
pub open spec fn all_digits(s: Seq<u8>) -> bool {
    forall|k: int| 0 <= k < s.len() ==> is_ascii_digit(#[trigger] s[k])
}

/// The value of a sequence of ASCII digits read in base ten.
pub open spec fn digits_value(s: Seq<u8>) -> int
    decreases s.len(),
{
    if s.len() == 0 {
        0
    } else {
        digits_value(s.drop_last()) * 10 + (s.last() - 48)
    }
}

/// Whether the line opens with an explicit sign.
pub open spec fn has_sign(s: Seq<u8>) -> bool {
    s.len() > 0 && (s[0] == 43 || s[0] == 45)
}

/// Whether the line opens with a minus sign.
pub open spec fn is_negative(s: Seq<u8>) -> bool {
    s.len() > 0 && s[0] == 45
}

/// The digits of the line: everything after the sign, if there is one.
pub open spec fn digits_of(s: Seq<u8>) -> Seq<u8> {
    if has_sign(s) {
        s.skip(1)
    } else {
        s
    }
}

/// What one line parses to: `Some` of its value when it is an optional sign
/// followed by one or more ASCII digits and the signed value fits in 32 bits,
/// `None` otherwise.
pub open spec fn parse_line_spec(s: Seq<u8>) -> Option<i32> {
    let ds = digits_of(s);
    if ds.len() > 0 && all_digits(ds) {
        let v = if is_negative(s) {
            -digits_value(ds)
        } else {
            digits_value(ds)
        };
        if -2147483648 <= v && v <= 2147483647 {
            Option::Some(v as i32)
        } else {
            Option::None
        }
    } else {
        Option::None
    }
}

proof fn lemma_digits_value_nonneg(s: Seq<u8>)
    requires
        all_digits(s),
    ensures
        digits_value(s) >= 0,
    decreases s.len(),
{
    if s.len() > 0 {
        assert(all_digits(s.drop_last()));
        lemma_digits_value_nonneg(s.drop_last());
    }
}

/// Reading further digits never shrinks the value.
proof fn lemma_digits_value_take_le(s: Seq<u8>, k: int)
    requires
        all_digits(s),
        0 <= k <= s.len(),
    ensures
        digits_value(s.take(k)) <= digits_value(s),
    decreases s.len(),
{
    if k == s.len() {
        assert(s.take(k) =~= s);
    } else {
        assert(s.take(k) =~= s.drop_last().take(k));
        assert(all_digits(s.drop_last()));
        lemma_digits_value_take_le(s.drop_last(), k);
        lemma_digits_value_nonneg(s.drop_last());
    }
}

/// One more digit multiplies the value read so far by ten and adds it in.
proof fn lemma_digits_value_step(s: Seq<u8>, k: int)
    requires
        0 <= k < s.len(),
    ensures
        digits_value(s.take(k + 1)) == digits_value(s.take(k)) * 10 + (s[k] - 48),
{
    assert(s.take(k + 1).drop_last() =~= s.take(k));
    assert(s.take(k + 1).last() == s[k]);
}

/// Parse one line as a 32-bit decimal integer, exactly as `parse_line_spec`
/// reads it.
pub fn parse_line(line: &Vec<u8>) -> (r: Option<i32>)
    ensures
        r == parse_line_spec(line@),
{
    let n = line.len();
    let signed = n > 0 && (line[0] == 43 || line[0] == 45);
    let neg = n > 0 && line[0] == 45;
    let start: usize = if signed {
        1
    } else {
        0
    };
    if start >= n {
        // no digits at all
        return Option::None;
    }
    let ghost ds = digits_of(line@);
    proof {
        assert(ds =~= line@.skip(start as int));
    }
    let mut acc: i64 = 0;
    let mut j: usize = start;
    proof {
        assert(ds.take(0) =~= Seq::<u8>::empty());
    }
    while j < n
        invariant
            start <= j <= n,
            start < n,
            n == line@.len(),
            neg == is_negative(line@),
            ds == digits_of(line@),
            ds == line@.skip(start as int),
            ds.len() == n - start,
            all_digits(ds.take(j - start)),
            acc == digits_value(ds.take(j - start)),
            0 <= acc <= 2147483648,
        decreases n - j,
    {
        let b = line[j];
        proof {
            assert(ds[j - start] == line@[j as int]);
        }
        if b < 48 || b > 57 {
            proof {
                assert(!is_ascii_digit(ds[j - start]));
            }
            return Option::None;
        }
        acc = acc * 10 + ((b - 48) as i64);
        proof {
            lemma_digits_value_step(ds, j - start);
            assert forall|t: int| 0 <= t < j - start + 1 implies is_ascii_digit(
                #[trigger] ds.take(j - start + 1)[t],
            ) by {
                if t < j - start {
                    assert(ds.take(j - start)[t] == ds[t]);
                }
            }
            assert(all_digits(ds.take(j - start + 1)));
        }
        if acc > 2147483648 {
            proof {
                if all_digits(ds) {
                    lemma_digits_value_take_le(ds, j - start + 1);
                    assert(digits_value(ds) >= acc);
                }
            }
            return Option::None;
        }
        j = j + 1;
    }
    proof {
        assert(ds.take(n - start) =~= ds);
        assert(all_digits(ds));
        assert(acc == digits_value(ds));
    }
    if neg {
        Option::Some((-acc) as i32)
    } else {
        if acc > 2147483647 {
            Option::None
        } else {
            Option::Some(acc as i32)
        }
    }
}

/// The contribution of one line: its parsed value, if any.
pub open spec fn line_ids(line: Seq<u8>) -> Set<i32> {
    match parse_line_spec(line) {
        Option::Some(v) => Set::empty().insert(v),
        Option::None => Set::empty(),
    }
}

/// The identifiers contributed by the bytes `rest`, given that the current,
/// still unfinished line has read the bytes `cur` so far. A newline closes
/// the current line; the end of the input closes the last line.
pub open spec fn ids_from(rest: Seq<u8>, cur: Seq<u8>) -> Set<i32>
    decreases rest.len(),
{
    if rest.len() == 0 {
        line_ids(cur)
    } else if rest[0] == 10 {
        line_ids(cur).union(ids_from(rest.skip(1), Seq::empty()))
    } else {
        ids_from(rest.skip(1), cur.push(rest[0]))
    }
}

/// The set of identifiers held in a newline-separated process list.
pub open spec fn proc_ids_of(content: Seq<u8>) -> Set<i32> {
    ids_from(content, Seq::empty())
}

/// Fold one finished line into the set being built.
fn absorb_line(out: &mut ProcSet, line: &Vec<u8>)
    requires
        old(out)@.finite(),
    ensures
        final(out)@ == old(out)@.union(line_ids(line@)),
        final(out)@.finite(),
{
    match parse_line(line) {
        Option::Some(v) => {
            out.insert(v);
            proof {
                assert(old(out)@.insert(v) =~= old(out)@.union(line_ids(line@)));
            }
        },
        Option::None => {
            proof {
                assert(out@ =~= out@.union(line_ids(line@)));
            }
        },
    }
}

/// Parse a whole process list: the set of the values of its well-formed
/// lines, every malformed line dropped.
pub fn parse_proc_list(content: &Vec<u8>) -> (r: ProcSet)
    ensures
        r@ == proc_ids_of(content@),
        r@.finite(),
{
    let mut out = ProcSet::empty();
    let mut cur: Vec<u8> = Vec::new();
    let mut i: usize = 0;
    proof {
        assert(content@.skip(0) =~= content@);
        assert(out@.union(ids_from(content@, Seq::<u8>::empty())) =~= ids_from(
            content@,
            Seq::<u8>::empty(),
        ));
    }
    while i < content.len()
        invariant
            i <= content.len(),
            out@.finite(),
            proc_ids_of(content@) == out@.union(ids_from(content@.skip(i as int), cur@)),
        decreases content.len() - i,
    {
        let ghost rest = content@.skip(i as int);
        let ghost out0 = out@;
        let ghost cur0 = cur@;
        let b = content[i];
        proof {
            assert(rest.len() > 0);
            assert(rest[0] == b);
            assert(rest.skip(1) =~= content@.skip(i + 1));
        }
        if b == 10 {
            absorb_line(&mut out, &cur);
            cur = Vec::new();
            proof {
                let tail = ids_from(content@.skip(i + 1), Seq::<u8>::empty());
                assert(ids_from(rest, cur0) == line_ids(cur0).union(tail));
                assert(out0.union(line_ids(cur0)).union(tail) =~= out0.union(
                    line_ids(cur0).union(tail),
                ));
            }
        } else {
            cur.push(b);
            proof {
                assert(ids_from(rest, cur0) == ids_from(content@.skip(i + 1), cur0.push(b)));
            }
        }
        i = i + 1;
    }
    proof {
        assert(content@.skip(content@.len() as int) =~= Seq::<u8>::empty());
    }
    absorb_line(&mut out, &cur);
    out
}

} // verus!
