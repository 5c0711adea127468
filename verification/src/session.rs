//! Pure helpers for the session driver: reading the message count out of
//! a status line, and splitting a folder path for the existence check
//! that precedes creating it.

use vstd::prelude::*;
use vstd::string::StrSliceExecFns;
use vstd::string::StringExecFns;
use crate::text::{end_of_last_char, find_last_char_end};

verus! {

/// Whether `c` is a decimal digit.
pub open spec fn is_digit_char(c: char) -> bool {
    '0' <= c && c <= '9'
}

/// The numeric value of a digit character.
pub open spec fn digit_val(c: char) -> int {
    c as int - '0' as int
}

/// The decimal digits of a line, in order, everything else dropped.
pub open spec fn digits_of(s: Seq<char>) -> Seq<char>
    decreases s.len(),
{
    if s.len() == 0 {
        Seq::empty()
    } else if is_digit_char(s.last()) {
        digits_of(s.drop_last()).push(s.last())
    } else {
        digits_of(s.drop_last())
    }
}

/// The value of a digit string read in base ten.
pub open spec fn decimal_value(digits: Seq<char>) -> int
    decreases digits.len(),
{
    if digits.len() == 0 {
        0
    } else {
        decimal_value(digits.drop_last()) * 10 + digit_val(digits.last())
    }
}

proof fn lemma_digits_of_all_digits(s: Seq<char>)
    ensures
        forall|k: int| 0 <= k < digits_of(s).len() ==> is_digit_char(digits_of(s)[k]),
    decreases s.len(),
{
    if s.len() > 0 {
        lemma_digits_of_all_digits(s.drop_last());
        if is_digit_char(s.last()) {
            let d = digits_of(s.drop_last());
            assert forall|k: int| 0 <= k < digits_of(s).len() implies is_digit_char(
                digits_of(s)[k],
            ) by {
                if k < d.len() {
                    assert(digits_of(s)[k] == d[k]);
                } else {
                    assert(digits_of(s)[k] == s.last());
                }
            }
        }
    }
}

proof fn lemma_decimal_value_nonneg(digits: Seq<char>)
    requires
        forall|k: int| 0 <= k < digits.len() ==> is_digit_char(digits[k]),
    ensures
        decimal_value(digits) >= 0,
    decreases digits.len(),
{
    if digits.len() > 0 {
        lemma_decimal_value_nonneg(digits.drop_last());
        let v = decimal_value(digits.drop_last());
        assert(v * 10 >= v) by (nonlinear_arith)
            requires
                v >= 0,
        ;
    }
}

proof fn lemma_digits_prefix_value(s: Seq<char>, i: int)
    requires
        0 <= i <= s.len(),
    ensures
        decimal_value(digits_of(s.subrange(0, i))) <= decimal_value(digits_of(s)),
    decreases s.len() - i,
{
    if i == s.len() {
        assert(s.subrange(0, i) =~= s);
    } else {
        lemma_digits_prefix_value(s.subrange(0, s.len() - 1), i);
        assert(s.subrange(0, s.len() - 1).subrange(0, i) =~= s.subrange(0, i));
        assert(s.drop_last() =~= s.subrange(0, s.len() - 1));
        lemma_digits_of_all_digits(s.drop_last());
        lemma_decimal_value_nonneg(digits_of(s.drop_last()));
        if is_digit_char(s.last()) {
            let v = decimal_value(digits_of(s.drop_last()));
            assert(digits_of(s) == digits_of(s.drop_last()).push(s.last()));
            assert(digits_of(s).drop_last() =~= digits_of(s.drop_last()));
            assert(digits_of(s).last() == s.last());
            assert(decimal_value(digits_of(s)) == v * 10 + digit_val(s.last()));
            assert(v * 10 >= v) by (nonlinear_arith)
                requires
                    v >= 0,
            ;
        }
    }
}

/// Reads the number of messages out of a mailbox status line: the value
/// of all decimal digits of the line read in order as one base-ten
/// number. `None` when the line holds no digit or the value does not fit
/// in a `u64`.
pub fn mail_number_from_status(line: &str) -> (r: Option<u64>)
    ensures
        match r {
            Some(n) => {
                &&& digits_of(line@).len() > 0
                &&& n == decimal_value(digits_of(line@))
            },
            None => digits_of(line@).len() == 0 || decimal_value(digits_of(line@)) > u64::MAX,
        },
{
    let n = line.unicode_len();
    let mut value: u64 = 0;
    let mut seen: bool = false;
    let mut i: usize = 0;
    proof {
        assert(line@.subrange(0, 0) =~= Seq::<char>::empty());
    }
    while i < n
        invariant
            n == line@.len(),
            0 <= i <= n,
            seen == (digits_of(line@.subrange(0, i as int)).len() > 0),
            value == decimal_value(digits_of(line@.subrange(0, i as int))),
        decreases n - i,
    {
        let c = line.get_char(i);
        proof {
            assert(line@.subrange(0, i + 1).drop_last() =~= line@.subrange(0, i as int));
            assert(line@.subrange(0, i + 1).last() == line@[i as int]);
        }
        if c >= '0' && c <= '9' {
            let d: u64 = (c as u32 - '0' as u32) as u64;
            proof {
                let pre = digits_of(line@.subrange(0, i as int));
                assert(is_digit_char(line@[i as int]));
                assert(digits_of(line@.subrange(0, i + 1)) == pre.push(line@[i as int]));
                assert(pre.push(line@[i as int]).drop_last() =~= pre);
                assert(pre.push(line@[i as int]).last() == line@[i as int]);
                assert(d == digit_val(line@[i as int]));
                assert(decimal_value(digits_of(line@.subrange(0, i + 1))) == decimal_value(pre) * 10
                    + d);
            }
            if value > (u64::MAX - d) / 10 {
                proof {
                    assert(value * 10 + d > u64::MAX) by (nonlinear_arith)
                        requires
                            value > (u64::MAX - d) / 10,
                            d <= 9,
                    ;
                    lemma_digits_prefix_value(line@, i + 1);
                }
                return None;
            }
            value = value * 10 + d;
            seen = true;
        }
        i = i + 1;
    }
    proof {
        assert(line@.subrange(0, n as int) =~= line@);
    }
    if seen {
        Some(value)
    } else {
        None
    }
}

/// Splits a folder path for the existence check before creating it: the
/// reference name is everything up to and including the last `/` (`/`
/// itself when the path has none), and the search name is the final
/// segment.
pub fn folder_list_query(mailbox: &str) -> (r: (String, String))
    ensures
        ({
            let e = end_of_last_char(mailbox@, '/');
            &&& (e == 0 ==> r.0@ == "/"@ && r.1@ == mailbox@)
            &&& (e > 0 ==> r.0@ == mailbox@.subrange(0, e) && r.1@ == mailbox@.subrange(
                e,
                mailbox@.len() as int,
            ))
        }),
{
    let n = mailbox.unicode_len();
    let e = find_last_char_end(mailbox, '/');
    if e == 0 {
        let mut root = String::new();
        root.append("/");
        proof {
            assert(Seq::<char>::empty() + "/"@ =~= "/"@);
        }
        (root, mailbox.to_owned())
    } else {
        let folder = mailbox.substring_char(0, e).to_owned();
        let name = mailbox.substring_char(e, n).to_owned();
        (folder, name)
    }
}

} // verus!
