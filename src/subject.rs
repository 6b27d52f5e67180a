use vstd::prelude::*;

verus! {

pub open spec fn is_digit(c: char) -> bool {
    '0' <= c && c <= '9'
}

pub open spec fn all_digits(s: Seq<char>) -> bool {
    forall|i: int| 0 <= i < s.len() ==> #[trigger] is_digit(s[i])
}

/// The number written by the decimal digits `s`, most significant first.
pub open spec fn digits_value(s: Seq<char>) -> int
    decreases s.len(),
{
    if s.len() == 0 {
        0
    } else {
        digits_value(s.drop_last()) * 10 + (s.last() as int - '0' as int)
    }
}

/// The length of the optional leading sign of `s`.
pub open spec fn sign_len(s: Seq<char>) -> int {
    if s.len() > 0 && (s[0] == '+' || s[0] == '-') {
        1
    } else {
        0
    }
}

/// The integer that `s` writes in decimal (an optional `+` or `-`, then at
/// least one digit and nothing else), if it writes one.
pub open spec fn decimal_value(s: Seq<char>) -> Option<int> {
    let d = s.subrange(sign_len(s), s.len() as int);
    if d.len() > 0 && all_digits(d) {
        if s[0] == '-' {
            Some(-digits_value(d))
        } else {
            Some(digits_value(d))
        }
    } else {
        None
    }
}

/// The `i32` that `s` writes in decimal, when it writes one in range.
pub open spec fn parsed_i32(s: Seq<char>) -> Option<i32> {
    match decimal_value(s) {
        Some(v) => if i32::MIN <= v && v <= i32::MAX {
            Some(v as i32)
        } else {
            None
        },
        None => None,
    }
}

proof fn lemma_digits_value_grows(d: Seq<char>, k: int)
    requires
        all_digits(d),
        0 <= k <= d.len(),
    ensures
        0 <= digits_value(d.take(k)) <= digits_value(d),
    decreases d.len(),
{
    if k < d.len() {
        let shorter = d.drop_last();
        assert(all_digits(shorter)) by {
            assert forall|i: int| 0 <= i < shorter.len() implies #[trigger] is_digit(shorter[i]) by {
                assert(is_digit(d[i]));
            }
        }
        lemma_digits_value_grows(shorter, k);
        lemma_digits_value_grows(shorter, shorter.len() as int);
        assert(shorter.take(k) =~= d.take(k));
        assert(shorter.take(shorter.len() as int) =~= shorter);
        assert(is_digit(d[d.len() - 1]));
    } else {
        assert(d.take(k) =~= d);
        if d.len() > 0 {
            let shorter = d.drop_last();
            assert(all_digits(shorter)) by {
                assert forall|i: int| 0 <= i < shorter.len() implies #[trigger] is_digit(shorter[i]) by {
                    assert(is_digit(d[i]));
                }
            }
            lemma_digits_value_grows(shorter, shorter.len() as int);
            assert(shorter.take(shorter.len() as int) =~= shorter);
            assert(is_digit(d[d.len() - 1]));
        }
    }
}

/// Reads an id (a token's subject, a group id in a query) written in
/// decimal. Nothing when the text is not an `i32` in decimal.
pub fn parse_id(s: &str) -> (r: Option<i32>)
    ensures
        r == parsed_i32(s@),
{
    let ghost text = s@;
    let ghost mut pos: int = 0;
    let mut first = true;
    let ghost mut sign: int = 0;
    let mut any_digit = false;
    let mut negative = false;
    let mut magnitude: u64 = 0;
    for c in it: s.chars()
        invariant
            text == s@,
            it.seq() == text,
            pos == it.index(),
            pos <= text.len(),
            first == (pos == 0),
            any_digit == (sign < pos),
            0 <= sign <= pos,
            pos > 0 ==> sign == sign_len(text),
            negative == (pos > 0 && text[0] == '-'),
            all_digits(text.subrange(sign as int, pos as int)),
            magnitude == digits_value(text.subrange(sign as int, pos as int)),
            magnitude <= 2147483648,
    {
        let ghost digits = text.subrange(sign as int, pos as int);
        if first && (c == '+' || c == '-') {
            negative = c == '-';
            proof {
                sign = 1;
            }
            assert(text.subrange(1, 1) =~= Seq::<char>::empty());
        } else if '0' <= c && c <= '9' {
            let d = (c as u32 - '0' as u32) as u64;
            magnitude = magnitude * 10 + d;
            any_digit = true;
            proof {
                let next = text.subrange(sign as int, pos + 1);
                assert(next.drop_last() =~= digits);
                assert(next.last() == c);
                assert(all_digits(next)) by {
                    assert forall|i: int| 0 <= i < next.len() implies #[trigger] is_digit(next[i]) by {
                        if i < next.len() - 1 {
                            assert(next[i] == digits[i]);
                        }
                    }
                }
            }
            if magnitude > 2147483648 {
                proof {
                    let d_all = text.subrange(sign_len(text), text.len() as int);
                    let next = text.subrange(sign as int, pos + 1);
                    if pos == 0 {
                        assert(sign_len(text) == 0);
                    }
                    assert(sign as int == sign_len(text));
                    if d_all.len() > 0 && all_digits(d_all) {
                        let k = pos + 1 - sign;
                        assert(d_all.take(k) =~= next);
                        lemma_digits_value_grows(d_all, k);
                    }
                }
                return None;
            }
        } else {
            proof {
                let d_all = text.subrange(sign_len(text), text.len() as int);
                if pos == 0 {
                    assert(sign_len(text) == 0);
                }
                assert(sign as int == sign_len(text));
                assert(d_all[pos - sign] == c);
                assert(!is_digit(d_all[pos - sign]));
            }
            return None;
        }
        first = false;
        proof {
            pos = pos + 1;
        }
    }
    if !any_digit {
        proof {
            if pos > 0 {
                assert(text.subrange(sign_len(text), text.len() as int).len() == 0);
            } else {
                assert(text.len() == 0);
            }
        }
        return None;
    }
    proof {
        assert(text.subrange(sign as int, pos as int) =~= text.subrange(sign_len(text), text.len() as int));
    }
    if negative {
        Some((-(magnitude as i64)) as i32)
    } else if magnitude <= 2147483647 {
        Some(magnitude as i32)
    } else {
        None
    }
}

} // verus!
