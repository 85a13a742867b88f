//! The token layer of the textual object format.
//!
//! A serialized object is a stream of tokens: parentheses, unsigned
//! integers, and length-prefixed strings, each followed by a single space.
//! Strings carry their character count, so no escaping is ever needed and
//! any character may appear in a string. [`render_tokens`] and [`tokenize`]
//! are inverse: the tokenizer is proved to accept exactly the renderings.

use vstd::prelude::*;
use vstd::string::{StrSliceExecFns, StringExecFns};

use crate::parsing::{all_digits, dec_value, digit_val, is_digit, is_int_literal, pos_int};

verus! {

/// One token of the serialized form.
#[derive(Clone, Debug, PartialEq, Eq)]
pub enum Token {
    /// An opening parenthesis.
    Open,

    /// A closing parenthesis.
    Close,

    /// An unsigned integer.
    Num(usize),

    /// A string, stored with its exact character content.
    Text(String),
}

/// The canonical decimal digits of `n`.
pub open spec fn dec_string_of(n: int) -> Seq<char>
    decreases n,
{
    if n < 10 {
        seq![digit_char_of(n)]
    } else {
        dec_string_of(n / 10).push(digit_char_of(n % 10))
    }
}

/// The digit character for the value `d`.
pub open spec fn digit_char_of(d: int) -> char {
    (48 + d) as char
}

pub proof fn lemma_digit_char(d: int)
    requires
        0 <= d <= 9,
    ensures
        is_digit(digit_char_of(d)),
        digit_val(digit_char_of(d)) == d,
{
}

/// The canonical digits of `n` form an integer literal whose value is `n`.
pub proof fn lemma_dec_string_of(n: int)
    requires
        n >= 0,
    ensures
        is_int_literal(dec_string_of(n)),
        dec_value(dec_string_of(n)) == n,
        dec_string_of(n).len() >= 1,
        n >= 10 ==> dec_string_of(n).len() >= 2,
    decreases n,
{
    if n < 10 {
        lemma_digit_char(n);
        let s = dec_string_of(n);
        assert(s == seq![digit_char_of(n)]);
        assert(s.drop_last() =~= Seq::<char>::empty());
        assert(dec_value(s) == dec_value(s.drop_last()) * 10 + digit_val(s.last()));
    } else {
        lemma_dec_string_of(n / 10);
        lemma_digit_char(n % 10);
        let p = dec_string_of(n / 10);
        let s = dec_string_of(n);
        assert(s == p.push(digit_char_of(n % 10)));
        assert(s.drop_last() =~= p);
        assert(s.last() == digit_char_of(n % 10));
        assert(dec_value(s) == dec_value(p) * 10 + digit_val(s.last()));
        assert(s[0] == p[0]);
        assert forall|i: int| 0 <= i < s.len() implies is_digit(#[trigger] s[i]) by {
            if i < p.len() {
                assert(s[i] == p[i]);
            }
        }
    }
}

/// An integer literal with value at least one starts with a nonzero digit
/// and has value at least `1`.
proof fn lemma_literal_value_bound(s: Seq<char>)
    requires
        all_digits(s),
        s.len() >= 1,
        digit_val(s[0]) >= 1,
    ensures
        dec_value(s) >= 1,
        s.len() >= 2 ==> dec_value(s) >= 10,
    decreases s.len(),
{
    if s.len() == 1 {
        assert(s.drop_last() =~= Seq::<char>::empty());
        assert(dec_value(s) == dec_value(s.drop_last()) * 10 + digit_val(s.last()));
    } else {
        let p = s.drop_last();
        assert(p =~= s.subrange(0, s.len() - 1));
        assert(p[0] == s[0]);
        assert(all_digits(p));
        lemma_literal_value_bound(p);
        assert(dec_value(s) == dec_value(p) * 10 + digit_val(s.last()));
        assert(is_digit(s.last()));
    }
}

/// Canonicity: the digits of the value of an integer literal are the
/// literal itself.
pub proof fn lemma_dec_string_canonical(s: Seq<char>)
    requires
        is_int_literal(s),
    ensures
        dec_string_of(dec_value(s)) == s,
    decreases s.len(),
{
    if s.len() == 1 {
        assert(s.drop_last() =~= Seq::<char>::empty());
        assert(dec_value(s.drop_last()) == 0);
        assert(s.last() == s[0]);
        assert(dec_value(s) == dec_value(s.drop_last()) * 10 + digit_val(s.last()));
        assert(dec_value(s) == digit_val(s[0]));
        assert(is_digit(s[0]));
        assert(digit_char_of(digit_val(s[0])) == s[0]);
        assert(dec_value(s) < 10);
        assert(dec_string_of(dec_value(s)) =~= s);
    } else {
        let p = s.drop_last();
        assert(p =~= s.subrange(0, s.len() - 1));
        assert(p[0] == s[0]);
        assert(all_digits(p));
        assert(is_int_literal(p));
        lemma_dec_string_canonical(p);
        assert(digit_val(s[0]) >= 1) by {
            assert(is_digit(s[0]));
            assert(s[0] as int != 48);
        }
        lemma_literal_value_bound(p);
        assert(dec_value(s) == dec_value(p) * 10 + digit_val(s.last()));
        assert(is_digit(s.last()));
        assert(dec_value(s) >= 10);
        assert(dec_value(s) / 10 == dec_value(p) && dec_value(s) % 10 == digit_val(s.last()))
            by {
            assert(0 <= digit_val(s.last()) <= 9);
        }
        assert(digit_char_of(digit_val(s.last())) == s.last()) by {
            lemma_digit_char(digit_val(s.last()));
        }
        assert(dec_string_of(dec_value(s)) == dec_string_of(dec_value(p)).push(s.last()));
        assert(dec_string_of(dec_value(s)) =~= s);
    }
}

/// The digit character for the value `d`, as a one-character string.
fn digit_str(d: usize) -> (r: &'static str)
    requires
        d <= 9,
    ensures
        r@ == seq![digit_char_of(d as int)],
{
    proof {
        reveal_strlit("0");
        reveal_strlit("1");
        reveal_strlit("2");
        reveal_strlit("3");
        reveal_strlit("4");
        reveal_strlit("5");
        reveal_strlit("6");
        reveal_strlit("7");
        reveal_strlit("8");
        reveal_strlit("9");
    }
    let r: &'static str = if d == 0 {
        "0"
    } else if d == 1 {
        "1"
    } else if d == 2 {
        "2"
    } else if d == 3 {
        "3"
    } else if d == 4 {
        "4"
    } else if d == 5 {
        "5"
    } else if d == 6 {
        "6"
    } else if d == 7 {
        "7"
    } else {
        if d == 8 {
            "8"
        } else {
            "9"
        }
    };
    proof {
        assert(r@ =~= seq![digit_char_of(d as int)]);
    }
    r
}

/// Renders `n` as its canonical decimal digits.
pub fn usize_to_string(n: usize) -> (r: String)
    ensures
        r@ == dec_string_of(n as int),
    decreases n,
{
    if n < 10 {
        let s = digit_str(n);
        String::from_str(s)
    } else {
        let mut s = usize_to_string(n / 10);
        s.append(digit_str(n % 10));
        proof {
            assert(s@ =~= dec_string_of((n / 10) as int).push(digit_char_of((n % 10) as int)));
        }
        s
    }
}

/// The textual form of one token, always ending in a single space.
pub open spec fn token_text(t: Token) -> Seq<char> {
    match t {
        Token::Open => seq!['(', ' '],
        Token::Close => seq![')', ' '],
        Token::Num(v) => dec_string_of(v as int).push(' '),
        Token::Text(s) => seq!['s'] + dec_string_of(s@.len() as int) + seq![':'] + s@ + seq![' '],
    }
}

/// The textual form of a token stream.
pub open spec fn tokens_text(ts: Seq<Token>) -> Seq<char>
    decreases ts.len(),
{
    if ts.len() == 0 {
        Seq::empty()
    } else {
        token_text(ts[0]) + tokens_text(ts.drop_first())
    }
}

/// Rendering distributes over appending one token at the end.
pub proof fn lemma_tokens_text_push(ts: Seq<Token>, t: Token)
    ensures
        tokens_text(ts.push(t)) == tokens_text(ts) + token_text(t),
    decreases ts.len(),
{
    let sp = ts.push(t);
    if ts.len() == 0 {
        assert(sp[0] == t);
        assert(sp.drop_first() =~= Seq::<Token>::empty());
        assert(tokens_text(sp.drop_first()) =~= Seq::<char>::empty());
        assert(tokens_text(ts) =~= Seq::<char>::empty());
        assert(tokens_text(sp) == token_text(t) + tokens_text(sp.drop_first()));
        assert(tokens_text(sp) =~= tokens_text(ts) + token_text(t));
    } else {
        assert(sp[0] == ts[0]);
        lemma_tokens_text_push(ts.drop_first(), t);
        assert(sp.drop_first() =~= ts.drop_first().push(t));
        assert(tokens_text(sp) == token_text(ts[0]) + (tokens_text(ts.drop_first()) + token_text(
            t,
        )));
        assert(tokens_text(sp) =~= tokens_text(ts) + token_text(t));
    }
}

/// Renders a token stream as text.
pub fn render_tokens(ts: &Vec<Token>) -> (r: String)
    ensures
        r@ == tokens_text(ts@),
{
    proof {
        reveal_strlit("( ");
        reveal_strlit(") ");
        reveal_strlit(" ");
        reveal_strlit("s");
        reveal_strlit(":");
    }
    let mut out = String::new();
    let n = ts.len();
    let mut i: usize = 0;
    while i < n
        invariant
            i <= n,
            n == ts@.len(),
            out@ == tokens_text(ts@.subrange(0, i as int)),
        decreases n - i,
    {
        proof {
            reveal_strlit("( ");
            reveal_strlit(") ");
            reveal_strlit(" ");
            reveal_strlit("s");
            reveal_strlit(":");
        }
        let ghost pre = out@;
        match &ts[i] {
            Token::Open => {
                out.append("( ");
                proof {
                    assert(out@ =~= pre + token_text(ts@[i as int]));
                }
            },
            Token::Close => {
                out.append(") ");
                proof {
                    assert(out@ =~= pre + token_text(ts@[i as int]));
                }
            },
            Token::Num(v) => {
                let digits = usize_to_string(*v);
                out.append(digits.as_str());
                out.append(" ");
                proof {
                    assert(out@ =~= pre + token_text(ts@[i as int]));
                }
            },
            Token::Text(s) => {
                out.append("s");
                let digits = usize_to_string(s.as_str().unicode_len());
                out.append(digits.as_str());
                out.append(":");
                out.append(s.as_str());
                out.append(" ");
                proof {
                    assert(out@ =~= pre + token_text(ts@[i as int]));
                }
            },
        }
        proof {
            lemma_tokens_text_push(ts@.subrange(0, i as int), ts@[i as int]);
            assert(ts@.subrange(0, i + 1) =~= ts@.subrange(0, i as int).push(ts@[i as int]));
        }
        i += 1;
    }
    proof {
        assert(ts@.subrange(0, n as int) =~= ts@);
    }
    out
}

/// Splits a rendering back into its tokens.
///
/// The tokenizer is sound: whatever it accepts renders back to exactly the
/// input text.
pub fn tokenize(s: &str) -> (r: Option<Vec<Token>>)
    ensures
        match r {
            Some(ts) => tokens_text(ts@) == s@,
            None => true,
        },
{
    proof {
        reveal_strlit("( ");
        reveal_strlit(") ");
        reveal_strlit(" ");
        reveal_strlit("s");
        reveal_strlit(":");
    }
    let n = s.unicode_len();
    let mut out: Vec<Token> = Vec::new();
    let mut i: usize = 0;
    while i < n
        invariant
            i <= n,
            n == s@.len(),
            tokens_text(out@) == s@.subrange(0, i as int),
        decreases n - i,
    {
        let ghost pre = out@;
        let ghost start = i as int;
        let c = s.get_char(i);
        if c == '(' {
            if i + 1 >= n || s.get_char(i + 1) != ' ' {
                return None;
            }
            out.push(Token::Open);
            i += 2;
            proof {
                assert(token_text(Token::Open) =~= s@.subrange(start, i as int));
            }
        } else if c == ')' {
            if i + 1 >= n || s.get_char(i + 1) != ' ' {
                return None;
            }
            out.push(Token::Close);
            i += 2;
            proof {
                assert(token_text(Token::Close) =~= s@.subrange(start, i as int));
            }
        } else if c == 's' {
            let (len, e) = match pos_int(s, i + 1) {
                Some(p) => p,
                None => {
                    return None;
                },
            };
            if e >= n || s.get_char(e) != ':' {
                return None;
            }
            if len > n - e - 1 {
                return None;
            }
            let content = s.substring_char(e + 1, e + 1 + len);
            if e + 1 + len >= n || s.get_char(e + 1 + len) != ' ' {
                return None;
            }
            let text = content.to_owned();
            let ghost tv = text@;
            out.push(Token::Text(text));
            i = e + 1 + len + 1;
            proof {
                let digits = s@.subrange(start + 1, e as int);
                lemma_dec_string_canonical(digits);
                assert(dec_string_of(len as int) == digits);
                assert(tv == s@.subrange(e + 1, e + 1 + len as int));
                assert(tv.len() == len);
                assert(token_text(out@[out@.len() - 1]) == seq!['s'] + digits + seq![':'] + tv
                    + seq![' ']);
                assert(token_text(out@[out@.len() - 1]) =~= s@.subrange(start, i as int));
            }
        } else {
            let (v, e) = match pos_int(s, i) {
                Some(p) => p,
                None => {
                    return None;
                },
            };
            if e >= n || s.get_char(e) != ' ' {
                return None;
            }
            out.push(Token::Num(v));
            i = e + 1;
            proof {
                lemma_dec_string_canonical(s@.subrange(start, e as int));
                assert(token_text(Token::Num(v)) =~= s@.subrange(start, i as int));
            }
        }
        proof {
            lemma_tokens_text_push(pre, out@[out@.len() - 1]);
            assert(s@.subrange(0, i as int) =~= s@.subrange(0, start) + s@.subrange(
                start,
                i as int,
            ));
            assert(tokens_text(out@) =~= s@.subrange(0, i as int));
        }
    }
    proof {
        assert(s@.subrange(0, n as int) =~= s@);
    }
    Some(out)
}

} // verus!
