//! Rendering of response bodies: decimal numbers, escaped JSON strings, and
//! the success and error envelopes every endpoint answers with.
//!
//! Each renderer's contract pins the produced characters exactly, so a
//! response body is a mathematical function of the value it carries.

use vstd::prelude::*;
use vstd::string::*;

verus! {

/// The decimal digit character for `d`.
pub open spec fn digit_char(d: int) -> char
    recommends
        0 <= d < 10,
{
    if d == 0 {
        '0'
    } else if d == 1 {
        '1'
    } else if d == 2 {
        '2'
    } else if d == 3 {
        '3'
    } else if d == 4 {
        '4'
    } else if d == 5 {
        '5'
    } else if d == 6 {
        '6'
    } else if d == 7 {
        '7'
    } else if d == 8 {
        '8'
    } else {
        '9'
    }
}

/// The decimal rendering of `n`, most significant digit first, no sign and
/// no leading zeros (a single zero for 0).
pub open spec fn spec_dec(n: nat) -> Seq<char>
    decreases n,
{
    if n < 10 {
        seq![digit_char(n as int)]
    } else {
        spec_dec(n / 10) + seq![digit_char((n % 10) as int)]
    }
}

/// The one-character string for the digit `d`.
pub fn digit_string(d: u64) -> (r: String)
    requires
        d < 10,
    ensures
        r@ =~= seq![digit_char(d as int)],
{
    if d == 0 {
        proof {
            reveal_strlit("0");
        }
        String::from_str("0")
    } else if d == 1 {
        proof {
            reveal_strlit("1");
        }
        String::from_str("1")
    } else if d == 2 {
        proof {
            reveal_strlit("2");
        }
        String::from_str("2")
    } else if d == 3 {
        proof {
            reveal_strlit("3");
        }
        String::from_str("3")
    } else if d == 4 {
        proof {
            reveal_strlit("4");
        }
        String::from_str("4")
    } else if d == 5 {
        proof {
            reveal_strlit("5");
        }
        String::from_str("5")
    } else if d == 6 {
        proof {
            reveal_strlit("6");
        }
        String::from_str("6")
    } else if d == 7 {
        proof {
            reveal_strlit("7");
        }
        String::from_str("7")
    } else if d == 8 {
        proof {
            reveal_strlit("8");
        }
        String::from_str("8")
    } else {
        proof {
            reveal_strlit("9");
        }
        String::from_str("9")
    }
}

/// The decimal rendering of `n`.
pub fn u64_to_string(n: u64) -> (r: String)
    ensures
        r@ =~= spec_dec(n as nat),
    decreases n,
{
    if n < 10 {
        digit_string(n)
    } else {
        let mut s = u64_to_string(n / 10);
        let d = digit_string(n % 10);
        s.append(d.as_str());
        proof {
            assert(s@ =~= spec_dec((n / 10) as nat) + seq![digit_char((n % 10) as int)]);
        }
        s
    }
}

/// How one character is written inside a JSON string: quote, backslash,
/// newline, carriage return and tab get a backslash escape; every other
/// character stands for itself.
pub open spec fn esc_char(c: char) -> Seq<char> {
    if c == '"' {
        seq!['\\', '"']
    } else if c == '\\' {
        seq!['\\', '\\']
    } else if c == '\n' {
        seq!['\\', 'n']
    } else if c == '\r' {
        seq!['\\', 'r']
    } else if c == '\t' {
        seq!['\\', 't']
    } else {
        seq![c]
    }
}

/// The escaped body of a JSON string: each character rendered by
/// [`esc_char`], in order.
pub open spec fn spec_escaped(s: Seq<char>) -> Seq<char>
    decreases s.len(),
{
    if s.len() == 0 {
        Seq::empty()
    } else {
        spec_escaped(s.drop_last()) + esc_char(s.last())
    }
}

/// A JSON string literal: the escaped characters between two quotes.
pub open spec fn spec_json_string(s: Seq<char>) -> Seq<char> {
    seq!['"'] + spec_escaped(s) + seq!['"']
}

/// Escaping renders a concatenation piece by piece.
pub proof fn lemma_escaped_append(a: Seq<char>, b: Seq<char>)
    ensures
        spec_escaped(a + b) == spec_escaped(a) + spec_escaped(b),
    decreases b.len(),
{
    if b.len() == 0 {
        assert(a + b =~= a);
        assert(spec_escaped(a) + spec_escaped(b) =~= spec_escaped(a));
    } else {
        lemma_escaped_append(a, b.drop_last());
        assert((a + b).drop_last() =~= a + b.drop_last());
        assert((a + b).len() > 0);
        assert((a + b).last() == b.last());
        assert(spec_escaped(a + b) == spec_escaped(a + b.drop_last()) + esc_char(b.last()));
        assert(spec_escaped(a) + spec_escaped(b.drop_last()) + esc_char(b.last()) =~= spec_escaped(
            a,
        ) + (spec_escaped(b.drop_last()) + esc_char(b.last())));
    }
}

/// The escape of one character: a singleton sequence escapes to itself
/// unless the character is one of the five escaped ones.
pub proof fn lemma_escaped_singleton(c: char)
    ensures
        spec_escaped(seq![c]) == esc_char(c),
{
    assert(seq![c].drop_last() =~= Seq::<char>::empty());
    assert(spec_escaped(seq![c]) == spec_escaped(Seq::<char>::empty()) + esc_char(c));
    assert(Seq::<char>::empty() + esc_char(c) =~= esc_char(c));
}

/// Renders `s` as a JSON string literal, escaping as [`esc_char`] says.
#[verifier::loop_isolation(false)]
pub fn json_string(s: &str) -> (r: String)
    ensures
        r@ =~= spec_json_string(s@),
{
    proof {
        reveal_strlit("\"");
    }
    let n = s.unicode_len();
    let mut out = String::from_str("\"");
    let mut start: usize = 0;
    let mut i: usize = 0;
    while i < n
        invariant
            0 <= start <= i <= n,
            n == s@.len(),
            out@ + s@.subrange(start as int, i as int) =~= seq!['"'] + spec_escaped(
                s@.take(i as int),
            ),
        decreases n - i,
    {
        let c = s.get_char(i);
        proof {
            assert(s@.take(i as int + 1).drop_last() =~= s@.take(i as int));
            assert(s@.take(i as int + 1).last() == s@[i as int]);
        }
        if c == '"' || c == '\\' || c == '\n' || c == '\r' || c == '\t' {
            let chunk = s.substring_char(start, i);
            out.append(chunk);
            if c == '"' {
                out.append("\\\"");
                proof {
                    reveal_strlit("\\\"");
                    assert(("\\\"")@ =~= esc_char(s@[i as int]));
                }
            } else if c == '\\' {
                out.append("\\\\");
                proof {
                    reveal_strlit("\\\\");
                    assert(("\\\\")@ =~= esc_char(s@[i as int]));
                }
            } else if c == '\n' {
                out.append("\\n");
                proof {
                    reveal_strlit("\\n");
                    assert(("\\n")@ =~= esc_char(s@[i as int]));
                }
            } else if c == '\r' {
                out.append("\\r");
                proof {
                    reveal_strlit("\\r");
                    assert(("\\r")@ =~= esc_char(s@[i as int]));
                }
            } else {
                out.append("\\t");
                proof {
                    reveal_strlit("\\t");
                    assert(("\\t")@ =~= esc_char(s@[i as int]));
                }
            }
            start = i + 1;
            proof {
                assert(s@.subrange(start as int, i as int + 1).len() == 0);
                assert(spec_escaped(s@.take(i as int + 1)) == spec_escaped(s@.take(i as int))
                    + esc_char(s@[i as int]));
                assert(out@ =~= (seq!['"'] + spec_escaped(s@.take(i as int))) + esc_char(
                    s@[i as int],
                ));
                assert(out@ =~= seq!['"'] + spec_escaped(s@.take(i as int + 1)));
                assert(out@ + s@.subrange(start as int, i as int + 1) =~= out@);
            }
        } else {
            proof {
                assert(s@.subrange(start as int, i as int + 1) =~= s@.subrange(
                    start as int,
                    i as int,
                ) + seq![s@[i as int]]);
                assert(esc_char(s@[i as int]) =~= seq![s@[i as int]]);
                assert(spec_escaped(s@.take(i as int + 1)) == spec_escaped(s@.take(i as int))
                    + esc_char(s@[i as int]));
                vstd::seq_lib::lemma_concat_associative(
                    out@,
                    s@.subrange(start as int, i as int),
                    seq![s@[i as int]],
                );
                vstd::seq_lib::lemma_concat_associative(
                    seq!['"'],
                    spec_escaped(s@.take(i as int)),
                    esc_char(s@[i as int]),
                );
                assert(out@ + s@.subrange(start as int, i as int + 1) =~= seq!['"']
                    + spec_escaped(s@.take(i as int + 1)));
            }
        }
        i = i + 1;
    }
    let tail_chunk = s.substring_char(start, n);
    out.append(tail_chunk);
    out.append("\"");
    proof {
        assert(s@.take(n as int) =~= s@);
        assert(out@ =~= seq!['"'] + spec_escaped(s@) + seq!['"']);
    }
    out
}

/// The success envelope around a rendered payload.
pub open spec fn spec_data_envelope(inner: Seq<char>) -> Seq<char> {
    "{\"data\":"@ + inner + "}"@
}

/// Wraps an already-rendered payload in the success envelope.
pub fn data_envelope(inner: &str) -> (r: String)
    ensures
        r@ =~= spec_data_envelope(inner@),
{
    let mut out = String::from_str("{\"data\":");
    out.append(inner);
    out.append("}");
    out
}

/// The error envelope around a message.
pub open spec fn spec_error_envelope(message: Seq<char>) -> Seq<char> {
    "{\"error\":{\"message\":"@ + spec_json_string(message) + "}}"@
}

/// Wraps an error message in the error envelope, escaping the message.
pub fn error_envelope(message: &str) -> (r: String)
    ensures
        r@ =~= spec_error_envelope(message@),
{
    let mut out = String::from_str("{\"error\":{\"message\":");
    let quoted = json_string(message);
    out.append(quoted.as_str());
    out.append("}}");
    out
}

} // verus!
