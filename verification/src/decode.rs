//! Decoding of request payloads from their wire form.
//!
//! Each string-valued field travels as a JSON string escaped exactly as
//! [`esc_char`] says, and a payload object carries its fields in order with
//! no whitespace in between: the canonical wire form. The decoders accept
//! exactly the canonical renderings — anything else is a malformed request —
//! and their contracts say so in both directions, so decoding is the inverse
//! of rendering.

use vstd::prelude::*;
use vstd::string::*;

use crate::errors::ApiError;
use crate::json::{
    esc_char, lemma_escaped_append, lemma_escaped_singleton, spec_escaped,
};
use crate::registry::{CreateTweetPayload, CreateUserPayload, LoginPayload};
use crate::users::str_eq;

verus! {

/// The canonical wire form of an object with the one string field `key`
/// holding `v`.
pub open spec fn spec_string_object(key: Seq<char>, v: Seq<char>) -> Seq<char> {
    seq!['{', '"'] + key + seq!['"', ':', '"'] + spec_escaped(v) + seq!['"', '}']
}

/// Escaping a sequence of ordinary characters — none of the five escaped
/// ones — leaves it as it is.
pub proof fn lemma_escaped_ordinary(s: Seq<char>)
    requires
        forall|j: int| 0 <= j < s.len() ==> esc_char(#[trigger] s[j]) == seq![s[j]],
    ensures
        spec_escaped(s) == s,
    decreases s.len(),
{
    if s.len() > 0 {
        lemma_escaped_ordinary(s.drop_last());
        assert(esc_char(s[s.len() - 1]) == seq![s[s.len() - 1]]);
        assert(s.drop_last() + seq![s.last()] =~= s);
    } else {
        assert(spec_escaped(s) =~= s);
    }
}

/// Parses the canonical wire form of an object with the one string field
/// `key`: exactly the [`spec_string_object`] renderings are accepted, and
/// the recovered value is the one that was rendered. Anything else is
/// rejected as a malformed request.
#[verifier::loop_isolation(false)]
#[verifier::rlimit(100)]
pub fn parse_string_object(body: &str, key: &str) -> (r: Result<String, ApiError>)
    ensures
        r matches Ok(s) ==> body@ == spec_string_object(key@, s@),
        r matches Err(e) ==> e == ApiError::MalformedRequest,
        forall|v: Seq<char>| body@ == spec_string_object(key@, v) ==> r is Ok,
{
    proof {
        reveal_strlit("");
    }
    let ghost hyp = exists|v: Seq<char>| body@ == spec_string_object(key@, v);
    let ghost v0 = choose|v: Seq<char>| body@ == spec_string_object(key@, v);
    let n = body.unicode_len();
    let k = key.unicode_len();
    proof {
        if hyp {
            assert(body@ == spec_string_object(key@, v0));
            assert(n == k + 7 + spec_escaped(v0).len());
            assert forall|j: int| 0 <= j < spec_escaped(v0).len() implies body@[k + 5 + j]
                == spec_escaped(v0)[j] by {}
            assert(body@[0] == '{');
            assert(body@[1] == '"');
            assert forall|j: int| 0 <= j < k implies body@[2 + j] == key@[j] by {}
            assert(body@[2 + k] == '"');
            assert(body@[3 + k] == ':');
            assert(body@[4 + k] == '"');
            assert(body@[n - 2] == '"');
            assert(body@[n - 1] == '}');
        }
    }
    if n < 7 || n - 7 < k {
        return Err(ApiError::MalformedRequest);
    }
    if body.get_char(0) != '{' || body.get_char(1) != '"' {
        return Err(ApiError::MalformedRequest);
    }
    let key_part = body.substring_char(2, 2 + k);
    if !str_eq(key_part, key) {
        proof {
            if hyp {
                assert(key_part@ =~= key@);
            }
        }
        return Err(ApiError::MalformedRequest);
    }
    if body.get_char(2 + k) != '"' || body.get_char(3 + k) != ':' || body.get_char(4 + k) != '"' {
        return Err(ApiError::MalformedRequest);
    }
    if body.get_char(n - 2) != '"' || body.get_char(n - 1) != '}' {
        return Err(ApiError::MalformedRequest);
    }
    let start = k + 5;
    let end = n - 2;
    let mut out = String::from_str("");
    let mut seg_start: usize = start;
    let mut i: usize = start;
    while i < end
        invariant
            start <= seg_start <= i <= end,
            spec_escaped(out@) =~= body@.subrange(start as int, seg_start as int),
            forall|j: int|
                seg_start <= j < i ==> esc_char(#[trigger] body@[j]) == seq![body@[j]] && body@[j]
                    != '"' && body@[j] != '\\',
            hyp ==> {
                let cur = out@ + body@.subrange(seg_start as int, i as int);
                cur.len() <= v0.len() && cur =~= v0.take(cur.len() as int)
            },
        decreases end - i,
    {
        let c = body.get_char(i);
        proof {
            let run = body@.subrange(seg_start as int, i as int);
            lemma_escaped_ordinary(run);
            lemma_escaped_append(out@, run);
            let cur = out@ + run;
            assert(spec_escaped(cur) =~= body@.subrange(start as int, i as int));
            if hyp {
                let l = cur.len() as int;
                assert(i - start == spec_escaped(cur).len());
                if l == v0.len() {
                    assert(cur =~= v0);
                    assert(i == end);
                }
                assert(l < v0.len());
                lemma_escaped_append(v0.take(l), v0.skip(l));
                assert(v0.take(l) + v0.skip(l) =~= v0);
                lemma_escaped_append(seq![v0[l]], v0.skip(l + 1));
                lemma_escaped_singleton(v0[l]);
                assert(seq![v0[l]] + v0.skip(l + 1) =~= v0.skip(l));
                assert(spec_escaped(v0.take(l)) == spec_escaped(cur));
                assert(spec_escaped(v0) == spec_escaped(cur) + (esc_char(v0[l]) + spec_escaped(
                    v0.skip(l + 1),
                )));
                assert(body@[k + 5 + (i - start)] == spec_escaped(v0)[i - start]);
                assert(body@[i as int] == esc_char(v0[l])[0]);
                if esc_char(v0[l]).len() == 2 {
                    assert(body@[i as int + 1] == esc_char(v0[l])[1]);
                }
            }
        }
        if c == '\\' {
            if i + 1 >= end {
                proof {
                    if hyp {
                        let cur = out@ + body@.subrange(seg_start as int, i as int);
                        let l = cur.len() as int;
                        assert(esc_char(v0[l]).len() == 2);
                        assert(i - start + 2 <= spec_escaped(v0).len());
                    }
                }
                return Err(ApiError::MalformedRequest);
            }
            let x = body.get_char(i + 1);
            let ghost out0 = out@;
            let chunk = body.substring_char(seg_start, i);
            out.append(chunk);
            proof {
                let run = body@.subrange(seg_start as int, i as int);
                lemma_escaped_ordinary(run);
                lemma_escaped_append(out0, run);
                assert(out@ == out0 + run);
                assert(spec_escaped(out@) =~= body@.subrange(start as int, i as int));
            }
            let ghost cur = out@;
            if x == '"' {
                out.append("\"");
                proof {
                    reveal_strlit("\"");
                }
            } else if x == '\\' {
                out.append("\\");
                proof {
                    reveal_strlit("\\");
                }
            } else if x == 'n' {
                out.append("\n");
                proof {
                    reveal_strlit("\n");
                }
            } else if x == 'r' {
                out.append("\r");
                proof {
                    reveal_strlit("\r");
                }
            } else if x == 't' {
                out.append("\t");
                proof {
                    reveal_strlit("\t");
                }
            } else {
                proof {
                    if hyp {
                        let l = cur.len() as int;
                        assert(esc_char(v0[l]).len() == 2);
                    }
                }
                return Err(ApiError::MalformedRequest);
            }
            proof {
                let d = out@[out@.len() - 1];
                assert(out@ =~= cur + seq![d]);
                assert(esc_char(d) == seq!['\\', x]);
                lemma_escaped_append(cur, seq![d]);
                lemma_escaped_singleton(d);
                assert(body@.subrange(start as int, i as int + 2) =~= body@.subrange(
                    start as int,
                    i as int,
                ) + seq![body@[i as int], body@[i as int + 1]]);
                assert(spec_escaped(cur) =~= body@.subrange(start as int, i as int));
                assert(spec_escaped(out@) =~= body@.subrange(start as int, i as int + 2));
                if hyp {
                    let l = cur.len() as int;
                    assert(esc_char(v0[l]).len() == 2);
                    assert(esc_char(v0[l])[1] == x);
                    assert(v0[l] == d);
                    assert(v0.take(l + 1) =~= v0.take(l).push(v0[l]));
                    assert(out@ + body@.subrange(i as int + 2, i as int + 2) =~= v0.take(l + 1));
                }
            }
            i = i + 2;
            seg_start = i;
        } else if c == '"' || c == '\n' || c == '\r' || c == '\t' {
            proof {
                if hyp {
                    let cur = out@ + body@.subrange(seg_start as int, i as int);
                    let l = cur.len() as int;
                    assert(esc_char(v0[l])[0] != '"' && esc_char(v0[l])[0] != '\n' && esc_char(
                        v0[l],
                    )[0] != '\r' && esc_char(v0[l])[0] != '\t');
                }
            }
            return Err(ApiError::MalformedRequest);
        } else {
            proof {
                assert(esc_char(body@[i as int]) == seq![body@[i as int]]);
                if hyp {
                    let cur = out@ + body@.subrange(seg_start as int, i as int);
                    let l = cur.len() as int;
                    assert(esc_char(v0[l]) == seq![v0[l]]) by {
                        if esc_char(v0[l]).len() == 2 {
                            assert(esc_char(v0[l])[0] == '\\');
                        }
                    }
                    assert(v0[l] == body@[i as int]);
                    let cur2 = out@ + body@.subrange(seg_start as int, i as int + 1);
                    assert(cur2 =~= cur.push(body@[i as int]));
                    assert(v0.take(l + 1) =~= v0.take(l).push(v0[l]));
                    assert(cur2 =~= v0.take(l + 1));
                }
            }
            i = i + 1;
        }
    }
    let ghost out0 = out@;
    let tail = body.substring_char(seg_start, end);
    out.append(tail);
    proof {
        let run = body@.subrange(seg_start as int, end as int);
        lemma_escaped_ordinary(run);
        lemma_escaped_append(out0, run);
        assert(out@ == out0 + run);
        assert(spec_escaped(out@) =~= body@.subrange(start as int, end as int));
        let full = spec_string_object(key@, out@);
        assert(full.len() == n);
        assert forall|idx: int| 0 <= idx < n implies body@[idx] == full[idx] by {
            if 2 <= idx < 2 + k {
                assert(body@.subrange(2, 2 + k as int)[idx - 2] == body@[idx]);
                assert(full[idx] == key@[idx - 2]);
            } else if 5 + k <= idx < n - 2 {
                assert(body@.subrange(start as int, end as int)[idx - start] == body@[idx]);
                assert(full[idx] == spec_escaped(out@)[idx - start]);
            }
        }
        assert(body@ =~= full);
        if hyp {
            let cur = out@;
            assert(cur.len() <= v0.len() && cur =~= v0.take(cur.len() as int));
            assert(end - start == spec_escaped(cur).len());
            assert(end - start == spec_escaped(v0).len());
            if cur.len() < v0.len() {
                let l = cur.len() as int;
                lemma_escaped_append(v0.take(l), v0.skip(l));
                assert(v0.take(l) + v0.skip(l) =~= v0);
                lemma_escaped_append(seq![v0[l]], v0.skip(l + 1));
                lemma_escaped_singleton(v0[l]);
                assert(seq![v0[l]] + v0.skip(l + 1) =~= v0.skip(l));
                assert(spec_escaped(v0).len() >= spec_escaped(cur).len() + esc_char(v0[l]).len());
                assert(esc_char(v0[l]).len() >= 1);
            }
        }
    }
    Ok(out)
}

/// The canonical wire form of an object with the two string fields `key1`
/// holding `v1` and `key2` holding `v2`, in that order.
pub open spec fn spec_two_string_object(
    key1: Seq<char>,
    v1: Seq<char>,
    key2: Seq<char>,
    v2: Seq<char>,
) -> Seq<char> {
    seq!['{', '"'] + key1 + seq!['"', ':', '"'] + spec_escaped(v1) + seq!['"', ','] + seq!['"']
        + key2 + seq!['"', ':', '"'] + spec_escaped(v2) + seq!['"', '}']
}

/// A two-field object splits at the comma into the two one-field objects,
/// the first losing the comma for a brace and the second gaining one.
pub proof fn lemma_two_object_split(
    key1: Seq<char>,
    v1: Seq<char>,
    key2: Seq<char>,
    v2: Seq<char>,
)
    ensures
        ({
            let whole = spec_two_string_object(key1, v1, key2, v2);
            let first = spec_string_object(key1, v1);
            let second = spec_string_object(key2, v2);
            whole =~= first.take(first.len() - 1) + seq![','] + second.skip(1)
        }),
{
}

/// Parses the canonical wire form of an object with the two string fields
/// `key1` and `key2`, in that order: exactly the
/// [`spec_two_string_object`] renderings are accepted, and the recovered
/// values are the ones that were rendered. Anything else is rejected as a
/// malformed request.
#[verifier::loop_isolation(false)]
#[verifier::rlimit(100)]
pub fn parse_two_string_object(body: &str, key1: &str, key2: &str) -> (r: Result<
    (String, String),
    ApiError,
>)
    ensures
        r matches Ok(p) ==> body@ == spec_two_string_object(key1@, p.0@, key2@, p.1@),
        r matches Err(e) ==> e == ApiError::MalformedRequest,
        forall|v1: Seq<char>, v2: Seq<char>|
            body@ == spec_two_string_object(key1@, v1, key2@, v2) ==> r is Ok,
{
    let ghost hyp = exists|v1: Seq<char>, v2: Seq<char>|
        body@ == spec_two_string_object(key1@, v1, key2@, v2);
    let ghost (w1, w2) = choose|v1: Seq<char>, v2: Seq<char>|
        body@ == spec_two_string_object(key1@, v1, key2@, v2);
    let n = body.unicode_len();
    let k1 = key1.unicode_len();
    proof {
        if hyp {
            assert(body@ == spec_two_string_object(key1@, w1, key2@, w2));
            assert(n == k1 + key2@.len() + 13 + spec_escaped(w1).len() + spec_escaped(w2).len());
            assert forall|j: int| 0 <= j < spec_escaped(w1).len() implies body@[k1 + 5 + j]
                == spec_escaped(w1)[j] by {}
            assert(body@[k1 + 5 + spec_escaped(w1).len()] == '"');
            assert(body@[k1 + 6 + spec_escaped(w1).len()] == ',');
        }
    }
    let k2 = key2.unicode_len();
    if n < 13 || n - 13 < k1 || n - 13 - k1 < k2 {
        return Err(ApiError::MalformedRequest);
    }
    let start1 = k1 + 5;
    let end = n - 2;
    let mut found = false;
    let mut i: usize = start1;
    let ghost mut l: int = 0;
    while !found && i < end
        invariant
            start1 <= i,
            found ==> i < end && body@[i as int] == '"',
            hyp ==> 0 <= l <= w1.len() && (!found ==> i == start1 + spec_escaped(
                w1.take(l),
            ).len()),
            hyp && found ==> i == start1 + spec_escaped(w1).len(),
        decreases end + 2 - i, (if found { 0int } else { 1int }),
    {
        let c = body.get_char(i);
        proof {
            if hyp {
                if l < w1.len() {
                    lemma_escaped_append(w1.take(l), w1.skip(l));
                    assert(w1.take(l) + w1.skip(l) =~= w1);
                    lemma_escaped_append(seq![w1[l]], w1.skip(l + 1));
                    lemma_escaped_singleton(w1[l]);
                    assert(seq![w1[l]] + w1.skip(l + 1) =~= w1.skip(l));
                    assert(spec_escaped(w1) == spec_escaped(w1.take(l)) + (esc_char(w1[l])
                        + spec_escaped(w1.skip(l + 1))));
                    assert(body@[k1 + 5 + (i - start1)] == spec_escaped(w1)[i - start1]);
                    assert(body@[i as int] == esc_char(w1[l])[0]);
                    if esc_char(w1[l]).len() == 2 {
                        assert(body@[k1 + 5 + (i - start1 + 1)] == spec_escaped(w1)[i - start1
                            + 1]);
                        assert(body@[i as int + 1] == esc_char(w1[l])[1]);
                    }
                } else {
                    assert(w1.take(l) =~= w1);
                    assert(body@[i as int] == '"');
                }
            }
        }
        if c == '"' {
            found = true;
            proof {
                if hyp {
                    if l < w1.len() {
                        assert(esc_char(w1[l])[0] != '"');
                    }
                    assert(w1.take(l) =~= w1);
                }
            }
        } else if c == '\\' {
            proof {
                if hyp {
                    assert(l < w1.len());
                    assert(esc_char(w1[l]).len() == 2);
                    assert(w1.take(l + 1) =~= w1.take(l).push(w1[l]));
                    lemma_escaped_append(w1.take(l), seq![w1[l]]);
                    lemma_escaped_singleton(w1[l]);
                    assert(w1.take(l) + seq![w1[l]] =~= w1.take(l + 1));
                    l = l + 1;
                }
            }
            i = i + 2;
        } else {
            proof {
                if hyp {
                    assert(l < w1.len());
                    assert(esc_char(w1[l]) == seq![w1[l]]) by {
                        if esc_char(w1[l]).len() == 2 {
                            assert(esc_char(w1[l])[0] == '\\');
                        }
                    }
                    assert(w1.take(l + 1) =~= w1.take(l).push(w1[l]));
                    lemma_escaped_append(w1.take(l), seq![w1[l]]);
                    lemma_escaped_singleton(w1[l]);
                    assert(w1.take(l) + seq![w1[l]] =~= w1.take(l + 1));
                    l = l + 1;
                }
            }
            i = i + 1;
        }
    }
    if !found {
        proof {
            if hyp {
                lemma_escaped_append(w1.take(l), w1.skip(l));
                assert(w1.take(l) + w1.skip(l) =~= w1);
                assert(spec_escaped(w1.take(l)).len() <= spec_escaped(w1).len());
                assert(i < end);
            }
        }
        return Err(ApiError::MalformedRequest);
    }
    let q1 = i;
    if body.get_char(q1 + 1) != ',' {
        return Err(ApiError::MalformedRequest);
    }
    let mut first = String::from_str(body.substring_char(0, q1 + 1));
    first.append("}");
    let mut second = String::from_str("{");
    second.append(body.substring_char(q1 + 2, n));
    proof {
        reveal_strlit("}");
        reveal_strlit("{");
        if hyp {
            let obj1 = spec_string_object(key1@, w1);
            let obj2 = spec_string_object(key2@, w2);
            lemma_two_object_split(key1@, w1, key2@, w2);
            assert(q1 + 1 == obj1.len() - 1);
            assert forall|idx: int| 0 <= idx < q1 + 1 implies body@[idx] == obj1[idx] by {
                assert(body@[idx] == (obj1.take(obj1.len() - 1) + seq![','] + obj2.skip(1))[idx]);
            }
            assert(first@ =~= obj1);
            assert forall|idx: int| 0 <= idx < n - q1 - 2 implies #[trigger] body@[q1 + 2 + idx]
                == obj2[1 + idx] by {
                assert(body@[q1 + 2 + idx] == (obj1.take(obj1.len() - 1) + seq![','] + obj2.skip(
                    1,
                ))[q1 + 2 + idx]);
            }
            assert(second@ =~= obj2);
        }
    }
    let a = match parse_string_object(first.as_str(), key1) {
        Ok(a) => a,
        Err(_) => {
            return Err(ApiError::MalformedRequest);
        },
    };
    let b = match parse_string_object(second.as_str(), key2) {
        Ok(b) => b,
        Err(_) => {
            return Err(ApiError::MalformedRequest);
        },
    };
    proof {
        let obj1 = spec_string_object(key1@, a@);
        let obj2 = spec_string_object(key2@, b@);
        lemma_two_object_split(key1@, a@, key2@, b@);
        assert(first@ == obj1);
        assert(second@ == obj2);
        assert(body@.subrange(0, q1 + 1) =~= obj1.take(obj1.len() - 1));
        assert(body@.subrange(q1 + 2, n as int) =~= obj2.skip(1));
        assert(body@ =~= body@.subrange(0, q1 + 1) + seq![body@[q1 as int + 1]] + body@.subrange(
            q1 + 2,
            n as int,
        ));
        assert(body@ =~= spec_two_string_object(key1@, a@, key2@, b@));
    }
    Ok((a, b))
}

/// Decodes the wire form of the sign-up payload
/// `{"username":"…","password":"…"}`. Exactly the canonical renderings are
/// accepted; anything else is a malformed request.
pub fn parse_create_user_payload(body: &str) -> (r: Result<CreateUserPayload, ApiError>)
    ensures
        r matches Ok(p) ==> body@ == spec_two_string_object(
            "username"@,
            p.username@,
            "password"@,
            p.password@,
        ),
        r matches Err(e) ==> e == ApiError::MalformedRequest,
        forall|v1: Seq<char>, v2: Seq<char>|
            body@ == spec_two_string_object("username"@, v1, "password"@, v2) ==> r is Ok,
{
    match parse_two_string_object(body, "username", "password") {
        Ok((username, password)) => Ok(CreateUserPayload { username, password }),
        Err(e) => Err(e),
    }
}

/// Decodes the wire form of the tweet submission payload `{"text":"…"}`.
/// Exactly the canonical renderings are accepted; anything else is a
/// malformed request.
pub fn parse_create_tweet_payload(body: &str) -> (r: Result<CreateTweetPayload, ApiError>)
    ensures
        r matches Ok(p) ==> body@ == spec_string_object("text"@, p.text@),
        r matches Err(e) ==> e == ApiError::MalformedRequest,
        forall|v: Seq<char>| body@ == spec_string_object("text"@, v) ==> r is Ok,
{
    match parse_string_object(body, "text") {
        Ok(text) => Ok(CreateTweetPayload { text }),
        Err(e) => Err(e),
    }
}

/// Decodes the wire form of the login payload `{"password":"…"}`. Exactly
/// the canonical renderings are accepted; anything else is a malformed
/// request.
pub fn parse_login_payload(body: &str) -> (r: Result<LoginPayload, ApiError>)
    ensures
        r matches Ok(p) ==> body@ == spec_string_object("password"@, p.password@),
        r matches Err(e) ==> e == ApiError::MalformedRequest,
        forall|v: Seq<char>| body@ == spec_string_object("password"@, v) ==> r is Ok,
{
    match parse_string_object(body, "password") {
        Ok(password) => Ok(LoginPayload { password }),
        Err(e) => Err(e),
    }
}

} // verus!
