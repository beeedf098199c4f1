use vstd::prelude::*;

verus! {

/// An HTTP method, as far as the route table distinguishes them. Anything
/// beyond the four verbs in the table is `Other`.
#[derive(Clone, Copy, PartialEq, Eq, Structural, Debug)]
pub enum Method {
    Get,
    Post,
    Put,
    Delete,
    Other,
}

/// The route a request resolves to, with the decoded id where the path
/// carries one.
#[derive(Clone, Copy, PartialEq, Eq, Structural, Debug)]
pub enum Route {
    ListUsers,
    CreateUser,
    GetUser(i64),
    UpdateUser(i64),
    DeleteUser(i64),
    MetricsSnapshot,
}

/// Why a request resolves to no route: an id segment that is not a 64-bit
/// signed integer, a path outside the table, or a method the path does not
/// serve.
#[derive(Clone, Copy, PartialEq, Eq, Structural, Debug)]
pub enum RouteError {
    BadId,
    NotFound,
    MethodNotAllowed,
}

/// An ASCII decimal digit.
pub open spec fn spec_is_digit(c: char) -> bool {
    48 <= c as u32 <= 57
}

/// The value of an ASCII decimal digit.
pub open spec fn spec_digit_val(c: char) -> nat {
    (c as u32 - 48) as nat
}

/// Whether every character of `s` is a decimal digit.
pub open spec fn spec_all_digits(s: Seq<char>) -> bool {
    forall|k: int| 0 <= k < s.len() ==> spec_is_digit(s[k])
}

/// The value of a digit string, most significant digit first.
pub open spec fn spec_digits_value(s: Seq<char>) -> nat
    decreases s.len(),
{
    if s.len() == 0 {
        0
    } else {
        spec_digits_value(s.drop_last()) * 10 + spec_digit_val(s.last())
    }
}

/// A 64-bit signed integer read from decimal text, as `i64` parses it: an
/// optional sign, then one or more digits, nothing else, and a value within
/// the type's range.
pub open spec fn spec_parse_i64(s: Seq<char>) -> Option<int> {
    if s.len() == 0 {
        None
    } else {
        let neg = s[0] == '-';
        let has_sign = neg || s[0] == '+';
        let ds = if has_sign {
            s.skip(1)
        } else {
            s
        };
        if ds.len() >= 1 && spec_all_digits(ds) {
            let v = if neg {
                -(spec_digits_value(ds) as int)
            } else {
                spec_digits_value(ds) as int
            };
            if i64::MIN <= v <= i64::MAX {
                Some(v)
            } else {
                None
            }
        } else {
            None
        }
    }
}

/// The id segment of a `/users/{id}` path: what follows the prefix, if the
/// path has that prefix and the rest is a single segment.
pub open spec fn spec_user_id_segment(p: Seq<char>) -> Option<Seq<char>> {
    if p.len() > 7 && p.subrange(0, 7) == "/users/"@ && !p.skip(7).contains('/') {
        Some(p.skip(7))
    } else {
        None
    }
}

/// The route table: method and path to handler. A known path with a verb it
/// does not serve is refused as such; an id segment that is not an integer
/// is a client error; everything else is unknown.
pub open spec fn spec_route(m: Method, p: Seq<char>) -> Result<Route, RouteError> {
    if p == "/users"@ {
        if m == Method::Get {
            Ok(Route::ListUsers)
        } else if m == Method::Post {
            Ok(Route::CreateUser)
        } else {
            Err(RouteError::MethodNotAllowed)
        }
    } else if p == "/metrics"@ {
        if m == Method::Get {
            Ok(Route::MetricsSnapshot)
        } else {
            Err(RouteError::MethodNotAllowed)
        }
    } else {
        match spec_user_id_segment(p) {
            Some(seg) => {
                if m == Method::Get || m == Method::Put || m == Method::Delete {
                    match spec_parse_i64(seg) {
                        Some(id) => if m == Method::Get {
                            Ok(Route::GetUser(id as i64))
                        } else if m == Method::Put {
                            Ok(Route::UpdateUser(id as i64))
                        } else {
                            Ok(Route::DeleteUser(id as i64))
                        },
                        None => Err(RouteError::BadId),
                    }
                } else {
                    Err(RouteError::MethodNotAllowed)
                }
            },
            None => Err(RouteError::NotFound),
        }
    }
}

/// Whether two texts are equal.
fn str_eq(a: &str, b: &str) -> (r: bool)
    ensures
        r == (a@ == b@),
{
    let sa = a.to_owned();
    let sb = b.to_owned();
    sa == sb
}

/// Parses decimal text as an `i64`, exactly as `spec_parse_i64` reads it:
/// `None` exactly on malformed or out-of-range text.
pub fn parse_i64(s: &str) -> (r: Option<i64>)
    ensures
        r is Some <==> spec_parse_i64(s@) is Some,
        r matches Some(v) ==> spec_parse_i64(s@) == Some(v as int),
{
    let n = s.unicode_len();
    if n == 0 {
        return None;
    }
    let first = s.get_char(0);
    let neg = first == '-';
    let has_sign = neg || first == '+';
    let start: usize = if has_sign {
        1
    } else {
        0
    };
    if start >= n {
        return None;
    }
    let limit: u64 = if neg {
        9223372036854775808
    } else {
        9223372036854775807
    };
    let ghost ds: Seq<char> = if has_sign {
        s@.skip(1)
    } else {
        s@
    };
    proof {
        assert(s@.skip(0) =~= s@);
    }
    let mut acc: u64 = 0;
    let mut overflowed = false;
    let mut i: usize = start;
    proof {
        assert(ds.take(0) =~= Seq::<char>::empty());
    }
    while i < n
        invariant
            start <= i <= n,
            n == s@.len(),
            start == 1 <==> has_sign,
            start <= 1,
            n > start,
            neg == (s@[0] == '-'),
            has_sign == (s@[0] == '-' || s@[0] == '+'),
            ds == if has_sign {
                s@.skip(1)
            } else {
                s@
            },
            ds.len() == n - start,
            limit == if neg {
                9223372036854775808u64
            } else {
                9223372036854775807u64
            },
            forall|k: int| 0 <= k < i - start ==> spec_is_digit(ds[k]),
            !overflowed ==> acc <= limit && acc == spec_digits_value(ds.take(i - start)),
            overflowed ==> spec_digits_value(ds.take(i - start)) > limit,
        decreases n - i,
    {
        let c = s.get_char(i);
        let cu = c as u32;
        if cu < 48 || cu > 57 {
            proof {
                assert(ds[i - start] == s@[i as int]);
                assert(!spec_is_digit(ds[i - start]));
                assert(!spec_all_digits(ds));
            }
            return None;
        }
        let d = (cu - 48) as u64;
        let ghost prev = ds.take(i - start);
        let ghost cur = ds.take(i + 1 - start);
        proof {
            assert(cur.drop_last() =~= prev);
            assert(cur.last() == ds[i - start]);
            assert(ds[i - start] == s@[i as int]);
            assert(spec_digits_value(cur) == spec_digits_value(prev) * 10 + spec_digit_val(
                s@[i as int],
            ));
            assert(spec_digit_val(s@[i as int]) == d);
        }
        if overflowed {
            proof {
                assert(spec_digits_value(prev) * 10 >= spec_digits_value(prev)) by (nonlinear_arith);
                assert(spec_digits_value(cur) > limit);
            }
        } else {
            if acc > (limit - d) / 10 {
                overflowed = true;
                proof {
                    let q = ((limit - d) / 10) as int;
                    assert(q * 10 + ((limit - d) as int) % 10 == limit - d);
                    assert(acc * 10 >= (q + 1) * 10) by (nonlinear_arith)
                        requires
                            acc as int >= q + 1,
                    ;
                    assert((q + 1) * 10 == q * 10 + 10);
                    assert(acc * 10 + d > limit);
                    assert(spec_digits_value(cur) > limit);
                }
            } else {
                proof {
                    let q = ((limit - d) / 10) as int;
                    assert(q * 10 + ((limit - d) as int) % 10 == limit - d);
                    assert(acc * 10 <= q * 10) by (nonlinear_arith)
                        requires
                            acc as int <= q,
                    ;
                    assert(acc * 10 + d <= limit);
                }
                acc = acc * 10 + d;
            }
        }
        i += 1;
    }
    proof {
        assert(ds.take(n - start) =~= ds);
        assert(spec_all_digits(ds));
    }
    if overflowed {
        proof {
            if neg {
                assert(spec_digits_value(ds) > 9223372036854775808);
                assert(-(spec_digits_value(ds) as int) < i64::MIN);
            } else {
                assert(spec_digits_value(ds) > 9223372036854775807);
            }
        }
        return None;
    }
    if neg {
        if acc == 9223372036854775808 {
            Some(i64::MIN)
        } else {
            Some(-(acc as i64))
        }
    } else {
        Some(acc as i64)
    }
}

/// Resolves a request line against the route table, exactly as
/// `spec_route` does.
pub fn route(method: Method, path: &str) -> (r: Result<Route, RouteError>)
    ensures
        r == spec_route(method, path@),
{
    let n = path.unicode_len();
    if str_eq(path, "/users") {
        return match method {
            Method::Get => Ok(Route::ListUsers),
            Method::Post => Ok(Route::CreateUser),
            _ => Err(RouteError::MethodNotAllowed),
        };
    }
    if str_eq(path, "/metrics") {
        return match method {
            Method::Get => Ok(Route::MetricsSnapshot),
            _ => Err(RouteError::MethodNotAllowed),
        };
    }
    proof {
        reveal_strlit("/users/");
    }
    if n <= 7 {
        return Err(RouteError::NotFound);
    }
    let prefix = path.substring_char(0, 7);
    if !str_eq(prefix, "/users/") {
        return Err(RouteError::NotFound);
    }
    let seg = path.substring_char(7, n);
    proof {
        assert(seg@ =~= path@.skip(7));
    }
    let seg_len = n - 7;
    let mut k: usize = 0;
    while k < seg_len
        invariant
            k <= seg_len,
            seg_len == seg@.len(),
            n == path@.len(),
            n > 7,
            path@ != "/users"@,
            path@ != "/metrics"@,
            path@.subrange(0, 7) == "/users/"@,
            seg@ == path@.skip(7),
            forall|j: int| 0 <= j < k ==> seg@[j] != '/',
        decreases seg_len - k,
    {
        if seg.get_char(k) == '/' {
            proof {
                assert(seg@.contains('/'));
            }
            return Err(RouteError::NotFound);
        }
        k += 1;
    }
    proof {
        assert(!seg@.contains('/'));
    }
    match method {
        Method::Post => Err(RouteError::MethodNotAllowed),
        Method::Other => Err(RouteError::MethodNotAllowed),
        Method::Get => match parse_i64(seg) {
            Some(id) => Ok(Route::GetUser(id)),
            None => Err(RouteError::BadId),
        },
        Method::Put => match parse_i64(seg) {
            Some(id) => Ok(Route::UpdateUser(id)),
            None => Err(RouteError::BadId),
        },
        Method::Delete => match parse_i64(seg) {
            Some(id) => Ok(Route::DeleteUser(id)),
            None => Err(RouteError::BadId),
        },
    }
}

} // verus!
