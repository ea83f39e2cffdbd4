use vstd::prelude::*;

verus! {

/// An IPv4 address, one byte per dotted part.
#[derive(Debug, Clone, Copy, PartialEq, Eq, Structural)]
pub struct Ipv4 {
    pub a: u8,
    pub b: u8,
    pub c: u8,
    pub d: u8,
}

/// The decimal digit character of a value below ten.
pub open spec fn digit_char(v: nat) -> char {
    ('0' as nat + v) as char
}

/// True for `0-9`.
pub open spec fn is_decimal_digit(c: char) -> bool {
    '0' <= c && c <= '9'
}

/// A byte written in decimal, without leading zeros.
pub open spec fn decimal(v: u8) -> Seq<char> {
    let n = v as nat;
    if n < 10 {
        seq![digit_char(n)]
    } else if n < 100 {
        seq![digit_char(n / 10), digit_char(n % 10)]
    } else {
        seq![digit_char(n / 100), digit_char(n / 10 % 10), digit_char(n % 10)]
    }
}

/// The dotted-quad text of an address, such as `192.168.0.1`.
pub open spec fn ipv4_text(ip: Ipv4) -> Seq<char> {
    decimal(ip.a) + seq!['.'] + decimal(ip.b) + seq!['.'] + decimal(ip.c) + seq!['.']
        + decimal(ip.d)
}

/// The decimal text of `v` stands in `s` at `start`, and is followed by a dot
/// or by the end of `s`.
pub open spec fn part_at(s: Seq<char>, start: int, v: u8) -> bool {
    let e = start + decimal(v).len();
    0 <= start && e <= s.len() && s.subrange(start, e) == decimal(v) && (e == s.len() || s[e]
        == '.')
}

fn digit_text(v: u8) -> (r: &'static str)
    requires
        v < 10,
    ensures
        r@ == seq![digit_char(v as nat)],
{
    let digits = "0123456789";
    proof {
        reveal_strlit("0123456789");
    }
    let r = digits.substring_char(v as usize, v as usize + 1);
    assert(r@ =~= seq![digit_char(v as nat)]);
    r
}

/// Appends the decimal text of `v` to `out`.
fn append_decimal(out: &mut String, v: u8)
    ensures
        final(out)@ == old(out)@ + decimal(v),
{
    if v >= 100 {
        out.append(digit_text(v / 100));
    }
    if v >= 10 {
        out.append(digit_text(v / 10 % 10));
    }
    out.append(digit_text(v % 10));
    assert(final(out)@ =~= old(out)@ + decimal(v));
}

fn chars_of(s: &str) -> (r: Vec<char>)
    ensures
        r@ == s@,
{
    let n = s.unicode_len();
    let mut out: Vec<char> = Vec::new();
    let mut i: usize = 0;
    while i < n
        invariant
            n == s@.len(),
            i <= n,
            out@ == s@.subrange(0, i as int),
        decreases n - i,
    {
        out.push(s.get_char(i));
        i = i + 1;
        assert(out@ =~= s@.subrange(0, i as int));
    }
    assert(out@ =~= s@);
    out
}

proof fn lemma_decimal_shape(v: u8)
    ensures
        1 <= decimal(v).len() <= 3,
        forall|i: int| 0 <= i < decimal(v).len() ==> is_decimal_digit(#[trigger] decimal(v)[i]),
        decimal(v).len() > 1 ==> decimal(v)[0] != '0',
        digits_value(decimal(v)) == v as nat,
{
}

/// The value of a run of one to three decimal digits.
pub open spec fn digits_value(x: Seq<char>) -> nat {
    let d0 = (x[0] as nat - '0' as nat) as nat;
    if x.len() == 1 {
        d0
    } else if x.len() == 2 {
        10 * d0 + (x[1] as nat - '0' as nat) as nat
    } else {
        100 * d0 + 10 * (x[1] as nat - '0' as nat) as nat + (x[2] as nat - '0' as nat) as nat
    }
}

proof fn lemma_digits_decimal(x: Seq<char>)
    requires
        1 <= x.len() <= 3,
        forall|i: int| 0 <= i < x.len() ==> is_decimal_digit(#[trigger] x[i]),
        x.len() > 1 ==> x[0] != '0',
        digits_value(x) <= 255,
    ensures
        decimal(digits_value(x) as u8) =~= x,
{
    assert(is_decimal_digit(x[0]));
    if x.len() >= 2 {
        assert(is_decimal_digit(x[1]));
    }
    if x.len() >= 3 {
        assert(is_decimal_digit(x[2]));
    }
}

/// Where a decimal part sits at `start`, the run of digits there is exactly its text.
proof fn lemma_part_digits(s: Seq<char>, start: int, j: int, v: u8)
    requires
        part_at(s, start, v),
        start <= j <= s.len(),
        j - start <= 4,
        forall|i: int| start <= i < j ==> is_decimal_digit(#[trigger] s[i]),
        j == s.len() || j - start == 4 || !is_decimal_digit(s[j]),
    ensures
        j == start + decimal(v).len(),
        s.subrange(start, j) == decimal(v),
{
    lemma_decimal_shape(v);
    let e = start + decimal(v).len();
    assert forall|i: int| start <= i < e implies is_decimal_digit(s[i]) by {
        assert(s[i] == s.subrange(start, e)[i - start]);
    }
    if j < e {
        assert(is_decimal_digit(s[j]));
    } else if e < j {
        assert(is_decimal_digit(s[e]));
    }
}

/// Reads one decimal part of a dotted quad at `start`.
fn parse_part(c: &Vec<char>, start: usize) -> (r: Option<(u8, usize)>)
    requires
        start <= c@.len(),
    ensures
        r matches Some((v, e)) ==> e == start + decimal(v).len() && part_at(c@, start as int, v),
        forall|v: u8| #[trigger]
            part_at(c@, start as int, v) ==> r == Some((v, (start + decimal(v).len()) as usize)),
{
    let n = c.len();
    let mut j: usize = start;
    while j < n && j - start < 4 && '0' <= c[j] && c[j] <= '9'
        invariant
            start <= j <= n,
            n == c@.len(),
            j - start <= 4,
            forall|i: int| start <= i < j ==> is_decimal_digit(#[trigger] c@[i]),
        decreases n - j,
    {
        j = j + 1;
    }
    let k = j - start;
    let ghost x = c@.subrange(start as int, j as int);
    proof {
        assert forall|v: u8| #[trigger] part_at(c@, start as int, v) implies x == decimal(v) && j == start + decimal(v).len() by {
            lemma_part_digits(c@, start as int, j as int, v);
        }
    }
    if k == 0 || k > 3 {
        proof {
            assert forall|v: u8| !#[trigger] part_at(c@, start as int, v) by {
                if part_at(c@, start as int, v) {
                    lemma_decimal_shape(v);
                }
            }
        }
        return None;
    }
    if j < n && c[j] != '.' {
        return None;
    }
    if k > 1 && c[start] == '0' {
        proof {
            assert(x[0] == '0');
            assert forall|v: u8| !#[trigger] part_at(c@, start as int, v) by {
                if part_at(c@, start as int, v) {
                    lemma_decimal_shape(v);
                }
            }
        }
        return None;
    }
    assert(x[0] == c@[start as int]);
    assert(is_decimal_digit(x[0]));
    let d0 = (c[start] as u32 - '0' as u32);
    let value: u32 = if k == 1 {
        d0
    } else if k == 2 {
        assert(x[1] == c@[start + 1]);
        10 * d0 + (c[start + 1] as u32 - '0' as u32)
    } else {
        assert(x[1] == c@[start + 1]);
        assert(x[2] == c@[start + 2]);
        10 * (10 * d0 + (c[start + 1] as u32 - '0' as u32)) + (c[start + 2] as u32 - '0' as u32)
    };
    assert(value == digits_value(x));
    if value > 255 {
        proof {
            assert forall|v: u8| !#[trigger] part_at(c@, start as int, v) by {
                if part_at(c@, start as int, v) {
                    lemma_decimal_shape(v);
                }
            }
        }
        return None;
    }
    let v = value as u8;
    proof {
        assert forall|i: int| 0 <= i < x.len() implies is_decimal_digit(#[trigger] x[i]) by {
            assert(x[i] == c@[start + i]);
        }
        lemma_digits_decimal(x);
        assert forall|w: u8| #[trigger] part_at(c@, start as int, w) implies w == v by {
            lemma_decimal_shape(w);
        }
    }
    Some((v, j))
}

proof fn lemma_text_parts(ip: Ipv4)
    ensures
        ({
            let t = ipv4_text(ip);
            let la = decimal(ip.a).len() as int;
            let lb = decimal(ip.b).len() as int;
            let lc = decimal(ip.c).len() as int;
            let ld = decimal(ip.d).len() as int;
            &&& part_at(t, 0, ip.a)
            &&& t[la] == '.'
            &&& part_at(t, la + 1, ip.b)
            &&& t[la + lb + 1] == '.'
            &&& part_at(t, la + lb + 2, ip.c)
            &&& t[la + lb + lc + 2] == '.'
            &&& part_at(t, la + lb + lc + 3, ip.d)
            &&& t.len() == la + lb + lc + ld + 3
        }),
{
    let t = ipv4_text(ip);
    let la = decimal(ip.a).len() as int;
    let lb = decimal(ip.b).len() as int;
    let lc = decimal(ip.c).len() as int;
    let ld = decimal(ip.d).len() as int;
    assert(t.subrange(0, la) =~= decimal(ip.a));
    assert(t.subrange(la + 1, la + lb + 1) =~= decimal(ip.b));
    assert(t.subrange(la + lb + 2, la + lb + lc + 2) =~= decimal(ip.c));
    assert(t.subrange(la + lb + lc + 3, t.len() as int) =~= decimal(ip.d));
}

/// Parses a dotted-quad address. Exactly the canonical texts are accepted:
/// four decimal parts below 256, without leading zeros or surrounding space.
#[verifier::spinoff_prover]
#[verifier::rlimit(60)]
pub fn parse_ipv4(s: &str) -> (r: Option<Ipv4>)
    ensures
        r matches Some(ip) ==> s@ == ipv4_text(ip),
        r is None ==> forall|ip: Ipv4| s@ != #[trigger] ipv4_text(ip),
{
    let c = chars_of(s);
    let n = c.len();
    let (a, ea) = match parse_part(&c, 0) {
        Some(p) => p,
        None => {
            proof {
                assert forall|ip: Ipv4| s@ != #[trigger] ipv4_text(ip) by {
                    lemma_text_parts(ip);
                }
            }
            return None;
        },
    };
    if ea >= n || c[ea] != '.' {
        proof {
            assert forall|ip: Ipv4| s@ != #[trigger] ipv4_text(ip) by {
                lemma_text_parts(ip);
            }
        }
        return None;
    }
    let (b, eb) = match parse_part(&c, ea + 1) {
        Some(p) => p,
        None => {
            proof {
                assert forall|ip: Ipv4| s@ != #[trigger] ipv4_text(ip) by {
                    lemma_text_parts(ip);
                }
            }
            return None;
        },
    };
    if eb >= n || c[eb] != '.' {
        proof {
            assert forall|ip: Ipv4| s@ != #[trigger] ipv4_text(ip) by {
                lemma_text_parts(ip);
            }
        }
        return None;
    }
    let (cc, ec) = match parse_part(&c, eb + 1) {
        Some(p) => p,
        None => {
            proof {
                assert forall|ip: Ipv4| s@ != #[trigger] ipv4_text(ip) by {
                    lemma_text_parts(ip);
                }
            }
            return None;
        },
    };
    if ec >= n || c[ec] != '.' {
        proof {
            assert forall|ip: Ipv4| s@ != #[trigger] ipv4_text(ip) by {
                lemma_text_parts(ip);
            }
        }
        return None;
    }
    let (d, ed) = match parse_part(&c, ec + 1) {
        Some(p) => p,
        None => {
            proof {
                assert forall|ip: Ipv4| s@ != #[trigger] ipv4_text(ip) by {
                    lemma_text_parts(ip);
                }
            }
            return None;
        },
    };
    if ed != n {
        proof {
            assert forall|ip: Ipv4| s@ != #[trigger] ipv4_text(ip) by {
                lemma_text_parts(ip);
            }
        }
        return None;
    }
    let ip = Ipv4 { a, b, c: cc, d };
    proof {
        let t = ipv4_text(ip);
        assert(c@.subrange(0, ea as int) == decimal(a));
        assert(c@.subrange(ea + 1, eb as int) == decimal(b));
        assert(c@.subrange(eb + 1, ec as int) == decimal(cc));
        assert(c@.subrange(ec + 1, ed as int) == decimal(d));
        assert(c@ =~= c@.subrange(0, ea as int) + seq!['.'] + c@.subrange(ea + 1, eb as int)
            + seq!['.'] + c@.subrange(eb + 1, ec as int) + seq!['.'] + c@.subrange(
            ec + 1,
            ed as int,
        ));
    }
    Some(ip)
}

impl Ipv4 {
    /// The dotted-quad text of the address.
    pub fn to_text(&self) -> (r: String)
        ensures
            r@ == ipv4_text(*self),
    {
        let mut out = String::new();
        let dot = ".";
        proof {
            reveal_strlit(".");
        }
        append_decimal(&mut out, self.a);
        out.append(dot);
        append_decimal(&mut out, self.b);
        out.append(dot);
        append_decimal(&mut out, self.c);
        out.append(dot);
        append_decimal(&mut out, self.d);
        assert(out@ =~= ipv4_text(*self));
        out
    }
}

} // verus!
