//! Decimal rendering of node ids, so that log lines can carry an exact
//! specification of their text.

use vstd::prelude::*;

verus! {

use vstd::string::StringExecFns;

/// The character for one decimal digit.
pub open spec fn spec_digit(d: int) -> char {
    if d == 0 {
        '0'
    } else if d == 1 {
        '1'
    } else if d == 2 {
        '2'
    } else if d == 3 {
        '3'
    } else if d == 4 {
        '4'
    } else if d == 5 {
        '5'
    } else if d == 6 {
        '6'
    } else if d == 7 {
        '7'
    } else if d == 8 {
        '8'
    } else {
        '9'
    }
}

/// The usual decimal rendering of a non-negative integer, most
/// significant digit first and without leading zeroes.
pub open spec fn spec_decimal(n: int) -> Seq<char>
    decreases n,
{
    if n < 10 {
        seq![spec_digit(n)]
    } else {
        spec_decimal(n / 10).push(spec_digit(n % 10))
    }
}

/// One decimal digit as a string slice.
fn digit_str(d: u8) -> (r: &'static str)
    requires
        d < 10,
    ensures
        r@ == seq![spec_digit(d as int)],
{
    proof {
        reveal_strlit("0");
        reveal_strlit("1");
        reveal_strlit("2");
        reveal_strlit("3");
        reveal_strlit("4");
        reveal_strlit("5");
        reveal_strlit("6");
        reveal_strlit("7");
        reveal_strlit("8");
        reveal_strlit("9");
    }
    let r = match d {
        0 => "0",
        1 => "1",
        2 => "2",
        3 => "3",
        4 => "4",
        5 => "5",
        6 => "6",
        7 => "7",
        8 => "8",
        _ => "9",
    };
    proof {
        assert(r@ =~= seq![spec_digit(d as int)]);
    }
    r
}

/// Renders a node id in decimal.
pub fn u8_to_string(n: u8) -> (r: String)
    ensures
        r@ == spec_decimal(n as int),
{
    let mut s = String::new();
    if n >= 100 {
        s.append(digit_str(n / 100));
    }
    if n >= 10 {
        s.append(digit_str((n / 10) % 10));
    }
    s.append(digit_str(n % 10));
    proof {
        let i = n as int;
        if i >= 100 {
            assert(i / 10 >= 10);
            assert(i / 10 / 10 == i / 100) by (nonlinear_arith);
            assert(i / 100 < 10);
            assert(spec_decimal(i) =~= spec_decimal(i / 10).push(spec_digit(i % 10)));
            assert(spec_decimal(i / 100) =~= seq![spec_digit(i / 100)]);
            assert(spec_decimal(i / 10) =~= spec_decimal(i / 100).push(spec_digit(i / 10 % 10)));
            assert(s@ =~= spec_decimal(i));
        } else if i >= 10 {
            assert(i / 10 < 10);
            assert(i / 10 % 10 == i / 10);
            assert(spec_decimal(i / 10) =~= seq![spec_digit(i / 10)]);
            assert(s@ =~= spec_decimal(i));
        } else {
            assert(s@ =~= spec_decimal(i));
        }
    }
    s
}

/// Renders a byte count in decimal.
pub fn u64_to_string(n: u64) -> (r: String)
    ensures
        r@ == spec_decimal(n as int),
{
    if n == 0 {
        let r = String::from_str("0");
        proof {
            reveal_strlit("0");
            assert(r@ =~= spec_decimal(0));
        }
        return r;
    }
    let ghost digit_of = |d: u8| spec_digit(d as int);
    let mut digits: Vec<u8> = Vec::new();
    let mut m: u64 = n;
    proof {
        assert(spec_decimal(n as int) =~= spec_decimal(m as int) + digits@.reverse().map_values(
            digit_of,
        ));
    }
    while m > 0
        invariant
            m > 0 ==> spec_decimal(n as int) == spec_decimal(m as int) + digits@.reverse().map_values(
                digit_of,
            ),
            m == 0 ==> spec_decimal(n as int) == digits@.reverse().map_values(digit_of),
            m == 0 ==> digits@.len() > 0,
            digit_of == (|d: u8| spec_digit(d as int)),
            forall|j: int| 0 <= j < digits@.len() ==> digits@[j] < 10,
        decreases m,
    {
        let ghost pre_digits = digits@;
        let ghost pre_m = m as int;
        let d: u8 = (m % 10) as u8;
        digits.push(d);
        m = m / 10;
        proof {
            let rd_pre = pre_digits.reverse().map_values(digit_of);
            let rd = digits@.reverse().map_values(digit_of);
            assert(rd =~= seq![spec_digit(pre_m % 10)] + rd_pre);
            if m > 0 {
                assert(spec_decimal(pre_m) =~= spec_decimal(pre_m / 10).push(
                    spec_digit(pre_m % 10),
                ));
                assert(spec_decimal(pre_m) + rd_pre =~= spec_decimal(pre_m / 10) + rd);
            } else {
                assert(pre_m < 10);
                assert(spec_decimal(pre_m) =~= seq![spec_digit(pre_m)]);
                assert(spec_decimal(pre_m) + rd_pre =~= rd);
            }
        }
    }
    let ghost rd = digits@.reverse().map_values(digit_of);
    let mut s = String::new();
    let mut i: usize = 0;
    proof {
        assert(s@ =~= rd.take(0));
    }
    while i < digits.len()
        invariant
            i <= digits@.len(),
            s@ == rd.take(i as int),
            rd == digits@.reverse().map_values(digit_of),
            digit_of == (|d: u8| spec_digit(d as int)),
            forall|j: int| 0 <= j < digits@.len() ==> digits@[j] < 10,
        decreases digits@.len() - i,
    {
        let idx = digits.len() - 1 - i;
        s.append(digit_str(digits[idx]));
        proof {
            assert(rd[i as int] == spec_digit(digits@[idx as int] as int));
            assert(s@ =~= rd.take(i + 1 as int));
        }
        i = i + 1;
    }
    proof {
        assert(rd.take(digits@.len() as int) =~= rd);
        assert(s@ =~= spec_decimal(n as int));
    }
    s
}

/// The items of a list of ids rendered in decimal, separated by
/// a comma and a space.
pub open spec fn spec_u8_items(v: Seq<u8>) -> Seq<char>
    decreases v.len(),
{
    if v.len() == 0 {
        Seq::empty()
    } else if v.len() == 1 {
        spec_decimal(v[0] as int)
    } else {
        spec_u8_items(v.drop_last()) + ", "@ + spec_decimal(v.last() as int)
    }
}

/// A list of ids rendered in brackets, as a debugger would show it.
pub fn u8_list_string(v: &Vec<u8>) -> (r: String)
    ensures
        r@ == "["@ + spec_u8_items(v@) + "]"@,
{
    let mut s = String::from_str("[");
    let mut i: usize = 0;
    proof {
        assert(s@ =~= "["@ + spec_u8_items(v@.take(0)));
    }
    while i < v.len()
        invariant
            i <= v@.len(),
            s@ == "["@ + spec_u8_items(v@.take(i as int)),
        decreases v@.len() - i,
    {
        if i > 0 {
            s.append(", ");
        }
        let e = u8_to_string(v[i]);
        s.append(e.as_str());
        proof {
            assert(v@.take(i + 1 as int).drop_last() =~= v@.take(i as int));
            assert(v@.take(i + 1 as int).last() == v@[i as int]);
            if i == 0 {
                assert(s@ =~= "["@ + spec_u8_items(v@.take(1)));
            } else {
                assert(s@ =~= "["@ + spec_u8_items(v@.take(i + 1 as int)));
            }
        }
        i = i + 1;
    }
    s.append("]");
    proof {
        assert(v@.take(v@.len() as int) =~= v@);
        assert(s@ =~= "["@ + spec_u8_items(v@) + "]"@);
    }
    s
}

/// The texts of a list of names.
pub open spec fn spec_names_of(v: Seq<String>) -> Seq<Seq<char>> {
    v.map_values(|s: String| s@)
}

/// A name in quotes; the contents are taken as they are.
pub open spec fn spec_quoted(s: Seq<char>) -> Seq<char> {
    "\""@ + s + "\""@
}

/// The items of a list of names, each in quotes, separated by a comma
/// and a space.
pub open spec fn spec_name_items(v: Seq<Seq<char>>) -> Seq<char>
    decreases v.len(),
{
    if v.len() == 0 {
        Seq::empty()
    } else if v.len() == 1 {
        spec_quoted(v[0])
    } else {
        spec_name_items(v.drop_last()) + ", "@ + spec_quoted(v.last())
    }
}

/// A list of names rendered in brackets with quotes, as a debugger
/// would show it (the names are not escaped).
pub fn name_list_string(v: &Vec<String>) -> (r: String)
    ensures
        r@ == "["@ + spec_name_items(spec_names_of(v@)) + "]"@,
{
    let ghost items = spec_names_of(v@);
    let mut s = String::from_str("[");
    let mut i: usize = 0;
    proof {
        assert(s@ =~= "["@ + spec_name_items(items.take(0)));
    }
    while i < v.len()
        invariant
            i <= v@.len(),
            items == spec_names_of(v@),
            s@ == "["@ + spec_name_items(items.take(i as int)),
        decreases v@.len() - i,
    {
        if i > 0 {
            s.append(", ");
        }
        s.append("\"");
        s.append(v[i].as_str());
        s.append("\"");
        proof {
            assert(items.take(i + 1 as int).drop_last() =~= items.take(i as int));
            assert(items.take(i + 1 as int).last() == items[i as int]);
            assert(items[i as int] == v@[i as int]@);
            if i == 0 {
                assert(s@ =~= "["@ + spec_name_items(items.take(1)));
            } else {
                assert(s@ =~= "["@ + spec_name_items(items.take(i + 1 as int)));
            }
        }
        i = i + 1;
    }
    s.append("]");
    proof {
        assert(items.take(items.len() as int) =~= items);
        assert(s@ =~= "["@ + spec_name_items(items) + "]"@);
    }
    s
}

} // verus!
