//! Duration tokens: `<digits><suffix>` with suffix `s`, `m`, `h` or `d`.

use vstd::prelude::*;

verus! {

/// Why a duration token was refused.
#[derive(Clone, Copy, Debug, PartialEq, Eq, Structural)]
pub enum ErrorKind {
    /// Not `<digits><suffix>`: bad or empty numeric prefix, or unknown suffix.
    Malformed,
    /// Well-formed, but the token or the running total exceeds `u64::MAX` seconds.
    Overflow,
}

/// A duration token that could not be used, with the token itself.
#[derive(Debug)]
pub struct ParseError {
    pub kind: ErrorKind,
    pub token: String,
}

pub open spec fn is_digit(c: char) -> bool {
    '0' <= c <= '9'
}

pub open spec fn digit_value(c: char) -> nat {
    (c as u32 - '0' as u32) as nat
}

/// The value of a string of decimal digits.
pub open spec fn numeral(s: Seq<char>) -> nat
    decreases s.len(),
{
    if s.len() == 0 {
        0
    } else {
        numeral(s.drop_last()) * 10 + digit_value(s.last())
    }
}

/// Seconds per unit of each suffix.
pub open spec fn multiplier(c: char) -> Option<nat> {
    if c == 's' {
        Some(1)
    } else if c == 'm' {
        Some(60)
    } else if c == 'h' {
        Some(3600)
    } else if c == 'd' {
        Some(86400)
    } else {
        None
    }
}

/// A non-empty run of digits followed by a known suffix.
pub open spec fn well_formed(t: Seq<char>) -> bool {
    &&& t.len() >= 2
    &&& forall|i: int| 0 <= i < t.len() - 1 ==> is_digit(#[trigger] t[i])
    &&& multiplier(t.last()) is Some
}

/// The number of seconds a well-formed token stands for.
pub open spec fn token_seconds(t: Seq<char>) -> nat {
    numeral(t.drop_last()) * multiplier(t.last())->0
}

/// What parsing one token yields.
pub open spec fn token_outcome(t: Seq<char>) -> Result<nat, ErrorKind> {
    if !well_formed(t) {
        Err(ErrorKind::Malformed)
    } else if token_seconds(t) > u64::MAX {
        Err(ErrorKind::Overflow)
    } else {
        Ok(token_seconds(t))
    }
}

/// An argument that belongs to option parsing rather than to the duration.
pub open spec fn is_flag(t: Seq<char>) -> bool {
    t.len() > 0 && t[0] == '-'
}

/// The total of a sequence of arguments, scanned in order: flags are skipped;
/// the first token that is malformed, or that carries the total past
/// `u64::MAX`, is reported with its index.
pub open spec fn tally(ts: Seq<Seq<char>>) -> Result<nat, (int, ErrorKind)>
    decreases ts.len(),
{
    if ts.len() == 0 {
        Ok(0)
    } else {
        match tally(ts.drop_last()) {
            Err(e) => Err(e),
            Ok(sum) => {
                let i = ts.len() - 1;
                if is_flag(ts[i]) {
                    Ok(sum)
                } else {
                    match token_outcome(ts[i]) {
                        Err(k) => Err((i, k)),
                        Ok(v) => if sum + v > u64::MAX {
                            Err((i, ErrorKind::Overflow))
                        } else {
                            Ok(sum + v)
                        },
                    }
                }
            },
        }
    }
}

proof fn lemma_numeral_push(s: Seq<char>, c: char)
    ensures
        numeral(s.push(c)) == numeral(s) * 10 + digit_value(c),
{
    assert(s.push(c).drop_last() =~= s);
}

fn suffix_multiplier(c: char) -> (r: Option<u64>)
    ensures
        r matches Some(k) ==> multiplier(c) == Some(k as nat),
        r is None ==> multiplier(c) is None,
{
    if c == 's' {
        Some(1)
    } else if c == 'm' {
        Some(60)
    } else if c == 'h' {
        Some(3600)
    } else if c == 'd' {
        Some(86400)
    } else {
        None
    }
}

fn refuse(kind: ErrorKind, symbol: &str) -> (e: ParseError)
    ensures
        e.kind == kind,
        e.token@ == symbol@,
{
    ParseError { kind, token: String::from_str(symbol) }
}

/// Parses one duration token into seconds.
pub fn parse_time(symbol: &str) -> (r: Result<u64, ParseError>)
    ensures
        match token_outcome(symbol@) {
            Ok(v) => r matches Ok(x) && x == v,
            Err(k) => r matches Err(e) && e.kind == k && e.token@ == symbol@,
        },
{
    let n = symbol.unicode_len();
    if n < 2 {
        return Err(refuse(ErrorKind::Malformed, symbol));
    }
    let last = symbol.get_char(n - 1);
    let mult = match suffix_multiplier(last) {
        Some(k) => k,
        None => {
            return Err(refuse(ErrorKind::Malformed, symbol));
        },
    };
    let ghost digits = symbol@.drop_last();
    let mut value: u64 = 0;
    let mut too_big = false;
    let mut i: usize = 0;
    while i < n - 1
        invariant
            n == symbol@.len(),
            n >= 2,
            digits == symbol@.drop_last(),
            0 <= i <= n - 1,
            forall|j: int| 0 <= j < i ==> is_digit(#[trigger] symbol@[j]),
            !too_big ==> value as nat == numeral(digits.take(i as int)),
            too_big ==> numeral(digits.take(i as int)) > u64::MAX,
        decreases n - 1 - i,
    {
        let c = symbol.get_char(i);
        if !('0' <= c && c <= '9') {
            assert(!well_formed(symbol@));
            return Err(refuse(ErrorKind::Malformed, symbol));
        }
        let d = (c as u32 - '0' as u32) as u64;
        proof {
            assert(digits.take(i as int).push(c) =~= digits.take(i + 1));
            lemma_numeral_push(digits.take(i as int), c);
        }
        if !too_big {
            if value > (u64::MAX - d) / 10 {
                too_big = true;
            } else {
                value = value * 10 + d;
            }
        }
        i = i + 1;
    }
    assert(digits.take(n - 1) =~= digits);
    assert(well_formed(symbol@));
    if too_big || value > u64::MAX / mult {
        proof {
            if !too_big {
                assert(value * mult > u64::MAX) by (nonlinear_arith)
                    requires
                        value > u64::MAX / mult,
                        mult > 0,
                ;
            } else {
                assert(numeral(digits) * mult >= numeral(digits)) by (nonlinear_arith)
                    requires
                        mult >= 1,
                ;
            }
        }
        return Err(refuse(ErrorKind::Overflow, symbol));
    }
    assert(value * mult <= u64::MAX) by (nonlinear_arith)
        requires
            value <= u64::MAX / mult,
            mult > 0,
    ;
    Ok(value * mult)
}

/// The views of a list of arguments.
pub open spec fn arg_views(args: Seq<String>) -> Seq<Seq<char>> {
    args.map_values(|a: String| a@)
}

/// The seconds of every token, summed in order.
pub open spec fn sum_seconds(ts: Seq<Seq<char>>) -> nat
    decreases ts.len(),
{
    if ts.len() == 0 {
        0
    } else {
        sum_seconds(ts.drop_last()) + token_seconds(ts.last())
    }
}

/// Once a prefix of the arguments is refused, the whole list is refused the same way.
proof fn lemma_tally_prefix_err(ts: Seq<Seq<char>>, k: int)
    requires
        0 <= k <= ts.len(),
        tally(ts.take(k)) is Err,
    ensures
        tally(ts) == tally(ts.take(k)),
    decreases ts.len() - k,
{
    if k < ts.len() {
        assert(ts.take(k + 1).drop_last() =~= ts.take(k));
        lemma_tally_prefix_err(ts, k + 1);
    } else {
        assert(ts.take(k) =~= ts);
    }
}

proof fn lemma_sum_remove(ts: Seq<Seq<char>>, j: int)
    requires
        0 <= j < ts.len(),
    ensures
        sum_seconds(ts) == sum_seconds(ts.remove(j)) + token_seconds(ts[j]),
    decreases ts.len(),
{
    if j == ts.len() - 1 {
        assert(ts.remove(j) =~= ts.drop_last());
    } else {
        assert(ts.remove(j).drop_last() =~= ts.drop_last().remove(j));
        assert(ts.remove(j).last() == ts.last());
        lemma_sum_remove(ts.drop_last(), j);
    }
}

proof fn lemma_sum_permutation(a: Seq<Seq<char>>, b: Seq<Seq<char>>)
    requires
        a.to_multiset() == b.to_multiset(),
    ensures
        sum_seconds(a) == sum_seconds(b),
    decreases a.len(),
{
    broadcast use vstd::seq_lib::group_to_multiset_ensures;

    if a.len() == 0 {
        assert(b.to_multiset().len() == 0);
    } else {
        let x = a.last();
        let rest = a.drop_last();
        assert(rest.push(x) =~= a);
        assert(a.to_multiset().count(x) > 0);
        assert(b.contains(x));
        let j = choose|j: int| 0 <= j < b.len() && b[j] == x;
        assert(b.remove(j).to_multiset() =~= rest.to_multiset());
        lemma_sum_permutation(rest, b.remove(j));
        lemma_sum_remove(b, j);
    }
}

proof fn lemma_tally_of_tokens(ts: Seq<Seq<char>>)
    requires
        forall|i: int| 0 <= i < ts.len() ==> well_formed(#[trigger] ts[i]),
        sum_seconds(ts) <= u64::MAX,
    ensures
        tally(ts) == Ok::<nat, (int, ErrorKind)>(sum_seconds(ts)),
    decreases ts.len(),
{
    if ts.len() > 0 {
        let rest = ts.drop_last();
        assert(forall|i: int| 0 <= i < rest.len() ==> #[trigger] rest[i] == ts[i]);
        lemma_tally_of_tokens(rest);
        let t = ts[ts.len() - 1];
        assert(well_formed(t));
        assert(is_digit(t[0]));
    }
}

/// For arguments that are all well-formed duration tokens whose seconds sum
/// to at most `u64::MAX`: each token parses to its own seconds, the total is
/// the sum of those, and any reordering of the tokens gives the same total.
pub proof fn lemma_total_is_order_free_sum(ts: Seq<Seq<char>>, reordered: Seq<Seq<char>>)
    requires
        forall|i: int| 0 <= i < ts.len() ==> well_formed(#[trigger] ts[i]),
        sum_seconds(ts) <= u64::MAX,
        reordered.to_multiset() == ts.to_multiset(),
    ensures
        forall|i: int|
            0 <= i < ts.len() ==> #[trigger] token_outcome(ts[i]) == Ok::<nat, ErrorKind>(
                token_seconds(ts[i]),
            ),
        tally(ts) == Ok::<nat, (int, ErrorKind)>(sum_seconds(ts)),
        tally(reordered) == tally(ts),
{
    broadcast use vstd::seq_lib::group_to_multiset_ensures;

    assert forall|i: int| 0 <= i < ts.len() implies #[trigger] token_outcome(ts[i]) == Ok::<
        nat,
        ErrorKind,
    >(token_seconds(ts[i])) by {
        lemma_sum_remove(ts, i);
    }
    lemma_tally_of_tokens(ts);
    lemma_sum_permutation(reordered, ts);
    assert forall|i: int| 0 <= i < reordered.len() implies well_formed(#[trigger] reordered[i]) by {
        assert(reordered.contains(reordered[i]));
        assert(ts.to_multiset().count(reordered[i]) > 0);
        assert(ts.contains(reordered[i]));
    }
    lemma_tally_of_tokens(reordered);
}

/// Sums the duration tokens among the arguments, skipping flags. A total
/// past `u64::MAX` seconds is refused as `Overflow` rather than saturated.
pub fn total_seconds(args: &Vec<String>) -> (r: Result<u64, ParseError>)
    ensures
        match tally(arg_views(args@)) {
            Ok(t) => r matches Ok(x) && x == t,
            Err((i, k)) => r matches Err(e) && e.kind == k && e.token@ == args@[i]@,
        },
{
    let ghost v = arg_views(args@);
    let mut total: u64 = 0;
    let mut i: usize = 0;
    while i < args.len()
        invariant
            v == arg_views(args@),
            0 <= i <= args.len(),
            tally(v.take(i as int)) == Ok::<nat, (int, ErrorKind)>(total as nat),
        decreases args.len() - i,
    {
        let a = args[i].as_str();
        proof {
            assert(v.take(i + 1).drop_last() =~= v.take(i as int));
            assert(v.take(i + 1)[i as int] == a@);
        }
        let is_flag_arg = a.unicode_len() > 0 && a.get_char(0) == '-';
        if !is_flag_arg {
            match parse_time(a) {
                Err(e) => {
                    proof {
                        lemma_tally_prefix_err(v, i + 1);
                    }
                    return Err(e);
                },
                Ok(secs) => {
                    if total > u64::MAX - secs {
                        proof {
                            lemma_tally_prefix_err(v, i + 1);
                        }
                        return Err(refuse(ErrorKind::Overflow, a));
                    }
                    total = total + secs;
                },
            }
        }
        i = i + 1;
    }
    assert(v.take(args.len() as int) =~= v);
    Ok(total)
}

} // verus!
