//! What holds of every range specification.
use vstd::prelude::*;
use crate::numbers::{
    is_digit, is_digit_string, decimal_value, decimal_digits, lemma_decimal_round_trip,
};
use crate::text::{
    position_of, split_on, join_with, lemma_position_of, lemma_position_of_is,
    lemma_split_of_join,
};
use crate::ranges::{
    is_pair, token_result, first_rejected, parse_result, not_ascending_message,
    lemma_first_rejected_is,
};

verus! {

/// What `first_rejected` returns is an index into the tokens or their number,
/// every token before it is accepted, and the token there is rejected.
pub proof fn lemma_first_rejected(tokens: Seq<Seq<char>>)
    ensures
        first_rejected(tokens) <= tokens.len(),
        forall|j: int| 0 <= j < first_rejected(tokens) ==> token_result(#[trigger] tokens[j]) is Ok,
        first_rejected(tokens) < tokens.len() ==> token_result(
            tokens[first_rejected(tokens) as int],
        ) is Err,
    decreases tokens.len(),
{
    if tokens.len() != 0 && token_result(tokens[0]) is Ok {
        let rest = tokens.drop_first();
        lemma_first_rejected(rest);
        assert forall|j: int| 0 <= j < first_rejected(tokens) implies token_result(
            #[trigger] tokens[j],
        ) is Ok by {
            if j > 0 {
                assert(tokens[j] == rest[j - 1]);
            }
        }
    }
}

/// A specification is accepted exactly where it is not empty and each of its
/// tokens is accepted. The list then holds one interval for each token, in
/// the order of the tokens: nothing is sorted, merged or dropped.
pub proof fn lemma_parse_keeps_order(spec: Seq<char>)
    ensures
        parse_result(spec) is Ok <==> spec.len() > 0 && forall|i: int|
            0 <= i < split_on(spec, ',').len() ==> token_result(
                #[trigger] split_on(spec, ',')[i],
            ) is Ok,
        parse_result(spec) matches Ok(list) ==> {
            &&& list.len() == split_on(spec, ',').len()
            &&& forall|i: int|
                0 <= i < list.len() ==> token_result(split_on(spec, ',')[i]) == Ok::<
                    (nat, nat),
                    Seq<char>,
                >(#[trigger] list[i])
        },
{
    lemma_first_rejected(split_on(spec, ','));
}

/// A specification that is not empty fails with the message of its first
/// token that is rejected, whatever follows that token.
pub proof fn lemma_parse_fails_fast(spec: Seq<char>, k: int)
    requires
        spec.len() > 0,
        0 <= k < split_on(spec, ',').len(),
        forall|j: int| 0 <= j < k ==> token_result(#[trigger] split_on(spec, ',')[j]) is Ok,
        token_result(split_on(spec, ',')[k]) is Err,
    ensures
        parse_result(spec) == Err::<Seq<(nat, nat)>, Seq<char>>(
            token_result(split_on(spec, ',')[k])->Err_0,
        ),
{
    lemma_first_rejected_is(split_on(spec, ','), k);
}

/// Every interval of an accepted specification holds at least one position.
pub proof fn lemma_parse_intervals_not_empty(spec: Seq<char>)
    ensures
        parse_result(spec) matches Ok(list) ==> forall|i: int|
            0 <= i < list.len() ==> (#[trigger] list[i]).0 < list[i].1,
{
    lemma_parse_keeps_order(spec);
}

/// A text without a comma is a single token.
pub proof fn lemma_single_token(token: Seq<char>)
    requires
        forall|i: int| 0 <= i < token.len() ==> token[i] != ',',
    ensures
        split_on(token, ',') == seq![token],
{
    lemma_position_of_is(token, ',', token.len() as int);
}

/// What a specification of one token denotes is what the token denotes.
pub proof fn lemma_parse_single_token(token: Seq<char>)
    requires
        token.len() > 0,
        forall|i: int| 0 <= i < token.len() ==> token[i] != ',',
    ensures
        parse_result(token) == match token_result(token) {
            Ok(interval) => Ok::<Seq<(nat, nat)>, Seq<char>>(seq![interval]),
            Err(message) => Err(message),
        },
{
    lemma_single_token(token);
    let tokens = seq![token];
    if token_result(token) is Ok {
        lemma_first_rejected_is(tokens, 1);
        assert(Seq::new(tokens.len(), |i: int| token_result(tokens[i])->Ok_0) =~= seq![
            token_result(token)->Ok_0,
        ]);
    } else {
        lemma_first_rejected_is(tokens, 0);
    }
}

/// A positive number that fits the machine, written in base ten, selects the
/// one position that it names: `n` denotes the interval from `n - 1` to `n`.
pub proof fn lemma_parse_number(n: nat)
    requires
        0 < n <= usize::MAX,
    ensures
        parse_result(decimal_digits(n)) == Ok::<Seq<(nat, nat)>, Seq<char>>(
            seq![((n - 1) as nat, n)],
        ),
{
    lemma_decimal_round_trip(n);
    lemma_parse_single_token(decimal_digits(n));
}

/// The text of a pair: the digits of `n1`, a dash, the digits of `n2`.
pub open spec fn pair_text(n1: nat, n2: nat) -> Seq<char> {
    decimal_digits(n1) + seq!['-'] + decimal_digits(n2)
}

/// Two positive numbers that fit the machine, written in base ten with a dash
/// between them, select the positions from the first up to and including the
/// second where the first is lower: `n1-n2` denotes the interval from
/// `n1 - 1` to `n2`. Where the first is not lower, the pair is rejected with
/// the message that names both numbers as they were given.
pub proof fn lemma_parse_pair(n1: nat, n2: nat)
    requires
        0 < n1 <= usize::MAX,
        0 < n2 <= usize::MAX,
    ensures
        n1 < n2 ==> parse_result(pair_text(n1, n2)) == Ok::<Seq<(nat, nat)>, Seq<char>>(
            seq![((n1 - 1) as nat, n2)],
        ),
        n1 >= n2 ==> parse_result(pair_text(n1, n2)) == Err::<Seq<(nat, nat)>, Seq<char>>(
            not_ascending_message(n1, n2),
        ),
{
    let first = decimal_digits(n1);
    let second = decimal_digits(n2);
    let token = pair_text(n1, n2);
    lemma_decimal_round_trip(n1);
    lemma_decimal_round_trip(n2);
    let dash = first.len() as int;
    assert(token[dash] == '-');
    assert forall|i: int| 0 <= i < token.len() implies token[i] != ',' by {
        if i < dash {
            assert(token[i] == first[i]);
        } else if i > dash {
            assert(token[i] == second[i - dash - 1]);
        }
    }
    assert forall|i: int| 0 <= i < dash implies token[i] != '-' by {
        assert(token[i] == first[i]);
    }
    lemma_position_of_is(token, '-', dash);
    assert(token.subrange(0, dash) =~= first);
    assert(token.subrange(dash + 1, token.len() as int) =~= second);
    assert(!is_digit(token[dash]));
    assert(!is_digit_string(token));
    assert(is_pair(token));
    lemma_parse_single_token(token);
}

/// Zeros in front of a run of digits do not change what it denotes.
pub proof fn lemma_leading_zero(digits: Seq<char>)
    requires
        is_digit_string(digits),
    ensures
        is_digit_string(seq!['0'] + digits),
        decimal_value(seq!['0'] + digits) == decimal_value(digits),
    decreases digits.len(),
{
    let padded = seq!['0'] + digits;
    assert(padded.drop_last() =~= seq!['0'] + digits.drop_last());
    assert forall|i: int| 0 <= i < padded.len() implies is_digit(#[trigger] padded[i]) by {
        if i > 0 {
            assert(padded[i] == digits[i - 1]);
        }
    }
    if digits.len() == 1 {
        assert(padded.drop_last() =~= seq!['0']);
        assert(seq!['0'].drop_last() =~= Seq::<char>::empty());
        assert(digits.drop_last() =~= Seq::<char>::empty());
        assert(decimal_value(seq!['0'].drop_last()) == 0);
        assert(decimal_value(digits.drop_last()) == 0);
        assert(decimal_value(seq!['0']) == 0);
        assert(padded.last() == digits.last());
    } else {
        assert forall|i: int| 0 <= i < digits.drop_last().len() implies is_digit(
            #[trigger] digits.drop_last()[i],
        ) by {
            assert(digits.drop_last()[i] == digits[i]);
        }
        lemma_leading_zero(digits.drop_last());
    }
}

/// Leading zeros are insignificant: a token that is accepted denotes the same
/// interval with a zero in front of it.
pub proof fn lemma_leading_zero_token(token: Seq<char>)
    requires
        token_result(token) is Ok,
    ensures
        token_result(seq!['0'] + token) == token_result(token),
{
    let padded = seq!['0'] + token;
    if is_digit_string(token) {
        lemma_leading_zero(token);
    } else {
        let dash = position_of(token, '-') as int;
        lemma_position_of(token, '-');
        assert(is_pair(token));
        assert forall|j: int| 0 <= j < dash + 1 implies padded[j] != '-' by {
            if j > 0 {
                assert(padded[j] == token[j - 1]);
            }
        }
        assert(padded[dash + 1] == token[dash]);
        lemma_position_of_is(padded, '-', dash + 1);
        assert(padded.subrange(0, dash + 1) =~= seq!['0'] + token.subrange(0, dash));
        assert(padded.subrange(dash + 2, padded.len() as int) =~= token.subrange(
            dash + 1,
            token.len() as int,
        ));
        lemma_leading_zero(token.subrange(0, dash));
        assert(!is_digit(padded[dash + 1]));
        assert(!is_digit_string(padded));
    }
}

/// Leading zeros are insignificant on the second number of a pair too.
pub proof fn lemma_leading_zero_second(first: Seq<char>, second: Seq<char>)
    requires
        token_result(first + seq!['-'] + second) is Ok,
    ensures
        token_result(first + seq!['-', '0'] + second) == token_result(first + seq!['-'] + second),
{
    let token = first + seq!['-'] + second;
    let padded = first + seq!['-', '0'] + second;
    let dash = position_of(token, '-') as int;
    lemma_position_of(token, '-');
    assert(token[first.len() as int] == '-');
    assert(!is_digit(token[first.len() as int]));
    assert(!is_digit_string(token));
    assert(is_pair(token));
    if dash < first.len() {
        assert(token.subrange(dash + 1, token.len() as int)[first.len() - dash - 1] == '-');
        assert(false);
    }
    assert(dash == first.len());
    assert forall|j: int| 0 <= j < dash implies padded[j] != '-' by {
        assert(padded[j] == token[j]);
    }
    assert(padded[dash] == '-');
    lemma_position_of_is(padded, '-', dash);
    assert(token.subrange(0, dash) =~= first);
    assert(padded.subrange(0, dash) =~= first);
    assert(token.subrange(dash + 1, token.len() as int) =~= second);
    assert(padded.subrange(dash + 1, padded.len() as int) =~= seq!['0'] + second);
    lemma_leading_zero(second);
    assert(!is_digit(padded[dash]));
    assert(!is_digit_string(padded));
}

/// Two specifications whose tokens denote the same, one by one, denote the
/// same.
pub proof fn lemma_parse_token_by_token(a: Seq<char>, b: Seq<char>)
    requires
        a.len() > 0,
        b.len() > 0,
        split_on(a, ',').len() == split_on(b, ',').len(),
        forall|i: int|
            0 <= i < split_on(a, ',').len() ==> token_result(#[trigger] split_on(a, ',')[i])
                == token_result(split_on(b, ',')[i]),
    ensures
        parse_result(a) == parse_result(b),
{
    let ta = split_on(a, ',');
    let tb = split_on(b, ',');
    lemma_first_rejected(ta);
    let k = first_rejected(ta) as int;
    assert forall|j: int| 0 <= j < k implies token_result(#[trigger] tb[j]) is Ok by {
        assert(token_result(ta[j]) is Ok);
    }
    lemma_first_rejected_is(tb, k);
    if k >= ta.len() {
        assert(Seq::new(ta.len(), |i: int| token_result(ta[i])->Ok_0) =~= Seq::new(
            tb.len(),
            |i: int| token_result(tb[i])->Ok_0,
        ));
    }
}

/// `padded` is `token` with a zero behind its first dash.
pub open spec fn is_padded_behind_dash(token: Seq<char>, padded: Seq<char>) -> bool {
    let dash = position_of(token, '-') as int;
    dash < token.len() && padded == token.subrange(0, dash + 1) + seq!['0'] + token.subrange(
        dash + 1,
        token.len() as int,
    )
}

/// `padded` is `token`, or `token` with one more zero in front of it or
/// behind its dash.
pub open spec fn is_zero_padded(token: Seq<char>, padded: Seq<char>) -> bool {
    padded == token || padded == seq!['0'] + token || is_padded_behind_dash(token, padded)
}

/// Leading zeros are insignificant in a whole specification: where a
/// specification is accepted, it denotes the same with one more zero in front
/// of any of its numbers. The specifications are given by their tokens, which
/// the commas join.
pub proof fn lemma_leading_zeros(tokens: Seq<Seq<char>>, padded: Seq<Seq<char>>)
    requires
        tokens.len() >= 1,
        padded.len() == tokens.len(),
        forall|i: int, j: int|
            0 <= i < tokens.len() && 0 <= j < tokens[i].len() ==> tokens[i][j] != ',',
        forall|i: int| 0 <= i < tokens.len() ==> is_zero_padded(tokens[i], #[trigger] padded[i]),
        parse_result(join_with(tokens, ',')) is Ok,
    ensures
        parse_result(join_with(padded, ',')) == parse_result(join_with(tokens, ',')),
{
    let plain = join_with(tokens, ',');
    let zeros = join_with(padded, ',');
    assert forall|i: int, j: int|
        0 <= i < padded.len() && 0 <= j < padded[i].len() implies padded[i][j] != ',' by {
        assert(is_zero_padded(tokens[i], padded[i]));
        if padded[i] == tokens[i] {
        } else if padded[i] == seq!['0'] + tokens[i] {
            if j > 0 {
                assert(padded[i][j] == tokens[i][j - 1]);
            }
        } else {
            let dash = position_of(tokens[i], '-') as int;
            if j <= dash {
                assert(padded[i][j] == tokens[i][j]);
            } else if j > dash + 1 {
                assert(padded[i][j] == tokens[i][j - 1]);
            }
        }
    }
    lemma_split_of_join(tokens, ',');
    lemma_split_of_join(padded, ',');
    lemma_parse_keeps_order(plain);
    assert forall|i: int| 0 <= i < tokens.len() implies token_result(#[trigger] tokens[i])
        == token_result(padded[i]) by {
        assert(is_zero_padded(tokens[i], padded[i]));
        assert(token_result(split_on(plain, ',')[i]) is Ok);
        if padded[i] == tokens[i] {
        } else if padded[i] == seq!['0'] + tokens[i] {
            lemma_leading_zero_token(tokens[i]);
        } else {
            let dash = position_of(tokens[i], '-') as int;
            lemma_position_of(tokens[i], '-');
            let first = tokens[i].subrange(0, dash);
            let second = tokens[i].subrange(dash + 1, tokens[i].len() as int);
            assert(tokens[i] =~= first + seq!['-'] + second);
            assert(padded[i] =~= first + seq!['-', '0'] + second);
            lemma_leading_zero_second(first, second);
        }
    }
    assert(token_result(padded[0]) is Ok);
    assert(zeros.len() > 0) by {
        if zeros.len() == 0 {
            assert(split_on(zeros, ',') =~= seq![zeros]);
            assert(padded[0] == zeros);
            assert(!is_digit_string(zeros));
            lemma_position_of(zeros, '-');
        }
    }
    lemma_parse_token_by_token(plain, zeros);
}

} // verus!
