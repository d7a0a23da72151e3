//! The metadata of the wrapped native coin of a shard.

use crate::hash::ShardId;
use vstd::prelude::*;
use vstd::string::StringExecFns;

verus! {

/// The character of a decimal digit.
pub open spec fn digit_char(digit: nat) -> char {
    (48 + digit) as char
}

/// A number in decimal, without leading zeros.
pub open spec fn decimal(n: nat) -> Seq<char>
    decreases n,
{
    if n < 10 {
        seq![digit_char(n)]
    } else {
        decimal(n / 10).push(digit_char(n % 10))
    }
}

/// The metadata of the scheme of the wrapped native coin of a shard.
pub open spec fn wrapped_metadata_of(shard_id: ShardId) -> Seq<char> {
    "{\"name\":\"Wrapped CCC\",\"description\":\"Wrapped CCC in shard "@ + decimal(shard_id as nat)
        + "\"}"@
}

/// Writes a digit.
fn digit_text(digit: ShardId) -> (text: &'static str)
    requires
        digit < 10,
    ensures
        text@ == seq![digit_char(digit as nat)],
{
    proof {
        reveal_strlit("0");
        reveal_strlit("1");
        reveal_strlit("2");
        reveal_strlit("3");
        reveal_strlit("4");
        reveal_strlit("5");
        reveal_strlit("6");
        reveal_strlit("7");
        reveal_strlit("8");
        reveal_strlit("9");
    }
    let text = match digit {
        0 => "0",
        1 => "1",
        2 => "2",
        3 => "3",
        4 => "4",
        5 => "5",
        6 => "6",
        7 => "7",
        8 => "8",
        _ => "9",
    };
    assert(text@ =~= seq![digit_char(digit as nat)]);
    text
}

/// Appends a number in decimal.
fn append_decimal(text: &mut String, n: ShardId)
    ensures
        final(text)@ == old(text)@ + decimal(n as nat),
    decreases n,
{
    if n >= 10 {
        append_decimal(text, n / 10);
    }
    text.append(digit_text(n % 10));
    assert(text@ =~= old(text)@ + decimal(n as nat));
}

/// Writes the metadata of the scheme of the wrapped native coin of a shard.
pub fn wrapped_metadata(shard_id: ShardId) -> (text: String)
    ensures
        text@ == wrapped_metadata_of(shard_id),
{
    let mut text = String::from_str(
        "{\"name\":\"Wrapped CCC\",\"description\":\"Wrapped CCC in shard ",
    );
    append_decimal(&mut text, shard_id);
    text.append("\"}");
    text
}

/// The number that decimal digits stand for.
pub open spec fn decimal_value(text: Seq<char>) -> int
    decreases text.len(),
{
    if text.len() == 0 {
        0
    } else {
        decimal_value(text.drop_last()) * 10 + (text.last() as int - '0' as int)
    }
}

/// `text` is a number in decimal: digits, the first of which is zero only in zero itself.
pub open spec fn is_decimal_of(text: Seq<char>, n: int) -> bool {
    &&& text.len() > 0
    &&& forall|i: int| 0 <= i < text.len() ==> '0' <= #[trigger] text[i] <= '9'
    &&& text.len() > 1 ==> text[0] != '0'
    &&& decimal_value(text) == n
}

/// `text` names wrapped native coin and the shard that it is in.
pub open spec fn describes_wrapped_coin(text: Seq<char>, shard_id: ShardId) -> bool {
    exists|number: Seq<char>| #[trigger]
        is_decimal_of(number, shard_id as int) && text
            == "{\"name\":\"Wrapped CCC\",\"description\":\"Wrapped CCC in shard "@ + number + "\"}"@
}

proof fn lemma_decimal(n: nat)
    ensures
        is_decimal_of(decimal(n), n as int),
        n > 0 ==> decimal(n)[0] != '0',
    decreases n,
{
    reveal_with_fuel(decimal_value, 2);
    if n >= 10 {
        lemma_decimal(n / 10);
        let front = decimal(n / 10);
        assert(decimal(n).drop_last() =~= front);
        assert(decimal(n).last() == digit_char(n % 10));
        assert forall|i: int| 0 <= i < decimal(n).len() implies '0' <= #[trigger] decimal(n)[i]
            <= '9' by {
            if i < front.len() {
                assert(decimal(n)[i] == front[i]);
            }
        }
        assert(decimal(n)[0] == front[0]);
    } else {
        assert(decimal(n).drop_last() =~= Seq::empty());
    }
}

/// The metadata of wrapped native coin ends in the number of its shard, in decimal.
pub proof fn law_wrapped_metadata(shard_id: ShardId)
    ensures
        describes_wrapped_coin(wrapped_metadata_of(shard_id), shard_id),
{
    lemma_decimal(shard_id as nat);
    assert(is_decimal_of(decimal(shard_id as nat), shard_id as int));
}

} // verus!
