//! Channel identity: the filesystem path of the named pipe that carries the
//! command stream of one session.
//!
//! A session's channel lives under a fixed directory and ends in a random
//! numeric suffix, zero-padded to at least six digits, so that concurrent
//! sessions on one host get distinct paths. `lemma_channel_path_injective`
//! states the distinctness: two different suffixes can never render to the
//! same path.

use vstd::prelude::*;

verus! {

/// Largest suffix (inclusive) ever used in a channel identity.
pub const MAX_SUFFIX: u64 = 1_000_000;

/// The fixed prefix of every channel path.
pub open spec fn path_prefix() -> Seq<char> {
    "/tmp/.fifo."@
}

/// The character for one decimal digit.
pub open spec fn digit_char(d: nat) -> char
    recommends
        d < 10,
{
    if d == 0 {
        '0'
    } else if d == 1 {
        '1'
    } else if d == 2 {
        '2'
    } else if d == 3 {
        '3'
    } else if d == 4 {
        '4'
    } else if d == 5 {
        '5'
    } else if d == 6 {
        '6'
    } else if d == 7 {
        '7'
    } else if d == 8 {
        '8'
    } else {
        '9'
    }
}

/// The numeric value of one decimal digit character (zero on anything else).
pub open spec fn char_value(c: char) -> nat {
    if c == '0' {
        0
    } else if c == '1' {
        1
    } else if c == '2' {
        2
    } else if c == '3' {
        3
    } else if c == '4' {
        4
    } else if c == '5' {
        5
    } else if c == '6' {
        6
    } else if c == '7' {
        7
    } else if c == '8' {
        8
    } else if c == '9' {
        9
    } else {
        0
    }
}

/// The decimal rendering of `n`, most significant digit first, no padding.
pub open spec fn decimal_digits(n: nat) -> Seq<char>
    decreases n,
{
    if n < 10 {
        seq![digit_char(n)]
    } else {
        decimal_digits(n / 10).push(digit_char(n % 10))
    }
}

/// A run of `k` zero characters.
pub open spec fn zero_run(k: nat) -> Seq<char>
    decreases k,
{
    if k == 0 {
        Seq::empty()
    } else {
        zero_run((k - 1) as nat).push('0')
    }
}

/// How many zeros pad the rendering of `n` to six digits.
pub open spec fn pad_width(n: nat) -> nat {
    if n < 10 {
        5
    } else if n < 100 {
        4
    } else if n < 1000 {
        3
    } else if n < 10000 {
        2
    } else if n < 100000 {
        1
    } else {
        0
    }
}

/// The decimal rendering of `n`, zero-padded to at least six digits.
pub open spec fn padded_decimal(n: nat) -> Seq<char> {
    zero_run(pad_width(n)) + decimal_digits(n)
}

/// The channel path for suffix `n`.
pub open spec fn spec_channel_path(n: u64) -> Seq<char> {
    path_prefix() + padded_decimal(n as nat)
}

/// The value a decimal digit sequence denotes.
pub open spec fn decimal_value(s: Seq<char>) -> nat
    decreases s.len(),
{
    if s.len() == 0 {
        0
    } else {
        decimal_value(s.drop_last()) * 10 + char_value(s.last())
    }
}

proof fn lemma_digit_char_value(d: nat)
    requires
        d < 10,
    ensures
        char_value(digit_char(d)) == d,
{
}

/// Rendering a number and reading the digits back gives the number again.
proof fn lemma_decimal_digits_value(n: nat)
    ensures
        decimal_value(decimal_digits(n)) == n,
    decreases n,
{
    if n < 10 {
        assert(decimal_digits(n).drop_last() =~= Seq::<char>::empty());
        assert(decimal_digits(n).last() == digit_char(n));
        lemma_digit_char_value(n);
        assert(decimal_value(Seq::<char>::empty()) == 0);
        assert(decimal_digits(n).len() == 1);
        assert(decimal_value(decimal_digits(n))
            == decimal_value(decimal_digits(n).drop_last()) * 10
                + char_value(decimal_digits(n).last()));
        assert(decimal_value(decimal_digits(n)) == n);
    } else {
        lemma_decimal_digits_value(n / 10);
        lemma_digit_char_value(n % 10);
        assert(decimal_digits(n).drop_last() =~= decimal_digits(n / 10));
        assert(decimal_digits(n).last() == digit_char(n % 10));
        assert(decimal_value(decimal_digits(n)) == (n / 10) * 10 + n % 10);
        assert(n / 10 * 10 + n % 10 == n) by {
            vstd::arithmetic::div_mod::lemma_fundamental_div_mod(n as int, 10);
        };
    }
}

proof fn lemma_zero_run_value(k: nat)
    ensures
        decimal_value(zero_run(k)) == 0,
    decreases k,
{
    if k != 0 {
        lemma_zero_run_value((k - 1) as nat);
        assert(zero_run(k).drop_last() =~= zero_run((k - 1) as nat));
    }
}

/// Leading zeros do not change the value a digit sequence denotes.
proof fn lemma_zero_padding_value(k: nat, s: Seq<char>)
    ensures
        decimal_value(zero_run(k) + s) == decimal_value(s),
    decreases s.len(),
{
    if s.len() == 0 {
        assert(zero_run(k) + s =~= zero_run(k));
        lemma_zero_run_value(k);
    } else {
        assert((zero_run(k) + s).drop_last() =~= zero_run(k) + s.drop_last());
        assert((zero_run(k) + s).last() == s.last());
        lemma_zero_padding_value(k, s.drop_last());
    }
}

proof fn lemma_padded_decimal_value(n: nat)
    ensures
        decimal_value(padded_decimal(n)) == n,
{
    lemma_zero_padding_value(pad_width(n), decimal_digits(n));
    lemma_decimal_digits_value(n);
}

/// Distinct suffixes give distinct channel paths: concurrently opened
/// sessions whose random suffixes differ can never collide on the channel
/// node they create.
pub proof fn lemma_channel_path_injective(a: u64, b: u64)
    ensures
        (spec_channel_path(a) == spec_channel_path(b)) <==> a == b,
{
    if spec_channel_path(a) == spec_channel_path(b) {
        let plen = path_prefix().len() as int;
        assert(padded_decimal(a as nat) =~= spec_channel_path(a).skip(plen));
        assert(padded_decimal(b as nat) =~= spec_channel_path(b).skip(plen));
        lemma_padded_decimal_value(a as nat);
        lemma_padded_decimal_value(b as nat);
    }
}

/// Relies on `String::push`: appends exactly the given character.
#[verifier::external_body]
pub(crate) fn push_char(s: &mut String, c: char)
    ensures
        final(s)@ == old(s)@ + seq![c],
{
    s.push(c);
}

fn digit_to_char(d: u64) -> (c: char)
    requires
        d < 10,
    ensures
        c == digit_char(d as nat),
{
    if d == 0 {
        '0'
    } else if d == 1 {
        '1'
    } else if d == 2 {
        '2'
    } else if d == 3 {
        '3'
    } else if d == 4 {
        '4'
    } else if d == 5 {
        '5'
    } else if d == 6 {
        '6'
    } else if d == 7 {
        '7'
    } else if d == 8 {
        '8'
    } else {
        '9'
    }
}

fn push_decimal(s: &mut String, n: u64)
    ensures
        final(s)@ == old(s)@ + decimal_digits(n as nat),
    decreases n,
{
    if n < 10 {
        let c = digit_to_char(n);
        push_char(s, c);
    } else {
        push_decimal(s, n / 10);
        let c = digit_to_char(n % 10);
        push_char(s, c);
        proof {
            assert(old(s)@ + decimal_digits((n / 10) as nat) + seq![digit_char((n % 10) as nat)]
                =~= old(s)@ + decimal_digits(n as nat));
        }
    }
}

fn push_zeros(s: &mut String, k: u64)
    ensures
        final(s)@ == old(s)@ + zero_run(k as nat),
    decreases k,
{
    if k == 0 {
        proof {
            assert(old(s)@ + zero_run(0) =~= old(s)@);
        }
    } else {
        push_zeros(s, k - 1);
        push_char(s, '0');
        proof {
            assert(old(s)@ + zero_run((k - 1) as nat) + seq!['0'] =~= old(s)@ + zero_run(k as nat));
        }
    }
}

/// Renders the channel path for the given suffix: the fixed prefix followed
/// by the suffix in decimal, zero-padded to at least six digits.
pub fn channel_path(suffix: u64) -> (r: String)
    requires
        suffix <= MAX_SUFFIX,
    ensures
        r@ == spec_channel_path(suffix),
{
    let mut r: String = "/tmp/.fifo.".to_owned();
    let pad: u64 = if suffix < 10 {
        5
    } else if suffix < 100 {
        4
    } else if suffix < 1000 {
        3
    } else if suffix < 10000 {
        2
    } else if suffix < 100000 {
        1
    } else {
        0
    };
    push_zeros(&mut r, pad);
    push_decimal(&mut r, suffix);
    proof {
        assert(path_prefix() + zero_run(pad as nat) + decimal_digits(suffix as nat)
            =~= spec_channel_path(suffix));
    }
    r
}

/// Relies on `rand::Rng::gen_range` on the thread-local generator: returns a
/// value drawn from the given inclusive range, so never above `MAX_SUFFIX`.
#[verifier::external_body]
fn random_suffix() -> (r: u64)
    ensures
        r <= MAX_SUFFIX,
{
    rand::Rng::gen_range(&mut rand::thread_rng(), 0..=MAX_SUFFIX)
}

/// Picks a fresh channel identity: a well-formed channel path whose suffix
/// was drawn at random from the full suffix range.
pub fn fresh_channel_path() -> (r: String)
    ensures
        exists|n: u64| n <= MAX_SUFFIX && r@ == #[trigger] spec_channel_path(n),
{
    let suffix = random_suffix();
    let r = channel_path(suffix);
    proof {
        assert(suffix <= MAX_SUFFIX && r@ == spec_channel_path(suffix));
    }
    r
}

} // verus!
