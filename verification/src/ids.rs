use vstd::prelude::*;

use vstd::string::StringExecFns;

verus! {

/// The character for one decimal digit.
pub open spec fn digit_char(d: nat) -> char {
    (48 + d) as u8 as char
}

/// The decimal rendering of a number, most significant digit first,
/// with no leading zeros (a lone zero for 0).
pub open spec fn decimal_digits(n: nat) -> Seq<char>
    decreases n,
{
    if n < 10 {
        seq![digit_char(n)]
    } else {
        decimal_digits(n / 10).push(digit_char(n % 10))
    }
}

/// The debug label handed out for the given counter value.
pub open spec fn bt_id_label(n: nat) -> Seq<char> {
    "<node "@ + decimal_digits(n) + ">"@
}

/// A decimal rendering has at least one digit.
pub proof fn lemma_decimal_digits_len(n: nat)
    ensures
        decimal_digits(n).len() >= 1,
    decreases n,
{
    if n >= 10 {
        lemma_decimal_digits_len(n / 10);
    }
}

/// Distinct numbers render to distinct digit strings.
pub proof fn lemma_decimal_digits_injective(m: nat, n: nat)
    requires
        m != n,
    ensures
        decimal_digits(m) != decimal_digits(n),
    decreases m + n,
{
    if m < 10 && n < 10 {
        assert(decimal_digits(m)[0] != decimal_digits(n)[0]);
    } else if m < 10 {
        lemma_decimal_digits_len(n / 10);
        assert(decimal_digits(m).len() == 1);
        assert(decimal_digits(n).len() >= 2);
    } else if n < 10 {
        lemma_decimal_digits_len(m / 10);
        assert(decimal_digits(m).len() >= 2);
        assert(decimal_digits(n).len() == 1);
    } else {
        if m % 10 != n % 10 {
            assert(decimal_digits(m).last() != decimal_digits(n).last());
        } else {
            assert(m / 10 != n / 10);
            lemma_decimal_digits_injective(m / 10, n / 10);
            assert(decimal_digits(m).drop_last() =~= decimal_digits(m / 10));
            assert(decimal_digits(n).drop_last() =~= decimal_digits(n / 10));
        }
    }
}

/// Distinct counter values give distinct debug labels: a label is never
/// reissued while the counter still moves.
pub proof fn lemma_bt_id_label_injective(m: nat, n: nat)
    requires
        m != n,
    ensures
        bt_id_label(m) != bt_id_label(n),
{
    lemma_decimal_digits_injective(m, n);
    if bt_id_label(m) == bt_id_label(n) {
        let head = "<node "@;
        let dm = decimal_digits(m);
        let dn = decimal_digits(n);
        assert(bt_id_label(m).len() == head.len() + dm.len() + ">"@.len());
        assert(bt_id_label(n).len() == head.len() + dn.len() + ">"@.len());
        assert(dm.len() == dn.len());
        assert forall|i: int| 0 <= i < dm.len() implies dm[i] == dn[i] by {
            assert(bt_id_label(m)[head.len() + i] == dm[i]);
            assert(bt_id_label(n)[head.len() + i] == dn[i]);
        }
        assert(dm =~= dn);
        assert(false);
    }
}

/// Relies on std's String::push: appends exactly the one given character.
#[verifier::external_body]
fn push_char(s: &mut String, c: char)
    ensures
        final(s)@ == old(s)@.push(c),
{
    s.push(c);
}

/// The character for one decimal digit, as executable code.
fn digit_to_char(d: u64) -> (c: char)
    requires
        d < 10,
    ensures
        c == digit_char(d as nat),
{
    (48 + d as u8) as char
}

/// Append the decimal rendering of `n` to `out`.
fn push_decimal(n: u64, out: &mut String)
    ensures
        final(out)@ == old(out)@ + decimal_digits(n as nat),
    decreases n,
{
    if n < 10 {
        push_char(out, digit_to_char(n));
        proof {
            assert(out@ =~= old(out)@ + decimal_digits(n as nat));
        }
    } else {
        push_decimal(n / 10, out);
        push_char(out, digit_to_char(n % 10));
        proof {
            assert(out@ =~= old(out)@ + decimal_digits(n as nat));
        }
    }
}

/// Hand out the next debug identifier from a caller-scoped counter, in the
/// form `<node N>`. The counter saturates rather than wrapping, so earlier
/// identifiers are never reissued.
pub fn get_bt_id(next_id: &mut u64) -> (id: String)
    ensures
        id@ == bt_id_label(*old(next_id) as nat),
        *final(next_id) == (if *old(next_id) < u64::MAX {
            *old(next_id) + 1
        } else {
            *old(next_id) as int
        }),
{
    let mut id = String::from_str("<node ");
    push_decimal(*next_id, &mut id);
    push_char(&mut id, '>');
    if *next_id < u64::MAX {
        *next_id = *next_id + 1;
    }
    proof {
        reveal_strlit(">");
        assert(id@ =~= bt_id_label(*old(next_id) as nat));
    }
    id
}

} // verus!
