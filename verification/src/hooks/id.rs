//! Stable identifiers.
use crate::fiber_tree::{same_except_fiber, FiberTree};
use vstd::prelude::*;

verus! {

/// The decimal digit of a number below ten.
pub open spec fn digit(n: nat) -> char {
    if n == 0 { '0' }
    else if n == 1 { '1' }
    else if n == 2 { '2' }
    else if n == 3 { '3' }
    else if n == 4 { '4' }
    else if n == 5 { '5' }
    else if n == 6 { '6' }
    else if n == 7 { '7' }
    else if n == 8 { '8' }
    else { '9' }
}

/// The decimal notation of a number, without leading zeros.
pub open spec fn decimal(n: nat) -> Seq<char>
    decreases n,
{
    if n < 10 {
        seq![digit(n)]
    } else {
        decimal(n / 10).push(digit(n % 10))
    }
}

/// The identifier of a hook: `:r`, the fiber number, `h`, the hook index,
/// and `:`.
pub open spec fn hook_id_text(fiber: nat, hook: nat) -> Seq<char> {
    seq![':', 'r'] + decimal(fiber) + seq!['h'] + decimal(hook) + seq![':']
}

/// A decimal notation is not empty and holds only digits, none of them `h`
/// or `:`.
proof fn lemma_decimal_chars(n: nat)
    ensures
        decimal(n).len() >= 1,
        n >= 10 ==> decimal(n).len() >= 2,
        forall|i: int| 0 <= i < decimal(n).len() ==> #[trigger] decimal(n)[i] != 'h' && decimal(n)[i] != ':',
    decreases n,
{
    if n >= 10 {
        lemma_decimal_chars(n / 10);
    }
}

/// Distinct numbers below ten have distinct digits.
proof fn lemma_digit_injective(x: nat, y: nat)
    requires
        x < 10,
        y < 10,
        digit(x) == digit(y),
    ensures
        x == y,
{
}

/// Distinct numbers have distinct decimal notations.
proof fn lemma_decimal_injective(a: nat, b: nat)
    requires
        decimal(a) == decimal(b),
    ensures
        a == b,
    decreases a,
{
    lemma_decimal_chars(a);
    lemma_decimal_chars(b);
    if a < 10 && b < 10 {
        assert(decimal(a)[0] == digit(a));
        assert(decimal(b)[0] == digit(b));
        lemma_digit_injective(a, b);
    } else if a >= 10 && b >= 10 {
        assert(decimal(a).drop_last() =~= decimal(a / 10));
        assert(decimal(b).drop_last() =~= decimal(b / 10));
        lemma_decimal_injective(a / 10, b / 10);
        assert(decimal(a).last() == digit(a % 10));
        assert(decimal(b).last() == digit(b % 10));
        lemma_digit_injective(a % 10, b % 10);
        vstd::arithmetic::div_mod::lemma_fundamental_div_mod(a as int, 10);
        vstd::arithmetic::div_mod::lemma_fundamental_div_mod(b as int, 10);
    }
}

/// Two hooks get the same identifier only when they are the same hook of
/// the same fiber: identifiers of distinct hooks differ.
pub proof fn lemma_hook_id_unique(fiber1: nat, hook1: nat, fiber2: nat, hook2: nat)
    requires
        hook_id_text(fiber1, hook1) == hook_id_text(fiber2, hook2),
    ensures
        fiber1 == fiber2,
        hook1 == hook2,
{
    let t = hook_id_text(fiber1, hook1);
    let d1 = decimal(fiber1);
    let d2 = decimal(fiber2);
    let e1 = decimal(hook1);
    let e2 = decimal(hook2);
    lemma_decimal_chars(fiber1);
    lemma_decimal_chars(fiber2);
    lemma_decimal_chars(hook1);
    lemma_decimal_chars(hook2);
    assert(t =~= seq![':', 'r'] + d1 + seq!['h'] + e1 + seq![':']);
    assert(t =~= seq![':', 'r'] + d2 + seq!['h'] + e2 + seq![':']);
    let n1 = d1.len() as int;
    let n2 = d2.len() as int;
    assert(t[2 + n1] == 'h');
    assert(t[2 + n2] == 'h');
    if d1.len() < d2.len() {
        assert(t[2 + n1] == d2[n1]);
    }
    if d2.len() < d1.len() {
        assert(t[2 + n2] == d1[n2]);
    }
    assert(d1.len() == d2.len());
    assert(d1 =~= t.subrange(2, 2 + n1));
    assert(d2 =~= t.subrange(2, 2 + n2));
    lemma_decimal_injective(fiber1, fiber2);
    assert(e1 =~= t.subrange(3 + n1, t.len() - 1));
    assert(e2 =~= t.subrange(3 + n2, t.len() - 1));
    lemma_decimal_injective(hook1, hook2);
}

/// The digit character of a number below ten.
fn digit_char(d: u64) -> (c: char)
    requires
        d < 10,
    ensures
        c == digit(d as nat),
{
    if d == 0 { '0' }
    else if d == 1 { '1' }
    else if d == 2 { '2' }
    else if d == 3 { '3' }
    else if d == 4 { '4' }
    else if d == 5 { '5' }
    else if d == 6 { '6' }
    else if d == 7 { '7' }
    else if d == 8 { '8' }
    else { '9' }
}

/// Append the decimal notation of `n`.
fn push_decimal(out: &mut Vec<char>, n: u64)
    ensures
        final(out)@ == old(out)@ + decimal(n as nat),
    decreases n,
{
    if n >= 10 {
        push_decimal(out, n / 10);
    }
    let c = digit_char(n % 10);
    out.push(c);
    proof {
        if n >= 10 {
            assert(decimal(n as nat) == decimal((n / 10) as nat).push(digit((n % 10) as nat)));
        } else {
            assert(decimal(n as nat) == seq![digit(n as nat)]);
        }
        assert(final(out)@ =~= old(out)@ + decimal(n as nat));
    }
}

/// The identifier of hook `hook` of fiber `fiber`: `:r`, the fiber number,
/// `h`, the hook index, and `:`, the numbers in decimal.
fn hook_id(fiber: u64, hook: usize) -> (r: String)
    ensures
        r@ == hook_id_text(fiber as nat, hook as nat),
{
    let mut v: Vec<char> = Vec::new();
    v.push(':');
    v.push('r');
    push_decimal(&mut v, fiber);
    v.push('h');
    push_decimal(&mut v, hook as u64);
    v.push(':');
    proof {
        assert(v@ =~= hook_id_text(fiber as nat, hook as nat));
    }
    crate::text::string_from_chars(&v)
}

/// An identifier that is unique to this hook and stable across renders.
pub fn use_id(tree: &mut FiberTree) -> (r: String)
    requires
        old(tree).wf(),
        old(tree).hook_room(1),
    ensures
        final(tree).wf(),
        same_except_fiber(*old(tree), *final(tree), old(tree).current().unwrap()),
        old(tree).fibers@[old(tree).current().unwrap().0].existing_hook::<String>(
            old(tree).current_hook_index() as int,
        ) is Some ==> r == old(tree).fibers@[old(tree).current().unwrap().0].existing_hook::<
            String,
        >(old(tree).current_hook_index() as int)->0,
        old(tree).fibers@[old(tree).current().unwrap().0].existing_hook::<String>(
            old(tree).current_hook_index() as int,
        ) is None ==> r@ == hook_id_text(
            old(tree).current().unwrap().0 as nat,
            old(tree).current_hook_index() as nat,
        ),
        final(tree).fibers@[old(tree).current().unwrap().0].hook_value::<String>(
            old(tree).current_hook_index() as int,
        ) == Some(r),
        final(tree).fibers@[old(tree).current().unwrap().0].hook_index == old(tree).current_hook_index()
            + 1,
{
    let (id, idx) = tree.next_hook_untracked();
    let existing: Option<String> = tree.get(id).unwrap().get_hook(idx);
    match existing {
        Some(s) => {
            let r = tree.hook_get_or_insert(id, idx, s);
            r
        },
        None => {
            let text = hook_id(id.0, idx);
            let r = tree.hook_get_or_insert(id, idx, text);
            r
        },
    }
}

} // verus!
