use vstd::prelude::*;
use vstd::string::*;

verus! {

/// How many more vertices each blob of a scene has than the one before it.
pub const VERTEX_STEP: usize = 10;

/// A full turn of hue, in degrees.
pub const FULL_HUE: usize = 360;

/// The configuration of one blob of a scene: its vertex count and the hue of its fill.
#[derive(Clone, Copy, Debug, PartialEq, Eq, Structural)]
pub struct Entry {
    pub vertex_count: usize,
    pub hue: usize,
}

/// The configuration of blob `i` of a scene of `count` blobs. The hue is rounded down
/// to a whole degree, so neighbouring blobs may share it.
pub open spec fn entry_spec(i: nat, count: nat) -> Entry {
    Entry { vertex_count: (i * VERTEX_STEP) as usize, hue: ((i * FULL_HUE) as int / count as int) as usize }
}

/// The configurations of the blobs of a scene of `count` blobs: blob `i` has
/// `10 * i` vertices (so the first is empty) and hue `360 * i / count`, rounded down.
pub fn scene_entries(count: usize) -> (r: Vec<Entry>)
    requires
        count * FULL_HUE <= usize::MAX,
    ensures
        r@.len() == count,
        forall|i: int| 0 <= i < count ==> #[trigger] r@[i] == entry_spec(i as nat, count as nat),
{
    let mut r: Vec<Entry> = Vec::new();
    let mut i: usize = 0;
    while i < count
        invariant
            i <= count,
            count * FULL_HUE <= usize::MAX,
            r@.len() == i,
            forall|j: int| 0 <= j < i ==> #[trigger] r@[j] == entry_spec(j as nat, count as nat),
        decreases count - i,
    {
        proof {
            vstd::arithmetic::mul::lemma_mul_inequality(i as int, count as int, FULL_HUE as int);
            vstd::arithmetic::mul::lemma_mul_inequality(i as int, count as int, VERTEX_STEP as int);
        }
        let e = Entry { vertex_count: i * VERTEX_STEP, hue: i * FULL_HUE / count };
        r.push(e);
        i += 1;
    }
    r
}

/// The decimal digits of `n`, most significant first, without leading zeros.
pub open spec fn decimal(n: nat) -> Seq<char>
    decreases n,
{
    if n < 10 {
        seq![digit(n)]
    } else {
        decimal(n / 10) + seq![digit(n % 10)]
    }
}

/// The character of a decimal digit.
pub open spec fn digit(d: nat) -> char {
    if d == 0 { '0' }
    else if d == 1 { '1' }
    else if d == 2 { '2' }
    else if d == 3 { '3' }
    else if d == 4 { '4' }
    else if d == 5 { '5' }
    else if d == 6 { '6' }
    else if d == 7 { '7' }
    else if d == 8 { '8' }
    else { '9' }
}

fn digit_str(d: usize) -> (r: &'static str)
    requires
        d < 10,
    ensures
        r@ == seq![digit(d as nat)],
{
    proof {
        reveal_strlit("0");
        reveal_strlit("1");
        reveal_strlit("2");
        reveal_strlit("3");
        reveal_strlit("4");
        reveal_strlit("5");
        reveal_strlit("6");
        reveal_strlit("7");
        reveal_strlit("8");
        reveal_strlit("9");
    }
    if d == 0 { "0" }
    else if d == 1 { "1" }
    else if d == 2 { "2" }
    else if d == 3 { "3" }
    else if d == 4 { "4" }
    else if d == 5 { "5" }
    else if d == 6 { "6" }
    else if d == 7 { "7" }
    else if d == 8 { "8" }
    else { "9" }
}

/// Appends the decimal digits of `n` to `s`.
fn push_decimal(s: &mut String, n: usize)
    ensures
        final(s)@ == old(s)@ + decimal(n as nat),
    decreases n,
{
    if n < 10 {
        s.append(digit_str(n));
    } else {
        push_decimal(s, n / 10);
        s.append(digit_str(n % 10));
    }
}

/// The fill of a blob of hue `hue`: `hsla(<hue>,80%,50%,0.05)`, a faint, saturated colour.
pub open spec fn fill_text(hue: nat) -> Seq<char> {
    seq!['h', 's', 'l', 'a', '('] + decimal(hue) + ",80%,50%,0.05)"@
}

/// The fill colour of a blob of hue `hue`, as a CSS colour.
pub fn fill_color(hue: usize) -> (r: String)
    ensures
        r@ == fill_text(hue as nat),
{
    proof {
        reveal_strlit("hsla(");
    }
    let mut s = String::from_str("hsla(");
    push_decimal(&mut s, hue);
    s.append(",80%,50%,0.05)");
    s
}

} // verus!
