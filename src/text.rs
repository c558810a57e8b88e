//! Small string building blocks: repetition and centring.
use vstd::prelude::*;
use vstd::string::StringExecFns;
use vstd::string::StrSliceExecFns;

verus! {

/// `unit` written `n` times in a row.
pub open spec fn repeat(unit: Seq<char>, n: nat) -> Seq<char>
    decreases n,
{
    if n == 0 {
        Seq::empty()
    } else {
        repeat(unit, (n - 1) as nat) + unit
    }
}

/// `label` centred in a line of `width` characters, padded with `fill`.
/// Where the padding is odd the extra character goes to the right; a label that
/// is already as wide as `width` is left as it is.
pub open spec fn centered(label: Seq<char>, width: nat, fill: Seq<char>) -> Seq<char> {
    if label.len() >= width {
        label
    } else {
        let pad = (width - label.len()) as nat;
        repeat(fill, pad / 2) + label + repeat(fill, (pad - pad / 2) as nat)
    }
}

/// Appends `unit` to `out` `n` times.
pub fn push_repeated(out: &mut String, unit: &str, n: usize)
    ensures
        final(out)@ == old(out)@ + repeat(unit@, n as nat),
{
    let mut i: usize = 0;
    while i < n
        invariant
            i <= n,
            out@ == old(out)@ + repeat(unit@, i as nat),
        decreases n - i,
    {
        out.append(unit);
        i = i + 1;
        assert(repeat(unit@, i as nat) == repeat(unit@, (i - 1) as nat) + unit@);
        assert(out@ =~= old(out)@ + repeat(unit@, i as nat));
    }
}

/// `label` centred in a line of `width` characters, padded with copies of `fill`
/// (as `format!("{:-^80}", label)` does for a one-character fill).
pub fn center(label: &str, width: usize, fill: &str) -> (r: String)
    ensures
        r@ == centered(label@, width as nat, fill@),
{
    let len = label.unicode_len();
    let mut r = String::new();
    if len >= width {
        r.append(label);
        assert(r@ =~= label@);
    } else {
        let pad = width - len;
        push_repeated(&mut r, fill, pad / 2);
        r.append(label);
        push_repeated(&mut r, fill, pad - pad / 2);
        assert(r@ =~= centered(label@, width as nat, fill@));
    }
    r
}

proof fn lemma_repeat_char(c: char, n: nat)
    ensures
        repeat(seq![c], n).len() == n,
        forall|i: int| 0 <= i < n ==> #[trigger] repeat(seq![c], n)[i] == c,
    decreases n,
{
    if n > 0 {
        lemma_repeat_char(c, (n - 1) as nat);
    }
}

/// A label no wider than the line sits in the middle of it: as many fill characters
/// on its left as on its right, or one more on the right, and the line is exactly
/// `width` characters long.
pub proof fn lemma_centered(label: Seq<char>, width: nat, fill: char)
    requires
        label.len() <= width,
    ensures
        ({
            let r = centered(label, width, seq![fill]);
            let left = (width - label.len()) / 2;
            let right = width - label.len() - left;
            &&& r.len() == width
            &&& r.subrange(left, left + label.len()) == label
            &&& forall|i: int| 0 <= i < left ==> #[trigger] r[i] == fill
            &&& forall|i: int| left + label.len() <= i < width ==> #[trigger] r[i] == fill
            &&& right == left || right == left + 1
        }),
{
    let pad = (width - label.len()) as nat;
    lemma_repeat_char(fill, pad / 2);
    lemma_repeat_char(fill, (pad - pad / 2) as nat);
    let r = centered(label, width, seq![fill]);
    let left = pad / 2;
    if label.len() == width {
        assert(r == label);
        assert(r.subrange(0, label.len() as int) =~= label);
    } else {
        assert(r == repeat(seq![fill], left) + label + repeat(seq![fill], (pad - left) as nat));
        assert(r.subrange(left as int, (left + label.len()) as int) =~= label);
        assert forall|i: int| left + label.len() <= i < width implies #[trigger] r[i] == fill by {
            assert(r[i] == repeat(seq![fill], (pad - left) as nat)[i - left - label.len()]);
        }
    }
}

} // verus!
