use vstd::prelude::*;
use vstd::string::StringExecFns;

verus! {

/// `n` tab characters.
pub open spec fn tabs(n: nat) -> Seq<char>
    decreases n,
{
    if n == 0 {
        Seq::empty()
    } else {
        tabs((n - 1) as nat).push('\t')
    }
}

/// What emitting `text` at depth `depth` appends to the listing: nothing
/// for an empty text, else a line break, one tab per level, and the text.
pub open spec fn line(depth: nat, text: Seq<char>) -> Seq<char> {
    if text.len() == 0 {
        Seq::empty()
    } else {
        seq!['\n'] + tabs(depth) + text
    }
}

pub open spec fn digit(d: nat) -> char {
    seq!['0', '1', '2', '3', '4', '5', '6', '7', '8', '9'][d as int]
}

/// Decimal digits of `n`, without sign or leading zeros.
pub open spec fn nat_text(n: nat) -> Seq<char>
    decreases n,
{
    if n < 10 {
        seq![digit(n)]
    } else {
        nat_text(n / 10).push(digit(n % 10))
    }
}

/// The text that `rust_decimal` prints for `mantissa * 10^(-scale)`.
pub uninterp spec fn decimal_text(mantissa: int, scale: nat) -> Seq<char>;

/// Relies on `ToString` for `usize` (its `Display`): the decimal digits of
/// `n`, without sign or leading zeros.
#[verifier::external_body]
pub(crate) fn usize_text(n: usize) -> (r: String)
    ensures
        r@ == nat_text(n as nat),
{
    n.to_string()
}

/// Relies on `rust_decimal::Decimal::new` (which panics on a scale over 28)
/// and the `Display` of `Decimal`: the printed form of the number.
#[verifier::external_body]
pub(crate) fn decimal_to_text(mantissa: i64, scale: u32) -> (r: String)
    requires
        scale <= 28,
    ensures
        r@ == decimal_text(mantissa as int, scale as nat),
{
    rust_decimal::Decimal::new(mantissa, scale).to_string()
}

/// Every text is a prefix of itself.
pub broadcast proof fn lemma_prefix_refl(a: Seq<char>)
    ensures
        #[trigger] a.is_prefix_of(a),
{
    assert(a =~= a.subrange(0, a.len() as int));
}

/// A prefix of a prefix is a prefix.
pub broadcast proof fn lemma_prefix_trans(a: Seq<char>, b: Seq<char>, c: Seq<char>)
    ensures
        #![trigger a.is_prefix_of(b), b.is_prefix_of(c)]
        a.is_prefix_of(b) && b.is_prefix_of(c) ==> a.is_prefix_of(c),
{
    if a.is_prefix_of(b) && b.is_prefix_of(c) {
        assert(a =~= c.subrange(0, a.len() as int)) by {
            assert forall|i: int| 0 <= i < a.len() implies a[i] == c.subrange(0, a.len() as int)[i] by {
                assert(a[i] == b.subrange(0, a.len() as int)[i]);
                assert(b[i] == c.subrange(0, b.len() as int)[i]);
            }
        }
    }
}

/// Appends one listing line (see `line`).
pub(crate) fn emit(out: &mut String, depth: usize, text: &str)
    ensures
        old(out)@.is_prefix_of(final(out)@),
        final(out)@ == old(out)@ + line(depth as nat, text@),
{
    if text.is_empty() {
        proof {
            assert(old(out)@ + line(depth as nat, text@) =~= old(out)@);
            assert(old(out)@ =~= out@.subrange(0, old(out)@.len() as int));
        }
        return;
    }
    out.append("\n");
    proof {
        reveal_strlit("\n");
        assert(out@ =~= old(out)@ + seq!['\n'] + tabs(0));
    }
    let mut i: usize = 0;
    while i < depth
        invariant
            i <= depth,
            out@ == old(out)@ + seq!['\n'] + tabs(i as nat),
        decreases depth - i,
    {
        out.append("\t");
        proof {
            reveal_strlit("\t");
            assert(out@ =~= old(out)@ + seq!['\n'] + tabs((i + 1) as nat));
        }
        i = i + 1;
    }
    out.append(text);
    proof {
        assert(out@ =~= old(out)@ + line(depth as nat, text@));
        assert(old(out)@ =~= out@.subrange(0, old(out)@.len() as int));
    }
}

/// Appends a line made of `text` followed by the decimal digits of `n`.
pub(crate) fn emit_num(out: &mut String, depth: usize, text: &str, n: usize)
    ensures
        old(out)@.is_prefix_of(final(out)@),
        final(out)@ == old(out)@ + line(depth as nat, text@ + nat_text(n as nat)),
{
    let mut s = String::from_str(text);
    let d = usize_text(n);
    s.append(d.as_str());
    emit(out, depth, s.as_str());
}

/// Appends a line made of `a`, the digits of `n`, then `b`.
pub(crate) fn emit_num_mid(out: &mut String, depth: usize, a: &str, n: usize, b: &str)
    ensures
        old(out)@.is_prefix_of(final(out)@),
        final(out)@ == old(out)@ + line(depth as nat, a@ + nat_text(n as nat) + b@),
{
    let mut s = String::from_str(a);
    let d = usize_text(n);
    s.append(d.as_str());
    s.append(b);
    emit(out, depth, s.as_str());
}

/// Appends a line made of `a`, `b`, then `c`.
pub(crate) fn emit3(out: &mut String, depth: usize, a: &str, b: &str, c: &str)
    ensures
        old(out)@.is_prefix_of(final(out)@),
        final(out)@ == old(out)@ + line(depth as nat, a@ + b@ + c@),
{
    let mut s = String::from_str(a);
    s.append(b);
    s.append(c);
    emit(out, depth, s.as_str());
}

} // verus!
