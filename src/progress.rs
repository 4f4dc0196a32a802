//! A textual progress bar written in place into a fixed-length buffer of
//! characters: `[=====     ]`.

use vstd::prelude::*;

verus! {

/// Why a bar could not be drawn.
#[derive(Debug, Clone, Copy, PartialEq, Eq, Structural)]
pub enum ProgressBarError {
    /// The buffer has no room for both delimiters.
    BufferTooShort,
    /// The percentage is above 100.
    FractionOutOfRange,
}

/// The character that marks a filled position.
pub const FILL: char = '=';

/// The number of interior positions, counted from position one, that a bar
/// of `len` characters shows as filled at `frac` percent.
pub open spec fn fill_count(len: nat, frac: nat) -> int {
    (len - 2) * frac / 100
}

/// The bar drawn over the characters `prev` at `frac` percent: the
/// delimiters at both ends, the fill character at each interior position up
/// to the fill count, and `prev` unchanged elsewhere.
pub open spec fn progress_bar(prev: Seq<char>, open: char, close: char, frac: nat) -> Seq<char> {
    Seq::new(
        prev.len(),
        |i: int|
            if i == 0 {
                open
            } else if i == prev.len() - 1 {
                close
            } else if i <= fill_count(prev.len(), frac) {
                FILL
            } else {
                prev[i]
            },
    )
}

/// Draws a bar at `frac` percent into `buf`, between the delimiters
/// `delims.0` and `delims.1`. Positions past the fill count keep what they
/// held. A buffer shorter than two characters, or a percentage above 100, is
/// refused and the buffer is left as it was.
pub fn fill_progress_bar(buf: &mut Vec<char>, delims: (&char, &char), frac: usize) -> (r: Result<
    (),
    ProgressBarError,
>)
    ensures
        old(buf)@.len() < 2 ==> r == Err::<(), ProgressBarError>(
            ProgressBarError::BufferTooShort,
        ),
        old(buf)@.len() >= 2 && frac > 100 ==> r == Err::<(), ProgressBarError>(
            ProgressBarError::FractionOutOfRange,
        ),
        old(buf)@.len() >= 2 && frac <= 100 ==> r is Ok,
        r is Ok ==> final(buf)@ == progress_bar(old(buf)@, *delims.0, *delims.1, frac as nat),
        r is Err ==> final(buf)@ == old(buf)@,
{
    let ll = buf.len();
    if ll < 2 {
        return Err(ProgressBarError::BufferTooShort);
    }
    if frac > 100 {
        return Err(ProgressBarError::FractionOutOfRange);
    }
    let interior: u128 = (ll - 2) as u128;
    let pct: u128 = frac as u128;
    assert(interior * pct <= 100 * 0x1_0000_0000_0000_0000) by (nonlinear_arith)
        requires
            interior <= 0xffff_ffff_ffff_ffff,
            pct <= 100,
    ;
    let tofill: u128 = interior * pct / 100;
    assert(tofill == fill_count(ll as nat, frac as nat));
    let ghost prev = buf@;
    let ghost bar = progress_bar(prev, *delims.0, *delims.1, frac as nat);
    let mut ii: usize = 0;
    while ii < ll
        invariant
            ll == prev.len(),
            ll >= 2,
            tofill == fill_count(ll as nat, frac as nat),
            bar == progress_bar(prev, *delims.0, *delims.1, frac as nat),
            buf@.len() == ll,
            ii <= ll,
            forall|k: int| 0 <= k < ii ==> buf@[k] == bar[k],
            forall|k: int| ii <= k < ll ==> buf@[k] == prev[k],
        decreases ll - ii,
    {
        if ii == 0 {
            buf.set(ii, *delims.0);
        } else if ii == ll - 1 {
            buf.set(ii, *delims.1);
        } else if (ii as u128) <= tofill {
            buf.set(ii, FILL);
        }
        ii += 1;
    }
    assert(buf@ =~= bar);
    Ok(())
}

/// At zero percent only the two delimiters are written: every interior
/// position keeps what the buffer held.
pub proof fn lemma_empty_bar_keeps_interior(prev: Seq<char>, open: char, close: char)
    requires
        prev.len() >= 2,
    ensures
        progress_bar(prev, open, close, 0).len() == prev.len(),
        progress_bar(prev, open, close, 0)[0] == open,
        progress_bar(prev, open, close, 0)[prev.len() - 1] == close,
        forall|i: int|
            0 < i < prev.len() - 1 ==> #[trigger] progress_bar(prev, open, close, 0)[i] == prev[i],
{
}

/// At one hundred percent every interior position is filled.
pub proof fn lemma_full_bar_fills_interior(prev: Seq<char>, open: char, close: char)
    requires
        prev.len() >= 2,
    ensures
        progress_bar(prev, open, close, 100).len() == prev.len(),
        progress_bar(prev, open, close, 100)[0] == open,
        progress_bar(prev, open, close, 100)[prev.len() - 1] == close,
        forall|i: int|
            0 < i < prev.len() - 1 ==> #[trigger] progress_bar(prev, open, close, 100)[i] == FILL,
{
    assert(fill_count(prev.len(), 100) == prev.len() - 2);
}

} // verus!
