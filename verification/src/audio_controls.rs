//! Text helpers of the player's control bar.
use vstd::prelude::*;
use crate::text::{chars_of, string_of};

verus! {

/// `s` shortened to at most `max` characters: kept whole when it fits, cut
/// to its first `max` characters when `max` is below 8, else its start and
/// end around an ellipsis, the start getting the smaller half.
pub open spec fn elided(s: Seq<char>, max: nat) -> Seq<char> {
    if s.len() <= max {
        s
    } else if max < 8 {
        s.take(max as int)
    } else {
        let keep = max - 1;
        let head = keep / 2;
        let tail = keep - head;
        s.take(head) + seq!['\u{2026}'] + s.skip(s.len() - tail)
    }
}

/// A title shortened to fit the control bar (see `elided`).
pub fn elide_middle(s: &str, max_chars: usize) -> (r: String)
    ensures
        r@ == elided(s@, max_chars as nat),
        r@.len() <= max_chars || s@.len() <= max_chars,
{
    let cs = chars_of(s);
    let count = cs.len();
    if count <= max_chars {
        return s.to_string();
    }
    let mut out: Vec<char> = Vec::new();
    if max_chars < 8 {
        let mut i: usize = 0;
        while i < max_chars
            invariant
                i <= max_chars < count,
                count == cs@.len(),
                out@ == cs@.take(i as int),
            decreases max_chars - i,
        {
            out.push(cs[i]);
            i += 1;
            assert(out@ =~= cs@.take(i as int));
        }
        return string_of(&out);
    }
    let keep = max_chars - 1;
    let head = keep / 2;
    let tail = keep - head;
    let mut i: usize = 0;
    while i < head
        invariant
            i <= head < count,
            count == cs@.len(),
            out@ == cs@.take(i as int),
        decreases head - i,
    {
        out.push(cs[i]);
        i += 1;
        assert(out@ =~= cs@.take(i as int));
    }
    out.push('\u{2026}');
    let start = count - tail;
    let mut j: usize = start;
    let ghost front = out@;
    while j < count
        invariant
            start <= j <= count,
            count == cs@.len(),
            out@ == front + cs@.subrange(start as int, j as int),
        decreases count - j,
    {
        out.push(cs[j]);
        j += 1;
        assert(out@ =~= front + cs@.subrange(start as int, j as int));
    }
    assert(cs@.subrange(start as int, count as int) =~= cs@.skip(start as int));
    string_of(&out)
}

/// A shortened title never has more than `max` characters, and is the whole
/// title when that fits. A title that does not fit gets exactly `max`
/// characters: under 8 its first `max` ones; otherwise a beginning of the
/// title, an ellipsis, and an end of the title, the beginning no longer
/// than the end and at most one shorter.
pub proof fn law_elided_shape(s: Seq<char>, max: nat)
    ensures
        s.len() <= max ==> elided(s, max) == s,
        s.len() > max ==> elided(s, max).len() == max,
        s.len() > max && max < 8 ==> elided(s, max) == s.take(max as int),
        s.len() > max && max >= 8 ==> exists|h: int|
            #![trigger elided(s, max).take(h)]
            0 <= h && h + h <= max - 1 <= h + h + 1 && elided(s, max)[h] == '\u{2026}' && elided(s, max).take(h) == s.take(h)
                && elided(s, max).skip(h + 1) == s.skip(s.len() - (max - 1 - h)),
{
    if s.len() > max && max >= 8 {
        let keep = (max - 1) as nat;
        let head = keep / 2;
        let tail = keep - head;
        let e = elided(s, max);
        assert(e.take(head as int) =~= s.take(head as int));
        assert(e.skip(head + 1int) =~= s.skip(s.len() - tail));
        assert(e[head as int] == '\u{2026}');
    }
}

} // verus!
