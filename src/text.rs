//! Character-level text handling for sentences: comma-separated tokens and
//! trimming of white space.
use vstd::prelude::*;

verus! {

/// Characters with the Unicode White_Space property, the set that
/// `char::is_whitespace` and `str::trim` use.
pub open spec fn is_white_space(c: char) -> bool {
    let u = c as u32;
    (0x09 <= u && u <= 0x0D) || u == 0x20 || u == 0x85 || u == 0xA0 || u == 0x1680 || (0x2000 <= u
        && u <= 0x200A) || u == 0x2028 || u == 0x2029 || u == 0x202F || u == 0x205F || u == 0x3000
}

pub fn is_white_space_char(c: char) -> (r: bool)
    ensures
        r == is_white_space(c),
{
    let u = c as u32;
    (0x09 <= u && u <= 0x0D) || u == 0x20 || u == 0x85 || u == 0xA0 || u == 0x1680 || (0x2000 <= u
        && u <= 0x200A) || u == 0x2028 || u == 0x2029 || u == 0x202F || u == 0x205F || u == 0x3000
}

/// The tokens between commas, as `str::split(',')` yields them: one more
/// token than there are commas, empty ones included.
pub open spec fn split_commas(s: Seq<char>) -> Seq<Seq<char>>
    decreases s.len(),
{
    if s.len() == 0 {
        seq![Seq::empty()]
    } else {
        let prev = split_commas(s.drop_last());
        if s.last() == ',' {
            prev.push(Seq::empty())
        } else {
            prev.update(prev.len() - 1, prev.last().push(s.last()))
        }
    }
}

/// Tokens joined back with a comma between each two.
pub open spec fn join_commas(ts: Seq<Seq<char>>) -> Seq<char>
    decreases ts.len(),
{
    if ts.len() <= 1 {
        if ts.len() == 1 {
            ts[0]
        } else {
            Seq::empty()
        }
    } else {
        join_commas(ts.drop_last()) + seq![','] + ts.last()
    }
}

/// `t` without its leading white space.
pub open spec fn trim_start(t: Seq<char>) -> Seq<char>
    decreases t.len(),
{
    if t.len() > 0 && is_white_space(t[0]) {
        trim_start(t.drop_first())
    } else {
        t
    }
}

/// `t` without its trailing white space.
pub open spec fn trim_end(t: Seq<char>) -> Seq<char>
    decreases t.len(),
{
    if t.len() > 0 && is_white_space(t.last()) {
        trim_end(t.drop_last())
    } else {
        t
    }
}

/// `t` without white space at either end, as `str::trim` gives it.
pub open spec fn trim(t: Seq<char>) -> Seq<char> {
    trim_end(trim_start(t))
}

/// There is always at least one token.
pub proof fn lemma_split_commas_len(s: Seq<char>)
    ensures
        split_commas(s).len() >= 1,
    decreases s.len(),
{
    if s.len() > 0 {
        lemma_split_commas_len(s.drop_last());
    }
}

/// Joining the tokens gives back the text.
pub proof fn lemma_join_split(s: Seq<char>)
    ensures
        join_commas(split_commas(s)) == s,
    decreases s.len(),
{
    if s.len() > 0 {
        let prev = split_commas(s.drop_last());
        lemma_join_split(s.drop_last());
        lemma_split_commas_len(s.drop_last());
        if s.last() == ',' {
            assert(split_commas(s).drop_last() =~= prev);
            assert(s =~= s.drop_last() + seq![','] + Seq::<char>::empty());
        } else {
            let ts = split_commas(s);
            if prev.len() == 1 {
                assert(ts[0] =~= s);
            } else {
                assert(ts.drop_last() =~= prev.drop_last());
                assert(join_commas(prev) == join_commas(prev.drop_last()) + seq![','] + prev.last());
                assert(s =~= s.drop_last().push(s.last()));
                assert(s =~= join_commas(prev.drop_last()) + seq![','] + prev.last().push(s.last()));
            }
        }
    }
}

/// The characters of `text`, in order.
pub fn chars_of(text: &str) -> (r: Vec<char>)
    ensures
        r@ == text@,
{
    let mut v: Vec<char> = Vec::new();
    for c in it: text.chars()
        invariant
            v@ == it.seq().take(it.index() as int),
            it.seq() == text@,
    {
        v.push(c);
    }
    v
}

/// Start and end of each comma-separated token of `cs`.
pub fn token_spans(cs: &Vec<char>) -> (r: Vec<(usize, usize)>)
    ensures
        r@.len() == split_commas(cs@).len(),
        forall|j: int| 0 <= j < r@.len() ==> (#[trigger] r@[j]).0 <= r@[j].1 <= cs@.len(),
        forall|j: int|
            0 <= j < r@.len() ==> #[trigger] split_commas(cs@)[j] == cs@.subrange(
                r@[j].0 as int,
                r@[j].1 as int,
            ),
{
    let mut spans: Vec<(usize, usize)> = Vec::new();
    let mut start: usize = 0;
    let mut i: usize = 0;
    proof {
        assert(cs@.take(0) =~= Seq::<char>::empty());
    }
    while i < cs.len()
        invariant
            i <= cs@.len(),
            start <= i,
            split_commas(cs@.take(i as int)).len() == spans@.len() + 1,
            forall|j: int| 0 <= j < spans@.len() ==> (#[trigger] spans@[j]).0 <= spans@[j].1 <= i,
            forall|j: int|
                0 <= j < spans@.len() ==> #[trigger] split_commas(cs@.take(i as int))[j]
                    == cs@.subrange(spans@[j].0 as int, spans@[j].1 as int),
            split_commas(cs@.take(i as int))[spans@.len() as int] == cs@.subrange(start as int, i as int),
        decreases cs@.len() - i,
    {
        let ghost prev = split_commas(cs@.take(i as int));
        let ghost old_spans = spans@;
        if cs[i] == ',' {
            spans.push((start, i));
            start = i + 1;
        }
        i += 1;
        proof {
            let next = split_commas(cs@.take(i as int));
            assert(cs@.take(i as int).drop_last() =~= cs@.take(i - 1));
            assert(cs@.take(i as int).last() == cs@[i - 1]);
            assert(cs@.subrange(start as int, i as int) =~= if cs@[i - 1] == ',' {
                Seq::<char>::empty()
            } else {
                cs@.subrange(start as int, i - 1).push(cs@[i - 1])
            });
            assert forall|j: int| 0 <= j < spans@.len() implies {
                &&& spans@[j].0 <= spans@[j].1 <= i
                &&& #[trigger] next[j] == cs@.subrange(spans@[j].0 as int, spans@[j].1 as int)
            } by {
                assert(next[j] == prev[j]);
                if j < old_spans.len() {
                    assert(spans@[j] == old_spans[j]);
                }
            }
        }
    }
    let ghost last = spans@.len();
    let ghost old_spans = spans@;
    spans.push((start, i));
    proof {
        assert(cs@.take(i as int) =~= cs@);
        assert forall|j: int| 0 <= j < spans@.len() implies {
            &&& spans@[j].0 <= spans@[j].1 <= cs@.len()
            &&& #[trigger] split_commas(cs@)[j] == cs@.subrange(spans@[j].0 as int, spans@[j].1 as int)
        } by {
            if j < last {
                assert(spans@[j] == old_spans[j]);
                assert(split_commas(cs@.take(i as int))[j] == split_commas(cs@)[j]);
            }
        }
    }
    spans
}

/// Narrows `[start, end)` of `cs` to its trimmed part.
pub fn trim_span(cs: &Vec<char>, start: usize, end: usize) -> (r: (usize, usize))
    requires
        start <= end <= cs@.len(),
    ensures
        start <= r.0 <= r.1 <= end,
        cs@.subrange(r.0 as int, r.1 as int) == trim(cs@.subrange(start as int, end as int)),
{
    let mut a = start;
    while a < end && is_white_space_char(cs[a])
        invariant
            start <= a <= end <= cs@.len(),
            trim_start(cs@.subrange(start as int, end as int)) == trim_start(
                cs@.subrange(a as int, end as int),
            ),
        decreases end - a,
    {
        assert(cs@.subrange(a as int, end as int).drop_first() =~= cs@.subrange(a + 1, end as int));
        a += 1;
    }
    assert(trim_start(cs@.subrange(a as int, end as int)) == cs@.subrange(a as int, end as int));
    let mut b = end;
    while b > a && is_white_space_char(cs[b - 1])
        invariant
            start <= a <= b <= end <= cs@.len(),
            trim_end(cs@.subrange(a as int, end as int)) == trim_end(cs@.subrange(a as int, b as int)),
        decreases b - a,
    {
        assert(cs@.subrange(a as int, b as int).drop_last() =~= cs@.subrange(a as int, b - 1));
        b -= 1;
    }
    (a, b)
}

} // verus!
