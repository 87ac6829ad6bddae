use vstd::prelude::*;
use vstd::string::StrSliceExecFns;
use vstd::string::StringExecFns;

verus! {

/// `s` contains no '.' separator.
pub open spec fn dot_free(s: Seq<char>) -> bool {
    forall|i: int| 0 <= i < s.len() ==> #[trigger] s[i] != '.'
}

/// Index of the first '.' in `s`, or `s.len()` if there is none.
pub open spec fn first_dot(s: Seq<char>) -> int
    decreases s.len(),
{
    if s.len() == 0 {
        0
    } else if s[0] == '.' {
        0
    } else {
        1 + first_dot(s.skip(1))
    }
}

pub proof fn lemma_first_dot_bounds(s: Seq<char>)
    ensures
        0 <= first_dot(s) <= s.len(),
    decreases s.len(),
{
    if s.len() == 0 {
    } else if s[0] == '.' {
    } else {
        lemma_first_dot_bounds(s.skip(1));
    }
}

/// `first_dot` is pinned down by a dot-free prefix followed by either
/// a '.' or the end of the sequence.
pub proof fn lemma_first_dot_at(s: Seq<char>, m: int)
    requires
        0 <= m <= s.len(),
        forall|j: int| 0 <= j < m ==> #[trigger] s[j] != '.',
        m == s.len() || s[m] == '.',
    ensures
        first_dot(s) == m,
    decreases s.len(),
{
    if s.len() == 0 {
    } else if m == 0 {
    } else {
        assert(s[0] != '.');
        let t = s.skip(1);
        assert(forall|j: int| 0 <= j < m - 1 ==> #[trigger] t[j] != '.') by {
            assert(forall|j: int| 0 <= j < m - 1 ==> #[trigger] t[j] == s[j + 1]);
        }
        if m < s.len() {
            assert(t[m - 1] == s[m]);
        }
        lemma_first_dot_at(t, m - 1);
    }
}

/// The segments of `s` between occurrences of '.', in order. A
/// sequence with no '.' is the single segment of itself; each '.'
/// separates two (possibly empty) segments.
pub open spec fn split_dots(s: Seq<char>) -> Seq<Seq<char>>
    decreases s.len(),
    via split_dots_decreases
{
    let i = first_dot(s);
    if i == s.len() {
        seq![s]
    } else {
        seq![s.take(i)] + split_dots(s.skip(i + 1))
    }
}

#[via_fn]
proof fn split_dots_decreases(s: Seq<char>) {
    lemma_first_dot_bounds(s);
}

/// Splitting a dot-free sequence yields that one segment.
pub proof fn lemma_split_dots_whole(s: Seq<char>)
    requires
        dot_free(s),
    ensures
        split_dots(s) == seq![s],
{
    lemma_first_dot_at(s, s.len() as int);
}

/// Splitting at a first '.' at position `m` peels off the prefix
/// before it.
pub proof fn lemma_split_dots_step(s: Seq<char>, m: int)
    requires
        0 <= m < s.len(),
        forall|j: int| 0 <= j < m ==> #[trigger] s[j] != '.',
        s[m] == '.',
    ensures
        split_dots(s) == seq![s.take(m)] + split_dots(s.skip(m + 1)),
{
    lemma_first_dot_at(s, m);
}

/// A sequence built of three dot-free segments around two '.'
/// separators splits into exactly those three segments.
pub proof fn lemma_split_three(a: Seq<char>, b: Seq<char>, c: Seq<char>)
    requires
        dot_free(a),
        dot_free(b),
        dot_free(c),
    ensures
        split_dots(a + seq!['.'] + b + seq!['.'] + c) == seq![a, b, c],
{
    let s = a + seq!['.'] + b + seq!['.'] + c;
    let al = a.len() as int;
    let bl = b.len() as int;
    assert(forall|j: int| 0 <= j < al ==> #[trigger] s[j] != '.');
    assert(s[al] == '.');
    lemma_split_dots_step(s, al);
    assert(s.take(al) =~= a);
    let t = b + seq!['.'] + c;
    assert(s.skip(al + 1) =~= t);
    assert(forall|j: int| 0 <= j < bl ==> #[trigger] t[j] != '.');
    assert(t[bl] == '.');
    lemma_split_dots_step(t, bl);
    assert(t.take(bl) =~= b);
    assert(t.skip(bl + 1) =~= c);
    lemma_split_dots_whole(c);
    assert(split_dots(s) =~~= seq![a, b, c]);
}

/// The views of a sequence of owned strings.
pub open spec fn views_of(parts: Seq<String>) -> Seq<Seq<char>> {
    parts.map_values(|p: String| p@)
}

/// Split `s` on every '.' into its segments, left to right.
pub fn split_dots_exec(s: &str) -> (parts: Vec<String>)
    ensures
        views_of(parts@) == split_dots(s@),
        parts@.len() == split_dots(s@).len(),
        forall|i: int| 0 <= i < parts@.len() ==> (#[trigger] parts@[i])@ == split_dots(s@)[i],
{
    let len = s.unicode_len();
    let mut parts: Vec<String> = Vec::new();
    let mut start: usize = 0;
    let mut i: usize = 0;
    proof {
        assert(s@.skip(0) =~= s@);
        assert(views_of(parts@) + split_dots(s@) =~~= split_dots(s@));
    }
    while i < len
        invariant
            start <= i <= len,
            len == s@.len(),
            forall|j: int| start <= j < i ==> #[trigger] s@[j] != '.',
            split_dots(s@) == views_of(parts@) + split_dots(s@.skip(start as int)),
        decreases len - i,
    {
        let c = s.get_char(i);
        if c == '.' {
            let piece = String::from_str(s.substring_char(start, i));
            proof {
                let rest = s@.skip(start as int);
                assert(forall|j: int| 0 <= j < i - start ==> #[trigger] rest[j] == s@[j + start]);
                assert(rest[i - start] == s@[i as int]);
                lemma_split_dots_step(rest, i - start);
                assert(rest.take(i - start) =~= s@.subrange(start as int, i as int));
                assert(rest.skip(i - start + 1) =~= s@.skip(i as int + 1));
                assert(views_of(parts@.push(piece)) =~~= views_of(parts@) + seq![piece@]);
                assert(split_dots(s@) =~~= views_of(parts@.push(piece)) + split_dots(
                    s@.skip(i as int + 1),
                ));
            }
            parts.push(piece);
            start = i + 1;
        }
        i += 1;
    }
    let piece = String::from_str(s.substring_char(start, len));
    proof {
        let rest = s@.skip(start as int);
        assert(forall|j: int| 0 <= j < rest.len() ==> #[trigger] rest[j] == s@[j + start]);
        assert(dot_free(rest));
        lemma_split_dots_whole(rest);
        assert(rest =~= s@.subrange(start as int, len as int));
        assert(views_of(parts@.push(piece)) =~~= views_of(parts@) + seq![piece@]);
        assert(views_of(parts@.push(piece)) =~~= split_dots(s@));
    }
    parts.push(piece);
    proof {
        assert(forall|k: int|
            0 <= k < parts@.len() ==> (#[trigger] parts@[k])@ == views_of(parts@)[k]);
    }
    parts
}

} // verus!
