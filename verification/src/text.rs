use vstd::prelude::*;

verus! {

/// No character of `s` is a dot.
pub open spec fn dot_free(s: Seq<char>) -> bool {
    forall|i: int| 0 <= i < s.len() ==> s[i] != '.'
}

/// The index of the first dot in `s`, or `s.len()` where `s` holds none.
pub open spec fn first_dot(s: Seq<char>) -> int
    decreases s.len(),
{
    if s.len() == 0 || s[0] == '.' {
        0
    } else {
        1 + first_dot(s.drop_first())
    }
}

/// The pieces of `s` between its dots, in order. A text without a dot is one
/// piece, and so is the empty text; a piece may be empty.
pub open spec fn split_dots(s: Seq<char>) -> Seq<Seq<char>>
    decreases s.len(),
{
    let d = first_dot(s);
    if d < 0 || d >= s.len() {
        seq![s]
    } else {
        seq![s.take(d)] + split_dots(s.skip(d + 1))
    }
}

/// The pieces put together again, with one dot between neighbours.
pub open spec fn join_dots(pieces: Seq<Seq<char>>) -> Seq<char>
    decreases pieces.len(),
{
    if pieces.len() == 0 {
        Seq::empty()
    } else if pieces.len() == 1 {
        pieces[0]
    } else {
        pieces[0] + seq!['.'] + join_dots(pieces.drop_first())
    }
}

/// The number of dots in `s`.
pub open spec fn count_dots(s: Seq<char>) -> nat
    decreases s.len(),
{
    if s.len() == 0 {
        0
    } else {
        count_dots(s.drop_last()) + if s.last() == '.' {
            1nat
        } else {
            0nat
        }
    }
}

/// `first_dot` is in range, sits on a dot unless it is the length, and no dot
/// comes before it.
pub proof fn lemma_first_dot(s: Seq<char>)
    ensures
        0 <= first_dot(s) <= s.len(),
        first_dot(s) < s.len() ==> s[first_dot(s)] == '.',
        dot_free(s.take(first_dot(s))),
        first_dot(s) == s.len() <==> dot_free(s),
    decreases s.len(),
{
    if s.len() == 0 || s[0] == '.' {
    } else {
        let rest = s.drop_first();
        lemma_first_dot(rest);
        let d = first_dot(s);
        assert forall|i: int| 0 <= i < s.take(d).len() implies s.take(d)[i] != '.' by {
            if i > 0 {
                assert(rest.take(d - 1)[i - 1] == s.take(d)[i]);
            }
        }
        if dot_free(s) {
            assert forall|i: int| 0 <= i < rest.len() implies rest[i] != '.' by {
                assert(rest[i] == s[i + 1]);
            }
        }
        if d == s.len() {
            assert forall|i: int| 0 <= i < s.len() implies s[i] != '.' by {
                if i > 0 {
                    assert(rest[i - 1] == s[i]);
                }
            }
        }
    }
}

/// A dot at `d` with none before it is the first dot.
pub proof fn lemma_first_dot_is(s: Seq<char>, d: int)
    requires
        0 <= d <= s.len(),
        d < s.len() ==> s[d] == '.',
        dot_free(s.take(d)),
    ensures
        first_dot(s) == d,
    decreases s.len(),
{
    if s.len() == 0 {
    } else if s[0] == '.' {
        if d > 0 {
            assert(s.take(d)[0] == '.');
        }
    } else {
        let rest = s.drop_first();
        let head = rest.take(d - 1);
        assert forall|i: int| 0 <= i < head.len() implies #[trigger] head[i] != '.' by {
            assert(head[i] == s.take(d)[i + 1]);
        }
        lemma_first_dot_is(rest, d - 1);
    }
}

/// A text without a dot is one piece.
pub proof fn lemma_split_dot_free(s: Seq<char>)
    requires
        dot_free(s),
    ensures
        split_dots(s) == seq![s],
{
    lemma_first_dot(s);
}

/// A text splits at its first dot into the piece before it and the pieces of
/// what follows it.
pub proof fn lemma_split_at(s: Seq<char>, d: int)
    requires
        0 <= d < s.len(),
        s[d] == '.',
        dot_free(s.take(d)),
    ensures
        split_dots(s) == seq![s.take(d)] + split_dots(s.skip(d + 1)),
        split_dots(s).len() == 1 + split_dots(s.skip(d + 1)).len(),
        split_dots(s)[0] == s.take(d),
        forall|i: int|
            0 <= i < split_dots(s.skip(d + 1)).len() ==> #[trigger] split_dots(s)[i + 1]
                == split_dots(s.skip(d + 1))[i],
{
    lemma_first_dot_is(s, d);
}

/// Every piece is free of dots, and there is at least one piece.
pub proof fn lemma_split_pieces(s: Seq<char>)
    ensures
        split_dots(s).len() >= 1,
        forall|i: int| 0 <= i < split_dots(s).len() ==> dot_free(#[trigger] split_dots(s)[i]),
    decreases s.len(),
{
    lemma_first_dot(s);
    let d = first_dot(s);
    if d < s.len() {
        let rest = s.skip(d + 1);
        lemma_split_pieces(rest);
        lemma_split_at(s, d);
        assert forall|i: int| 0 <= i < split_dots(s).len() implies dot_free(
            #[trigger] split_dots(s)[i],
        ) by {
            if i > 0 {
                assert(split_dots(s)[(i - 1) + 1] == split_dots(rest)[i - 1]);
            }
        }
    }
}

/// Joining the pieces of a text gives the text back.
pub proof fn lemma_join_split(s: Seq<char>)
    ensures
        join_dots(split_dots(s)) == s,
    decreases s.len(),
{
    lemma_first_dot(s);
    let d = first_dot(s);
    if d < s.len() {
        let rest = s.skip(d + 1);
        lemma_join_split(rest);
        lemma_split_pieces(rest);
        let pieces = split_dots(s);
        assert(pieces.drop_first() =~= split_dots(rest));
        assert(pieces[0] == s.take(d));
        assert(s =~= s.take(d) + seq!['.'] + rest);
    }
}

/// Splitting a joined sequence of dot-free pieces gives the pieces back.
pub proof fn lemma_split_join(pieces: Seq<Seq<char>>)
    requires
        pieces.len() >= 1,
        forall|i: int| 0 <= i < pieces.len() ==> dot_free(#[trigger] pieces[i]),
    ensures
        split_dots(join_dots(pieces)) == pieces,
    decreases pieces.len(),
{
    if pieces.len() == 1 {
        lemma_split_dot_free(pieces[0]);
        assert(pieces =~= seq![pieces[0]]);
    } else {
        let head = pieces[0];
        let tail = pieces.drop_first();
        assert forall|i: int| 0 <= i < tail.len() implies dot_free(#[trigger] tail[i]) by {
            assert(tail[i] == pieces[i + 1]);
        }
        lemma_split_join(tail);
        let s = join_dots(pieces);
        let d = head.len() as int;
        assert(s == head + seq!['.'] + join_dots(tail));
        assert(s.take(d) =~= head);
        assert(s.skip(d + 1) =~= join_dots(tail));
        lemma_split_at(s, d);
        assert(split_dots(s) =~= pieces);
    }
}

/// A text has one piece more than it has dots.
pub proof fn lemma_split_count(s: Seq<char>)
    ensures
        split_dots(s).len() == count_dots(s) + 1,
    decreases s.len(),
{
    lemma_first_dot(s);
    let d = first_dot(s);
    if d < s.len() {
        let rest = s.skip(d + 1);
        lemma_split_count(rest);
        lemma_split_at(s, d);
        lemma_count_dots_concat(s.take(d + 1), rest);
        assert(s =~= s.take(d + 1) + rest);
        assert(s.take(d + 1).drop_last() =~= s.take(d));
        lemma_count_dot_free(s.take(d));
    } else {
        lemma_count_dot_free(s);
    }
}

/// A text without a dot counts none.
pub proof fn lemma_count_dot_free(s: Seq<char>)
    requires
        dot_free(s),
    ensures
        count_dots(s) == 0,
    decreases s.len(),
{
    if s.len() > 0 {
        assert forall|i: int| 0 <= i < s.drop_last().len() implies s.drop_last()[i] != '.' by {
            assert(s.drop_last()[i] == s[i]);
        }
        lemma_count_dot_free(s.drop_last());
    }
}

/// The dots of a concatenation are those of its two parts.
pub proof fn lemma_count_dots_concat(a: Seq<char>, b: Seq<char>)
    ensures
        count_dots(a + b) == count_dots(a) + count_dots(b),
    decreases b.len(),
{
    if b.len() == 0 {
        assert(a + b =~= a);
    } else {
        lemma_count_dots_concat(a, b.drop_last());
        assert((a + b).drop_last() =~= a + b.drop_last());
    }
}

/// The characters of `s`, in order, for constant-time indexing.
pub fn chars_of(s: &str) -> (chars: Vec<char>)
    ensures
        chars@ == s@,
{
    let mut chars: Vec<char> = Vec::new();
    for c in it: s.chars()
        invariant
            it.seq() == s@,
            chars@ == s@.take(it.index() as int),
    {
        chars.push(c);
        assert(s@.take(it.index() + 1) =~= s@.take(it.index() as int).push(c));
    }
    assert(s@.take(s@.len() as int) =~= s@);
    chars
}

/// Whether two texts hold the same characters.
pub fn same_text(a: &str, b: &str) -> (same: bool)
    ensures
        same == (a@ == b@),
{
    let x = chars_of(a);
    let y = chars_of(b);
    if x.len() != y.len() {
        return false;
    }
    let mut i: usize = 0;
    while i < x.len()
        invariant
            i <= x.len(),
            x.len() == y.len(),
            x@ == a@,
            y@ == b@,
            forall|j: int| 0 <= j < i ==> x@[j] == y@[j],
        decreases x.len() - i,
    {
        if x[i] != y[i] {
            return false;
        }
        i += 1;
    }
    assert(x@ =~= y@);
    true
}

/// The position of the first dot of `chars` at or after `from`, or the length
/// where none follows.
pub fn find_dot(chars: &Vec<char>, from: usize) -> (at: usize)
    requires
        from <= chars.len(),
    ensures
        from <= at <= chars.len(),
        at - from == first_dot(chars@.skip(from as int)),
        at < chars.len() ==> chars@[at as int] == '.',
        dot_free(chars@.subrange(from as int, at as int)),
{
    let mut at: usize = from;
    while at < chars.len() && chars[at] != '.'
        invariant
            from <= at <= chars.len(),
            dot_free(chars@.subrange(from as int, at as int)),
        decreases chars.len() - at,
    {
        at += 1;
        let ghost seen = chars@.subrange(from as int, at as int);
        assert forall|i: int| 0 <= i < seen.len() implies #[trigger] seen[i] != '.' by {
            if i < at - from - 1 {
                assert(chars@.subrange(from as int, at - 1)[i] == chars@[from + i]);
            }
        }
    }
    proof {
        let rest = chars@.skip(from as int);
        assert(rest.take(at - from) =~= chars@.subrange(from as int, at as int));
        lemma_first_dot_is(rest, at - from);
    }
    at
}

/// Whether two byte strings hold the same bytes.
pub fn same_bytes(a: &Vec<u8>, b: &Vec<u8>) -> (same: bool)
    ensures
        same == (a@ == b@),
{
    if a.len() != b.len() {
        return false;
    }
    let mut i: usize = 0;
    while i < a.len()
        invariant
            i <= a.len(),
            a.len() == b.len(),
            forall|j: int| 0 <= j < i ==> a@[j] == b@[j],
        decreases a.len() - i,
    {
        if a[i] != b[i] {
            return false;
        }
        i += 1;
    }
    assert(a@ =~= b@);
    true
}

} // verus!
