//! Line-level text handling: a manifest body is split on `'\n'`, each line
//! is handled on its own, and the lines are rejoined with `'\n'`.

use vstd::prelude::*;

verus! {

/// Index of the first line feed in `s`, or `s.len()` when there is none.
pub open spec fn first_nl(s: Seq<char>) -> int
    decreases s.len(),
{
    if s.len() == 0 {
        0
    } else if s[0] == '\n' {
        0
    } else {
        1 + first_nl(s.skip(1))
    }
}

/// The lines of `s`, in order: the pieces between line feeds. Never empty;
/// splitting the empty string gives one empty line.
pub open spec fn split_lines_spec(s: Seq<char>) -> Seq<Seq<char>>
    decreases s.len(),
{
    let i = first_nl(s);
    if 0 <= i < s.len() {
        seq![s.take(i)] + split_lines_spec(s.skip(i + 1))
    } else {
        seq![s]
    }
}

/// The pieces rejoined with a line feed between each two.
pub open spec fn join_lines_spec(parts: Seq<Seq<char>>) -> Seq<char>
    decreases parts.len(),
{
    if parts.len() == 0 {
        Seq::empty()
    } else if parts.len() == 1 {
        parts[0]
    } else {
        parts[0] + seq!['\n'] + join_lines_spec(parts.skip(1))
    }
}

/// How many lines `s` has: one more than its count of line feeds.
pub open spec fn line_count(s: Seq<char>) -> nat {
    split_lines_spec(s).len()
}

/// `s` contains no line feed.
pub open spec fn nl_free(s: Seq<char>) -> bool {
    forall|j: int| 0 <= j < s.len() ==> s[j] != '\n'
}

pub proof fn lemma_first_nl(s: Seq<char>)
    ensures
        0 <= first_nl(s) <= s.len(),
        forall|j: int| 0 <= j < first_nl(s) ==> s[j] != '\n',
        first_nl(s) < s.len() ==> s[first_nl(s)] == '\n',
    decreases s.len(),
{
    if s.len() == 0 {
    } else if s[0] == '\n' {
    } else {
        lemma_first_nl(s.skip(1));
        assert forall|j: int| 0 <= j < first_nl(s) implies s[j] != '\n' by {
            if j > 0 {
                assert(s.skip(1)[j - 1] == s[j]);
            }
        }
        if first_nl(s) < s.len() {
            assert(s.skip(1)[first_nl(s) - 1] == s[first_nl(s)]);
        }
    }
}

pub proof fn lemma_first_nl_is(s: Seq<char>, m: int)
    requires
        0 <= m <= s.len(),
        forall|j: int| 0 <= j < m ==> s[j] != '\n',
        m < s.len() ==> s[m] == '\n',
    ensures
        first_nl(s) == m,
{
    lemma_first_nl(s);
    if first_nl(s) < m {
        assert(s[first_nl(s)] != '\n');
    } else if m < first_nl(s) {
        assert(s[m] != '\n');
    }
}

/// No line of a split body contains a line feed.
pub proof fn lemma_split_lines_no_nl(s: Seq<char>)
    ensures
        forall|k: int|
            0 <= k < split_lines_spec(s).len() ==> nl_free(#[trigger] split_lines_spec(s)[k]),
    decreases s.len(),
{
    lemma_first_nl(s);
    let i = first_nl(s);
    if 0 <= i < s.len() {
        lemma_split_lines_no_nl(s.skip(i + 1));
        assert forall|k: int|
            0 <= k < split_lines_spec(s).len() implies nl_free(#[trigger] split_lines_spec(
            s,
        )[k]) by {
            if k == 0 {
                assert(nl_free(s.take(i))) by {
                    assert forall|j: int| 0 <= j < s.take(i).len() implies s.take(i)[j] != '\n' by {
                        assert(s.take(i)[j] == s[j]);
                    }
                }
            } else {
                assert(split_lines_spec(s)[k] == split_lines_spec(s.skip(i + 1))[k - 1]);
            }
        }
    } else {
        assert(nl_free(s)) by {
            assert forall|j: int| 0 <= j < s.len() implies s[j] != '\n' by {}
        }
    }
}

/// Splitting the joined pieces gives the pieces back, as long as none of
/// them contains a line feed.
pub proof fn lemma_split_of_join(parts: Seq<Seq<char>>)
    requires
        parts.len() >= 1,
        forall|k: int| 0 <= k < parts.len() ==> nl_free(#[trigger] parts[k]),
    ensures
        split_lines_spec(join_lines_spec(parts)) == parts,
    decreases parts.len(),
{
    let joined = join_lines_spec(parts);
    let p0 = parts[0];
    if parts.len() == 1 {
        lemma_first_nl_is(joined, joined.len() as int);
        assert(split_lines_spec(joined) =~= parts);
    } else {
        let rest = parts.skip(1);
        assert(joined == p0 + seq!['\n'] + join_lines_spec(rest));
        assert forall|j: int| 0 <= j < p0.len() implies joined[j] != '\n' by {
            assert(joined[j] == p0[j]);
        }
        assert(joined[p0.len() as int] == '\n');
        lemma_first_nl_is(joined, p0.len() as int);
        assert(joined.take(p0.len() as int) =~= p0);
        assert(joined.skip(p0.len() as int + 1) =~= join_lines_spec(rest));
        assert forall|k: int| 0 <= k < rest.len() implies nl_free(#[trigger] rest[k]) by {
            assert(rest[k] == parts[k + 1]);
        }
        lemma_split_of_join(rest);
        assert(split_lines_spec(joined) =~= seq![p0] + rest);
        assert(seq![p0] + rest =~= parts);
    }
}

pub proof fn lemma_join_snoc(parts: Seq<Seq<char>>, x: Seq<char>)
    requires
        parts.len() >= 1,
    ensures
        join_lines_spec(parts.push(x)) == join_lines_spec(parts) + seq!['\n'] + x,
    decreases parts.len(),
{
    if parts.len() == 1 {
        assert(parts.push(x).skip(1) =~= seq![x]);
        assert(join_lines_spec(seq![x]) == x);
        assert(parts.push(x)[0] == parts[0]);
        assert(join_lines_spec(parts.push(x)) == parts[0] + seq!['\n'] + x);
    } else {
        assert(parts.push(x).skip(1) =~= parts.skip(1).push(x));
        lemma_join_snoc(parts.skip(1), x);
        assert(join_lines_spec(parts.push(x)) == parts[0] + seq!['\n'] + (join_lines_spec(
            parts.skip(1),
        ) + seq!['\n'] + x));
        assert(parts[0] + seq!['\n'] + (join_lines_spec(parts.skip(1)) + seq!['\n'] + x) =~= (
        parts[0] + seq!['\n'] + join_lines_spec(parts.skip(1))) + seq!['\n'] + x);
    }
}

/// Splits `s` on `'\n'` into its lines.
pub fn split_lines(s: &str) -> (r: Vec<String>)
    ensures
        r@.map_values(|l: String| l@) == split_lines_spec(s@),
        r@.len() >= 1,
{
    let n = s.unicode_len();
    let mut parts: Vec<String> = Vec::new();
    let mut start: usize = 0;
    let mut i: usize = 0;
    proof {
        assert(parts@.map_values(|l: String| l@) =~= Seq::<Seq<char>>::empty());
        assert(s@.skip(0) =~= s@);
        assert(Seq::<Seq<char>>::empty() + split_lines_spec(s@) =~= split_lines_spec(s@));
    }
    while i < n
        invariant
            start <= i <= n,
            n == s@.len(),
            forall|j: int| start <= j < i ==> s@[j] != '\n',
            split_lines_spec(s@) == parts@.map_values(|l: String| l@) + split_lines_spec(
                s@.skip(start as int),
            ),
        decreases n - i,
    {
        if s.get_char(i) == '\n' {
            let piece = s.substring_char(start, i);
            let owned = piece.to_owned();
            proof {
                let su = s@.skip(start as int);
                assert forall|j: int| 0 <= j < i - start implies su[j] != '\n' by {
                    assert(su[j] == s@[j + start]);
                }
                assert(su[i - start] == s@[i as int]);
                lemma_first_nl_is(su, i - start);
                assert(su.take(i - start) =~= owned@);
                assert(su.skip(i - start + 1) =~= s@.skip(i + 1));
                assert(split_lines_spec(su) == seq![owned@] + split_lines_spec(s@.skip(i + 1)));
                assert(parts@.push(owned).map_values(|l: String| l@) =~= parts@.map_values(
                    |l: String| l@,
                ).push(owned@));
                assert(parts@.map_values(|l: String| l@) + (seq![owned@] + split_lines_spec(
                    s@.skip(i + 1),
                )) =~= parts@.map_values(|l: String| l@).push(owned@) + split_lines_spec(
                    s@.skip(i + 1),
                ));
            }
            parts.push(owned);
            start = i + 1;
        }
        i = i + 1;
    }
    let piece = s.substring_char(start, n);
    let owned = piece.to_owned();
    proof {
        let su = s@.skip(start as int);
        assert forall|j: int| 0 <= j < su.len() implies su[j] != '\n' by {
            assert(su[j] == s@[j + start]);
        }
        lemma_first_nl_is(su, su.len() as int);
        assert(su =~= owned@);
        assert(split_lines_spec(su) == seq![owned@]);
        assert(parts@.push(owned).map_values(|l: String| l@) =~= parts@.map_values(
            |l: String| l@,
        ).push(owned@));
        assert(parts@.map_values(|l: String| l@) + seq![owned@] =~= parts@.map_values(
            |l: String| l@,
        ).push(owned@));
    }
    parts.push(owned);
    parts
}

/// Rejoins lines with `'\n'`.
pub fn join_lines(parts: &Vec<String>) -> (r: String)
    requires
        parts@.len() >= 1,
    ensures
        r@ == join_lines_spec(parts@.map_values(|l: String| l@)),
{
    let views = Ghost(parts@.map_values(|l: String| l@));
    let mut out: String = parts[0].clone();
    proof {
        assert(views@.take(1) =~= seq![parts@[0]@]);
        assert(join_lines_spec(views@.take(1)) == parts@[0]@);
    }
    let mut i: usize = 1;
    while i < parts.len()
        invariant
            1 <= i <= parts@.len(),
            views@ == parts@.map_values(|l: String| l@),
            out@ == join_lines_spec(views@.take(i as int)),
        decreases parts@.len() - i,
    {
        out.append("\n");
        out.append(parts[i].as_str());
        proof {
            reveal_strlit("\n");
            assert("\n"@ =~= seq!['\n']);
            assert(views@.take(i as int).len() >= 1);
            lemma_join_snoc(views@.take(i as int), views@[i as int]);
            assert(views@.take(i + 1) =~= views@.take(i as int).push(views@[i as int]));
        }
        i = i + 1;
    }
    proof {
        assert(views@.take(parts@.len() as int) =~= views@);
    }
    out
}

} // verus!
