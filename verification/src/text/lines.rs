//! Splitting text at a separator character and joining pieces with a separator.
use crate::text::chars::{chars_of, string_of};
use vstd::prelude::*;

verus! {

/// The character sequences of a list of strings.
pub open spec fn strings_view(v: Seq<String>) -> Seq<Seq<char>> {
    v.map_values(|s: String| s@)
}

/// Pushing a string pushes its characters.
pub proof fn lemma_strings_view_push(v: Seq<String>, s: String)
    ensures
        strings_view(v.push(s)) == strings_view(v).push(s@),
{
    assert(strings_view(v.push(s)) =~= strings_view(v).push(s@));
}

/// The pieces joined, with `sep` between neighbours.
pub open spec fn join_seq(parts: Seq<Seq<char>>, sep: Seq<char>) -> Seq<char>
    decreases parts.len(),
{
    if parts.len() == 0 {
        Seq::empty()
    } else if parts.len() == 1 {
        parts[0]
    } else {
        join_seq(parts.drop_last(), sep) + sep + parts.last()
    }
}

/// The pieces of `s` between occurrences of `c`: one more piece than there are
/// occurrences, empty pieces included.
pub open spec fn split_on(s: Seq<char>, c: char) -> Seq<Seq<char>>
    decreases s.len(),
{
    if s.len() == 0 {
        seq![Seq::empty()]
    } else {
        let r = split_on(s.drop_last(), c);
        if s.last() == c {
            r.push(Seq::empty())
        } else {
            r.update(r.len() - 1, r.last().push(s.last()))
        }
    }
}

/// The pieces of `s` ended by `c`: as [split_on], without a final empty piece.
pub open spec fn split_terminated(s: Seq<char>, c: char) -> Seq<Seq<char>> {
    let p = split_on(s, c);
    if p.last().len() == 0 {
        p.drop_last()
    } else {
        p
    }
}

/// Splitting always gives at least one piece.
pub proof fn lemma_split_on_len(s: Seq<char>, c: char)
    ensures
        split_on(s, c).len() >= 1,
    decreases s.len(),
{
    if s.len() > 0 {
        lemma_split_on_len(s.drop_last(), c);
    }
}

/// The strings of `parts` joined with `sep` between neighbours.
pub fn join_strings(parts: &Vec<String>, sep: &str) -> (r: String)
    ensures
        r@ == join_seq(strings_view(parts@), sep@),
{
    let mut r = String::new();
    for i in 0..parts.len()
        invariant
            r@ == join_seq(strings_view(parts@).take(i as int), sep@),
    {
        let ghost before = strings_view(parts@).take(i as int);
        if i > 0 {
            r.append(sep);
        }
        r.append(parts[i].as_str());
        proof {
            let after = strings_view(parts@).take(i + 1);
            assert(after.drop_last() =~= before);
            if i == 0 {
                assert(before =~= Seq::<Seq<char>>::empty());
                assert(r@ =~= after[0]);
            }
        }
    }
    assert(strings_view(parts@).take(parts.len() as int) =~= strings_view(parts@));
    r
}

/// The pieces of `s` between occurrences of `c`.
pub fn split_on_char(s: &str, c: char) -> (r: Vec<String>)
    ensures
        strings_view(r@) == split_on(s@, c),
{
    let cs = chars_of(s);
    let mut pieces: Vec<String> = Vec::new();
    let mut cur: Vec<char> = Vec::new();
    for i in 0..cs.len()
        invariant
            cs@ == s@,
            strings_view(pieces@).push(cur@) == split_on(cs@.take(i as int), c),
    {
        proof {
            assert(cs@.take(i + 1).drop_last() =~= cs@.take(i as int));
            assert(cs@.take(i + 1).last() == cs@[i as int]);
            lemma_split_on_len(cs@.take(i as int), c);
        }
        if cs[i] == c {
            let piece = string_of(cur.as_slice());
            pieces.push(piece);
            cur = Vec::new();
            proof {
                assert(strings_view(pieces@) =~= split_on(cs@.take(i as int), c));
            }
        } else {
            let ghost old_view = strings_view(pieces@).push(cur@);
            cur.push(cs[i]);
            proof {
                assert(strings_view(pieces@).push(cur@) =~= old_view.update(
                    old_view.len() - 1,
                    old_view.last().push(cs@[i as int]),
                ));
            }
        }
    }
    let last = string_of(cur.as_slice());
    pieces.push(last);
    proof {
        assert(cs@.take(cs.len() as int) =~= cs@);
        assert(strings_view(pieces@) =~= split_on(cs@.take(cs.len() as int), c));
    }
    pieces
}

/// True when `s` begins with `prefix`.
pub fn starts_with(s: &str, prefix: &str) -> (r: bool)
    ensures
        r == prefix@.is_prefix_of(s@),
{
    let a = chars_of(s);
    let p = chars_of(prefix);
    if p.len() > a.len() {
        return false;
    }
    for i in 0..p.len()
        invariant
            a@ == s@,
            p@ == prefix@,
            p.len() <= a.len(),
            forall|j: int| 0 <= j < i ==> a@[j] == p@[j],
    {
        if a[i] != p[i] {
            return false;
        }
    }
    assert(s@.take(prefix@.len() as int) =~= prefix@);
    true
}

} // verus!
