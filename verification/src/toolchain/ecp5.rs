//! Pin constraint files for the ECP5 flow through nextpnr.
use crate::text::lines::{join_seq, join_strings, lemma_strings_view_push, strings_view};
use vstd::prelude::*;

verus! {

/// The lines with repeats dropped: each line at its first occurrence.
pub open spec fn first_occurrences(lines: Seq<Seq<char>>) -> Seq<Seq<char>>
    decreases lines.len(),
{
    if lines.len() == 0 {
        Seq::empty()
    } else {
        let rest = first_occurrences(lines.drop_last());
        if rest.contains(lines.last()) {
            rest
        } else {
            rest.push(lines.last())
        }
    }
}

/// The statement terminator of a constraint file: `;` and a newline.
pub open spec fn pcf_terminator() -> Seq<char> {
    seq![';', '\n']
}

/// The constraint file for the given constraint statements: each distinct
/// statement once, in the order of first occurrence, each ended by `;` and a
/// newline.
pub fn generate_pcf(lines: &Vec<String>) -> (r: String)
    ensures
        r@ == join_seq(first_occurrences(strings_view(lines@)), pcf_terminator())
            + pcf_terminator(),
{
    let ghost ls = strings_view(lines@);
    let mut uniq: Vec<String> = Vec::new();
    for i in 0..lines.len()
        invariant
            ls == strings_view(lines@),
            strings_view(uniq@) == first_occurrences(ls.take(i as int)),
    {
        proof {
            let t = ls.take(i + 1);
            assert(t.drop_last() =~= ls.take(i as int));
            assert(t.last() == lines@[i as int]@);
        }
        let mut seen = false;
        for j in 0..uniq.len()
            invariant
                i < lines.len(),
                ls == strings_view(lines@),
                strings_view(uniq@) == first_occurrences(ls.take(i as int)),
                seen == strings_view(uniq@).take(j as int).contains(lines@[i as int]@),
        {
            if uniq[j] == lines[i] {
                seen = true;
            }
            proof {
                let u = strings_view(uniq@);
                assert(u.take(j + 1) =~= u.take(j as int).push(u[j as int]));
                if seen {
                    if !u.take(j as int).contains(lines@[i as int]@) {
                        assert(u.take(j + 1)[j as int] == lines@[i as int]@);
                    }
                } else {
                    assert forall|x: int| 0 <= x < j + 1 implies #[trigger] u.take(j + 1)[x]
                        != lines@[i as int]@ by {
                        if x < j {
                            assert(u.take(j + 1)[x] == u.take(j as int)[x]);
                        }
                    }
                }
            }
        }
        assert(strings_view(uniq@).take(uniq.len() as int) =~= strings_view(uniq@));
        if !seen {
            let ghost before = uniq@;
            let line = lines[i].clone();
            uniq.push(line);
            proof {
                lemma_strings_view_push(before, line);
            }
        }
    }
    assert(ls.take(lines.len() as int) =~= ls);
    proof {
        reveal_strlit(";\n");
        assert(";\n"@ =~= pcf_terminator());
    }
    let mut r = join_strings(&uniq, ";\n");
    r.append(";\n");
    r
}

/// Each statement appears at most once, and every statement given appears.
pub proof fn law_first_occurrences(lines: Seq<Seq<char>>)
    ensures
        first_occurrences(lines).no_duplicates(),
        forall|x: Seq<char>| lines.contains(x) <==> #[trigger] first_occurrences(lines).contains(x),
    decreases lines.len(),
{
    if lines.len() > 0 {
        let rest = lines.drop_last();
        law_first_occurrences(rest);
        let rf = first_occurrences(rest);
        let last = lines.last();
        assert forall|x: Seq<char>| lines.contains(x) implies #[trigger] first_occurrences(
            lines,
        ).contains(x) by {
            let i = choose|i: int| 0 <= i < lines.len() && lines[i] == x;
            if i < lines.len() - 1 {
                assert(rest[i] == x);
                assert(rest.contains(x));
                assert(rf.contains(x));
                let j = choose|j: int| 0 <= j < rf.len() && rf[j] == x;
                if !rf.contains(last) {
                    assert(rf.push(last)[j] == x);
                }
            } else {
                if !rf.contains(last) {
                    assert(rf.push(last)[rf.len() as int] == x);
                }
            }
        }
        assert forall|x: Seq<char>| #[trigger] first_occurrences(lines).contains(x) implies lines.contains(
            x,
        ) by {
            if rf.contains(x) {
                assert(rest.contains(x));
                let i = choose|i: int| 0 <= i < rest.len() && rest[i] == x;
                assert(lines[i] == x);
            } else {
                assert(!rf.contains(last));
                let j = choose|j: int| 0 <= j < rf.len() + 1 && rf.push(last)[j] == x;
                if j < rf.len() {
                    assert(rf[j] == x);
                }
                assert(x == last);
                assert(lines[lines.len() - 1] == x);
            }
        }
    }
}

} // verus!
