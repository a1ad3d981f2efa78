//! The fields of a line: the runs of characters between its tabs.

use vstd::prelude::*;
use vstd::std_specs::iter::IteratorSpec;

verus! {

/// The fields of a line: the runs of characters between its tabs. A line
/// without a tab is one field, and so is the empty line.
pub open spec fn fields(line: Seq<char>) -> Seq<Seq<char>>
    decreases line.len(),
{
    if line.len() == 0 {
        seq![Seq::empty()]
    } else if line.last() == '\t' {
        fields(line.drop_last()).push(Seq::empty())
    } else {
        let before = fields(line.drop_last());
        before.drop_last().push(before.last().push(line.last()))
    }
}

/// The texts that strings hold.
pub open spec fn texts(strings: Seq<String>) -> Seq<Seq<char>> {
    Seq::new(strings.len(), |i: int| strings[i]@)
}

/// A line has a field, and its last field is what follows its last tab.
pub proof fn lemma_fields_last(line: Seq<char>, start: int)
    requires
        0 <= start <= line.len(),
        start > 0 ==> line[start - 1] == '\t',
        forall|i: int| start <= i < line.len() ==> line[i] != '\t',
    ensures
        fields(line).len() > 0,
        fields(line).last() == line.subrange(start, line.len() as int),
        fields(line).drop_last() == if start == 0 {
            Seq::<Seq<char>>::empty()
        } else {
            fields(line.take(start - 1))
        },
    decreases line.len(),
{
    if line.len() == 0 {
        assert(fields(line).drop_last() =~= Seq::<Seq<char>>::empty());
        assert(fields(line).last() =~= line.subrange(start, line.len() as int));
    } else if start == line.len() {
        lemma_fields_nonempty(line.drop_last());
        assert(fields(line).drop_last() =~= fields(line.drop_last()));
        assert(line.drop_last() =~= line.take(start - 1));
        assert(fields(line).last() =~= line.subrange(start, line.len() as int));
    } else {
        lemma_fields_last(line.drop_last(), start);
        let before = fields(line.drop_last());
        assert(fields(line).drop_last() =~= before.drop_last());
        assert(line.subrange(start, line.len() as int) =~= line.drop_last().subrange(
            start,
            line.len() - 1,
        ).push(line.last()));
        if start > 0 {
            assert(line.drop_last().take(start - 1) =~= line.take(start - 1));
        }
    }
}

/// A line has a field.
pub proof fn lemma_fields_nonempty(line: Seq<char>)
    ensures
        fields(line).len() > 0,
    decreases line.len(),
{
    if line.len() > 0 {
        lemma_fields_nonempty(line.drop_last());
    }
}

/// Splits a line into its fields.
pub fn split(line: &str) -> (out: Vec<String>)
    ensures
        texts(out@) == fields(line@),
{
    let mut out: Vec<String> = Vec::new();
    let mut chars = line.chars();
    let mut start: usize = 0;
    let mut at: usize = 0;
    let length = line.unicode_len();
    let ghost text = line@;
    proof {
        broadcast use vstd::string::axiom_spec_iter;
    }
    loop
        invariant_except_break
            chars.remaining() == text.skip(at as int),
        invariant
            text == line@,
            length == text.len(),
            start <= at <= text.len(),
            start > 0 ==> text[start - 1] == '\t',
            forall|i: int| start <= i < at ==> text[i] != '\t',
            texts(out@) == fields(text.take(at as int)).drop_last(),
        ensures
            at == text.len(),
        decreases text.len() - at,
    {
        let ghost before = chars;
        let next = chars.next();
        proof {
            broadcast use vstd::string::next_postcondition;
        }
        match next {
            Some(c) => {
                proof {
                    lemma_fields_last(text.take(at as int), start as int);
                    assert(text.take(at + 1).drop_last() =~= text.take(at as int));
                    assert(text.skip(at as int).drop_first() =~= text.skip(at + 1));
                }
                if c == '\t' {
                    let ghost done = out@;
                    let field = line.substring_char(start, at);
                    out.push(field.to_owned());
                    proof {
                        let seen = fields(text.take(at as int));
                        assert(text.take(at as int).subrange(start as int, at as int)
                            =~= text.subrange(start as int, at as int));
                        assert(texts(out@) =~= texts(done).push(field@));
                        assert(seen =~= seen.drop_last().push(seen.last()));
                        assert(fields(text.take(at + 1)).drop_last() =~= seen);
                    }
                    start = at + 1;
                } else {
                    proof {
                        assert(texts(out@) =~= fields(text.take(at + 1)).drop_last());
                    }
                }
                at = at + 1;
            },
            None => {
                break ;
            },
        }
    }
    let ghost done = out@;
    let field = line.substring_char(start, at);
    out.push(field.to_owned());
    proof {
        assert(text.take(at as int) =~= text);
        lemma_fields_last(text, start as int);
        assert(texts(out@) =~= texts(done).push(field@));
        assert(fields(text) =~= fields(text).drop_last().push(fields(text).last()));
    }
    out
}

/// Puts fields together into a line, with a tab between each two.
pub open spec fn joined(parts: Seq<Seq<char>>) -> Seq<char>
    decreases parts.len(),
{
    if parts.len() == 0 {
        Seq::empty()
    } else if parts.len() == 1 {
        parts[0]
    } else {
        joined(parts.drop_last()).push('\t') + parts.last()
    }
}

/// Whether no field holds a tab.
pub open spec fn tabless(parts: Seq<Seq<char>>) -> bool {
    forall|i: int, j: int| 0 <= i < parts.len() && 0 <= j < parts[i].len() ==> parts[i][j] != '\t'
}

/// The fields of a line hold no tab, and put together they are the line.
pub proof fn lemma_fields_joined(line: Seq<char>)
    ensures
        tabless(fields(line)),
        joined(fields(line)) == line,
    decreases line.len(),
{
    if line.len() == 0 {
        assert(joined(fields(line)) =~= line);
    } else {
        let before = fields(line.drop_last());
        lemma_fields_joined(line.drop_last());
        lemma_fields_nonempty(line.drop_last());
        if line.last() == '\t' {
            assert(fields(line).drop_last() =~= before);
            assert(joined(fields(line)) =~= line);
        } else {
            let after = fields(line);
            if before.len() == 1 {
                assert(joined(after) =~= line);
            } else {
                assert(after.drop_last() =~= before.drop_last());
                assert(joined(after) =~= joined(before).push(line.last()));
                assert(joined(after) =~= line);
            }
        }
    }
}

/// Fields that hold no tab are the fields of the line that they make.
pub proof fn lemma_joined_fields(parts: Seq<Seq<char>>)
    requires
        parts.len() > 0,
        tabless(parts),
    ensures
        fields(joined(parts)) == parts,
    decreases parts.len(),
{
    if parts.len() == 1 {
        lemma_fields_one(parts[0]);
        assert(parts =~= seq![parts[0]]);
    } else {
        lemma_joined_fields(parts.drop_last());
        let head = joined(parts.drop_last()).push('\t');
        assert(head.drop_last() =~= joined(parts.drop_last()));
        assert(fields(head) == parts.drop_last().push(Seq::empty()));
        lemma_fields_more(head, parts.last());
        assert(parts.drop_last().push(Seq::empty()).drop_last() =~= parts.drop_last());
        assert(Seq::<char>::empty() + parts.last() =~= parts.last());
        assert(parts =~= parts.drop_last().push(parts.last()));
    }
}

/// A line without a tab is one field.
pub proof fn lemma_fields_one(line: Seq<char>)
    requires
        forall|j: int| 0 <= j < line.len() ==> line[j] != '\t',
    ensures
        fields(line) == seq![line],
    decreases line.len(),
{
    if line.len() == 0 {
        assert(line =~= Seq::empty());
    } else {
        lemma_fields_one(line.drop_last());
        assert(line.drop_last().push(line.last()) =~= line);
        assert(seq![line.drop_last()].last() == line.drop_last());
        assert(seq![line.drop_last()].drop_last().push(line) =~= seq![line]);
    }
}

/// Characters other than tabs at the end of a line go to its last field.
pub proof fn lemma_fields_more(line: Seq<char>, more: Seq<char>)
    requires
        forall|j: int| 0 <= j < more.len() ==> more[j] != '\t',
    ensures
        fields(line + more) == fields(line).drop_last().push(fields(line).last() + more),
    decreases more.len(),
{
    lemma_fields_nonempty(line);
    if more.len() == 0 {
        assert(line + more =~= line);
        assert(fields(line).last() + more =~= fields(line).last());
        assert(fields(line) =~= fields(line).drop_last().push(fields(line).last()));
    } else {
        lemma_fields_more(line, more.drop_last());
        assert((line + more).drop_last() =~= line + more.drop_last());
        let before = fields(line + more.drop_last());
        assert(before.drop_last() =~= fields(line).drop_last());
        assert((fields(line).last() + more.drop_last()).push(more.last()) =~= fields(line).last()
            + more);
    }
}

} // verus!
