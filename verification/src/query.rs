//! Turning the editor's content into the query texts a session sends: the
//! lines are run together, the whole is cut at every `;`, and the cuts that
//! hold nothing but a single character — line-break markers between
//! statements — are dropped.

use vstd::prelude::*;

use crate::editor::Editor;

verus! {

/// All lines run together into one sequence of characters.
pub open spec fn concat_lines(lines: Seq<Seq<char>>) -> Seq<char>
    decreases lines.len(),
{
    if lines.len() == 0 {
        Seq::empty()
    } else {
        concat_lines(lines.drop_last()) + lines.last()
    }
}

/// The text cut at every `;`, separators dropped: always one segment more
/// than there are separators, so an empty text yields one empty segment.
pub open spec fn split_semis(s: Seq<char>) -> Seq<Seq<char>>
    decreases s.len(),
{
    if s.len() == 0 {
        seq![Seq::empty()]
    } else if s[0] == ';' {
        seq![Seq::<char>::empty()] + split_semis(s.skip(1))
    } else {
        let rest = split_semis(s.skip(1));
        seq![seq![s[0]] + rest[0]] + rest.skip(1)
    }
}

/// The segments worth sending: every segment except those of exactly one
/// character, which are the stray line-break markers between statements.
pub open spec fn keep_queries(segs: Seq<Seq<char>>) -> Seq<Seq<char>>
    decreases segs.len(),
{
    if segs.len() == 0 {
        Seq::empty()
    } else if segs.last().len() != 1 {
        keep_queries(segs.drop_last()).push(segs.last())
    } else {
        keep_queries(segs.drop_last())
    }
}

/// What a buffer's content yields as query texts.
pub open spec fn spec_queries(lines: Seq<Seq<char>>) -> Seq<Seq<char>> {
    keep_queries(split_semis(concat_lines(lines)))
}

/// A partial segment glued onto the front of the first of the remaining
/// segments.
pub open spec fn prepend_first(p: Seq<char>, segs: Seq<Seq<char>>) -> Seq<Seq<char>> {
    seq![p + segs[0]] + segs.skip(1)
}

/// Cutting never yields an empty list of segments.
pub proof fn lemma_split_semis_nonempty(s: Seq<char>)
    ensures
        split_semis(s).len() >= 1,
    decreases s.len(),
{
    if s.len() > 0 && s[0] != ';' {
        lemma_split_semis_nonempty(s.skip(1));
    }
}

/// Appending one completed segment extends the kept queries by that
/// segment exactly when it is not a single character.
pub proof fn lemma_keep_queries_push(segs: Seq<Seq<char>>, seg: Seq<char>)
    ensures
        keep_queries(segs.push(seg)) == if seg.len() != 1 {
            keep_queries(segs).push(seg)
        } else {
            keep_queries(segs)
        },
{
    assert(segs.push(seg).drop_last() =~= segs);
    assert(segs.push(seg).last() == seg);
}

impl Editor {
    /// The query texts the current content yields, in order: the content
    /// cut at every `;`, single-character cuts dropped.
    pub fn queries(&self) -> (qs: Vec<Vec<char>>)
        ensures
            qs@.map_values(|q: Vec<char>| q@) == spec_queries(self@.lines),
    {
        let ghost lines = self@.lines;
        let mut flat: Vec<char> = Vec::new();
        let mut i: usize = 0;
        while i < self.context.len()
            invariant
                i <= self.context@.len(),
                lines == self@.lines,
                flat@ == concat_lines(lines.take(i as int)),
            decreases self.context@.len() - i,
        {
            let line = &self.context[i];
            let mut j: usize = 0;
            proof {
                assert(line@.take(0) =~= Seq::<char>::empty());
                assert(flat@ =~= concat_lines(lines.take(i as int)) + line@.take(0));
            }
            while j < line.len()
                invariant
                    j <= line@.len(),
                    i < self.context@.len(),
                    line@ == self.context@[i as int]@,
                    lines == self@.lines,
                    flat@ == concat_lines(lines.take(i as int)) + line@.take(j as int),
                decreases line@.len() - j,
            {
                flat.push(line[j]);
                j = j + 1;
                proof {
                    assert(line@.take(j as int) =~= line@.take(j - 1).push(line@[j - 1]));
                    assert(flat@ =~= concat_lines(lines.take(i as int)) + line@.take(j as int));
                }
            }
            i = i + 1;
            proof {
                assert(lines.take(i as int).drop_last() =~= lines.take(i - 1));
                assert(lines.take(i as int).last() == lines[i - 1]);
                assert(line@.take(line@.len() as int) =~= line@);
                assert(lines[i - 1] == line@);
                assert(flat@ =~= concat_lines(lines.take(i as int)));
            }
        }
        proof {
            assert(lines.take(lines.len() as int) =~= lines);
        }
        let ghost whole = flat@;
        let mut qs: Vec<Vec<char>> = Vec::new();
        let mut cur: Vec<char> = Vec::new();
        let ghost done = Seq::<Seq<char>>::empty();
        let mut k: usize = 0;
        proof {
            lemma_split_semis_nonempty(whole);
            assert(whole.skip(0) =~= whole);
            assert(prepend_first(cur@, split_semis(whole)) =~~= split_semis(whole)) by {
                assert(cur@ + split_semis(whole)[0] =~= split_semis(whole)[0]);
                assert(prepend_first(cur@, split_semis(whole)) =~~= seq![
                    split_semis(whole)[0],
                ] + split_semis(whole).skip(1));
            }
            assert(qs@.map_values(|q: Vec<char>| q@) =~~= keep_queries(done));
        }
        while k < flat.len()
            invariant
                k <= whole.len(),
                flat@ == whole,
                split_semis(whole) == done + prepend_first(cur@, split_semis(whole.skip(k as int))),
                qs@.map_values(|q: Vec<char>| q@) == keep_queries(done),
            decreases whole.len() - k,
        {
            let ghost rest = split_semis(whole.skip(k as int));
            let ghost restp = split_semis(whole.skip(k as int + 1));
            let ghost prev_done = done;
            let ghost prev_cur = cur@;
            proof {
                lemma_split_semis_nonempty(whole.skip(k as int));
                lemma_split_semis_nonempty(whole.skip(k as int + 1));
                assert(whole.skip(k as int)[0] == whole[k as int]);
                assert(whole.skip(k as int).skip(1) =~= whole.skip(k as int + 1));
            }
            let c = flat[k];
            if c == ';' {
                proof {
                    assert(rest =~~= seq![Seq::<char>::empty()] + restp);
                }
                let seg = cur;
                cur = Vec::new();
                if seg.len() != 1 {
                    qs.push(seg);
                    proof {
                        lemma_keep_queries_push(prev_done, prev_cur);
                        done = prev_done.push(prev_cur);
                        assert(qs@.map_values(|q: Vec<char>| q@) =~~= keep_queries(done));
                    }
                } else {
                    proof {
                        lemma_keep_queries_push(prev_done, prev_cur);
                        done = prev_done.push(prev_cur);
                    }
                }
                proof {
                    assert(prepend_first(prev_cur, rest) =~~= seq![prev_cur] + restp) by {
                        assert(prev_cur + rest[0] =~= prev_cur);
                        assert(rest.skip(1) =~= restp);
                    }
                    assert(prepend_first(cur@, restp) =~~= restp) by {
                        assert(cur@ + restp[0] =~= restp[0]);
                    }
                    assert(done + prepend_first(cur@, restp) =~~= prev_done + prepend_first(
                        prev_cur,
                        rest,
                    ));
                }
            } else {
                cur.push(c);
                proof {
                    assert(rest =~~= seq![seq![whole[k as int]] + restp[0]] + restp.skip(1));
                    assert(prepend_first(prev_cur, rest) =~~= prepend_first(cur@, restp)) by {
                        assert(prev_cur + rest[0] =~= cur@ + restp[0]);
                        assert(rest.skip(1) =~= restp.skip(1));
                    }
                }
            }
            k = k + 1;
        }
        proof {
            assert(whole.skip(whole.len() as int) =~= Seq::<char>::empty());
            assert(split_semis(Seq::<char>::empty()) =~~= seq![Seq::<char>::empty()]);
            assert(split_semis(whole) =~~= done.push(cur@)) by {
                assert(cur@ + Seq::<char>::empty() =~= cur@);
                assert(prepend_first(cur@, seq![Seq::<char>::empty()]) =~~= seq![cur@]);
            }
            lemma_keep_queries_push(done, cur@);
        }
        let ghost final_done = done.push(cur@);
        if cur.len() != 1 {
            qs.push(cur);
        }
        proof {
            assert(qs@.map_values(|q: Vec<char>| q@) =~~= keep_queries(final_done));
            assert(qs@.map_values(|q: Vec<char>| q@) =~~= spec_queries(lines));
        }
        qs
    }
}

} // verus!
