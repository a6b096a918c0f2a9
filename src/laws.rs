//! Laws of the parser over whole manifests.
use crate::line::{file_of, tag_of};
use crate::toc::{lines, lines_acc, parse, parse_lines};
use vstd::prelude::*;

verus! {

/// How many of the lines `ls` are tag lines.
pub open spec fn tag_line_count(ls: Seq<Seq<char>>) -> nat
    decreases ls.len(),
{
    if ls.len() == 0 {
        0
    } else {
        tag_line_count(ls.drop_last()) + if tag_of(ls.last()) is Some {
            1nat
        } else {
            0nat
        }
    }
}

/// How many of the lines `ls` are discarded: neither tags nor files.
pub open spec fn discarded_count(ls: Seq<Seq<char>>) -> nat
    decreases ls.len(),
{
    if ls.len() == 0 {
        0
    } else {
        discarded_count(ls.drop_last()) + if tag_of(ls.last()) is None && file_of(
            ls.last(),
        ) is None {
            1nat
        } else {
            0nat
        }
    }
}

proof fn lemma_lines_accounted(ls: Seq<Seq<char>>)
    ensures
        parse_lines(ls).1.len() + discarded_count(ls) + tag_line_count(ls) == ls.len(),
    decreases ls.len(),
{
    if ls.len() > 0 {
        lemma_lines_accounted(ls.drop_last());
    }
}

/// Every line read is accounted for exactly once: the files, the discarded
/// lines and the tag lines together number the lines of the text.
pub proof fn law_every_line_accounted(t: Seq<char>)
    ensures
        parse(t).1.len() + discarded_count(lines(t)) + tag_line_count(lines(t)) == lines(t).len(),
{
    lemma_lines_accounted(lines(t));
}

proof fn lemma_lines_acc_append(a: Seq<char>, b: Seq<char>)
    requires
        lines_acc(a).1.len() == 0,
    ensures
        lines_acc(a + b) == (lines_acc(a).0 + lines_acc(b).0, lines_acc(b).1),
    decreases b.len(),
{
    if b.len() == 0 {
        assert(a + b =~= a);
        assert(lines_acc(a).0 + lines_acc(b).0 =~= lines_acc(a).0);
        assert(lines_acc(a).1 =~= seq![]);
    } else {
        assert((a + b).drop_last() =~= a + b.drop_last());
        lemma_lines_acc_append(a, b.drop_last());
        let d = lines_acc(a).0;
        let (db, cb) = lines_acc(b.drop_last());
        if b.last() == '\n' {
            assert(d + db.push(cb.push('\n')) =~= (d + db).push(cb.push('\n')));
        }
    }
}

proof fn lemma_parse_lines_append(x: Seq<Seq<char>>, y: Seq<Seq<char>>)
    ensures
        parse_lines(x + y).0 == parse_lines(x).0.union_prefer_right(parse_lines(y).0),
        parse_lines(x + y).1 == parse_lines(x).1 + parse_lines(y).1,
    decreases y.len(),
{
    if y.len() == 0 {
        assert(x + y =~= x);
        assert(parse_lines(x).0.union_prefer_right(Map::empty()) =~= parse_lines(x).0);
        assert(parse_lines(x).1 + seq![] =~= parse_lines(x).1);
    } else {
        assert((x + y).drop_last() =~= x + y.drop_last());
        lemma_parse_lines_append(x, y.drop_last());
        let (mx, fx) = parse_lines(x);
        let (my, fy) = parse_lines(y.drop_last());
        let l = y.last();
        match tag_of(l) {
            Some((k, v)) => {
                assert(mx.union_prefer_right(my).insert(k, v) =~= mx.union_prefer_right(
                    my.insert(k, v),
                ));
            },
            None => match file_of(l) {
                Some(p) => {
                    assert((fx + fy).push(p) =~= fx + fy.push(p));
                },
                None => {},
            },
        }
    }
}

/// Parsing two manifests one after the other, the first ending with a line
/// break or empty, lists the first one's files and then the second one's, and
/// gives the first one's tags overridden by the second one's.
pub proof fn law_concatenation(a: Seq<char>, b: Seq<char>)
    requires
        a.len() == 0 || a.last() == '\n',
    ensures
        parse(a + b).1 == parse(a).1 + parse(b).1,
        parse(a + b).0 == parse(a).0.union_prefer_right(parse(b).0),
{
    if a.len() > 0 {
        assert(lines_acc(a).1 =~= seq![]);
    }
    lemma_lines_acc_append(a, b);
    assert(lines(a + b) =~= lines(a) + lines(b));
    lemma_parse_lines_append(lines(a), lines(b));
}

} // verus!
