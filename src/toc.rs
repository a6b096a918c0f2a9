//! The parsed manifest: tags by name and file paths in load order.
use crate::line::{classifies, classify, classify_range, file_of, tag_of, Line};
use crate::text::chars_of;
use vstd::prelude::*;

verus! {

/// Splits text the way a line reader does, one character at a time: the lines
/// completed so far, each with its `\n`, and the characters of the line under way.
pub open spec fn lines_acc(t: Seq<char>) -> (Seq<Seq<char>>, Seq<char>)
    decreases t.len(),
{
    if t.len() == 0 {
        (seq![], seq![])
    } else {
        let (done, cur) = lines_acc(t.drop_last());
        if t.last() == '\n' {
            (done.push(cur.push('\n')), seq![])
        } else {
            (done, cur.push(t.last()))
        }
    }
}

/// The lines of `t`, each with its terminating `\n`; a last line without one
/// counts too, while the end of the text adds no empty line.
pub open spec fn lines(t: Seq<char>) -> Seq<Seq<char>> {
    let (done, cur) = lines_acc(t);
    if cur.len() == 0 {
        done
    } else {
        done.push(cur)
    }
}

/// Tags and files after one more line: a tag line sets its key (a later value
/// replaces an earlier one), a file line appends its path, a comment changes
/// nothing.
pub open spec fn apply_line(
    st: (Map<Seq<char>, Seq<char>>, Seq<Seq<char>>),
    line: Seq<char>,
) -> (Map<Seq<char>, Seq<char>>, Seq<Seq<char>>) {
    match tag_of(line) {
        Some((k, v)) => (st.0.insert(k, v), st.1),
        None => match file_of(line) {
            Some(p) => (st.0, st.1.push(p)),
            None => st,
        },
    }
}

/// Tags and files that the lines `ls` declare, in order.
pub open spec fn parse_lines(ls: Seq<Seq<char>>) -> (Map<Seq<char>, Seq<char>>, Seq<Seq<char>>)
    decreases ls.len(),
{
    if ls.len() == 0 {
        (Map::empty(), seq![])
    } else {
        apply_line(parse_lines(ls.drop_last()), ls.last())
    }
}

/// Tags and files of the manifest text `t`.
pub open spec fn parse(t: Seq<char>) -> (Map<Seq<char>, Seq<char>>, Seq<Seq<char>>) {
    parse_lines(lines(t))
}

/// The mapping that a list of key/value entries denotes, later entries first.
pub open spec fn tag_map(s: Seq<(String, String)>) -> Map<Seq<char>, Seq<char>>
    decreases s.len(),
{
    if s.len() == 0 {
        Map::empty()
    } else {
        tag_map(s.drop_last()).insert(s.last().0@, s.last().1@)
    }
}

/// No two entries share a key.
pub open spec fn keys_unique(s: Seq<(String, String)>) -> bool {
    forall|i: int, j: int| 0 <= i < j < s.len() ==> s[i].0@ != s[j].0@
}

/// A parsed manifest.
pub struct Toc {
    /// Tag entries, at most one per key.
    pub tags: Vec<(String, String)>,
    /// File paths, in the order of their lines.
    pub files: Vec<String>,
}

impl View for Toc {
    type V = (Map<Seq<char>, Seq<char>>, Seq<Seq<char>>);

    open spec fn view(&self) -> Self::V {
        (tag_map(self.tags@), self.files@.map_values(|f: String| f@))
    }
}

proof fn lemma_tag_map_update(s: Seq<(String, String)>, j: int, e: (String, String))
    requires
        keys_unique(s),
        0 <= j < s.len(),
        e.0@ == s[j].0@,
    ensures
        tag_map(s.update(j, e)) == tag_map(s).insert(e.0@, e.1@),
    decreases s.len(),
{
    let u = s.update(j, e);
    if j == s.len() - 1 {
        assert(u.drop_last() =~= s.drop_last());
        assert(tag_map(u) =~= tag_map(s).insert(e.0@, e.1@));
    } else {
        assert(u.drop_last() =~= s.drop_last().update(j, e));
        lemma_tag_map_update(s.drop_last(), j, e);
        assert(tag_map(u) =~= tag_map(s).insert(e.0@, e.1@));
    }
}

proof fn lemma_tag_map_lookup(s: Seq<(String, String)>, j: int)
    requires
        keys_unique(s),
        0 <= j < s.len(),
    ensures
        tag_map(s).contains_key(s[j].0@),
        tag_map(s)[s[j].0@] == s[j].1@,
    decreases s.len(),
{
    if j < s.len() - 1 {
        lemma_tag_map_lookup(s.drop_last(), j);
    }
}

proof fn lemma_tag_map_absent(s: Seq<(String, String)>, k: Seq<char>)
    requires
        forall|i: int| 0 <= i < s.len() ==> s[i].0@ != k,
    ensures
        !tag_map(s).contains_key(k),
    decreases s.len(),
{
    if s.len() > 0 {
        lemma_tag_map_absent(s.drop_last(), k);
    }
}

impl Toc {
    /// A manifest with no tags and no files.
    pub fn new() -> (r: Toc)
        ensures
            r.wf(),
            r@ == parse_lines(seq![]),
    {
        let r = Toc { tags: Vec::new(), files: Vec::new() };
        assert(r@.1 =~= seq![]);
        r
    }

    /// The tag entries hold each key at most once.
    pub open spec fn wf(&self) -> bool {
        keys_unique(self.tags@)
    }

    /// Sets `k` to `v`, replacing the value that `k` had.
    fn set_tag(&mut self, k: String, v: String)
        requires
            old(self).wf(),
        ensures
            final(self).wf(),
            final(self)@ == (old(self)@.0.insert(k@, v@), old(self)@.1),
    {
        let mut j: usize = 0;
        while j < self.tags.len()
            invariant
                j <= self.tags.len(),
                *self == *old(self),
                self.wf(),
                forall|i: int| 0 <= i < j ==> self.tags@[i].0@ != k@,
            decreases self.tags.len() - j,
        {
            if self.tags[j].0 == k {
                proof {
                    lemma_tag_map_update(self.tags@, j as int, (k, v));
                }
                self.tags.set(j, (k, v));
                return;
            }
            j += 1;
        }
        self.tags.push((k, v));
        assert(self.tags@.drop_last() =~= old(self).tags@);
    }

    /// Appends a file path.
    fn push_file(&mut self, p: String)
        ensures
            final(self).tags == old(self).tags,
            final(self)@ == (old(self)@.0, old(self)@.1.push(p@)),
    {
        self.files.push(p);
        assert(self@.1 =~= old(self)@.1.push(p@));
    }

    fn apply(&mut self, c: Line, Ghost(s): Ghost<Seq<char>>)
        requires
            old(self).wf(),
            classifies(c, s),
        ensures
            final(self).wf(),
            final(self)@ == apply_line(old(self)@, s),
    {
        match c {
            Line::Tag(k, v) => self.set_tag(k, v),
            Line::File(p) => self.push_file(p),
            Line::Comment => {},
        }
    }

    /// Takes in one line of a manifest, its terminator included or not.
    pub fn add_line(&mut self, line: &str)
        requires
            old(self).wf(),
        ensures
            final(self).wf(),
            final(self)@ == apply_line(old(self)@, line@),
    {
        let c = classify(line);
        self.apply(c, Ghost(line@));
    }

    /// Parses a whole manifest.
    pub fn from_text(text: &str) -> (r: Toc)
        ensures
            r.wf(),
            r@ == parse(text@),
    {
        let v = chars_of(text);
        let n = v.len();
        let mut toc = Toc::new();
        let mut start: usize = 0;
        let mut i: usize = 0;
        while i < n
            invariant
                n == v.len(),
                start <= i <= n,
                toc.wf(),
                lines_acc(v@.take(i as int)).1 == v@.subrange(start as int, i as int),
                toc@ == parse_lines(lines_acc(v@.take(i as int)).0),
            decreases n - i,
        {
            assert(v@.take(i + 1).drop_last() =~= v@.take(i as int));
            if v[i] == '\n' {
                let c = classify_range(&v, start, i + 1);
                assert(v@.subrange(start as int, i + 1) =~= v@.subrange(start as int, i as int).push('\n'));
                let ghost done = lines_acc(v@.take(i as int)).0;
                let ghost line = v@.subrange(start as int, i + 1);
                assert(done.push(line).drop_last() =~= done);
                toc.apply(c, Ghost(line));
                start = i + 1;
                assert(v@.subrange(start as int, i + 1) =~= seq![]);
            } else {
                assert(v@.subrange(start as int, i + 1) =~= v@.subrange(start as int, i as int).push(v[i as int]));
            }
            i += 1;
        }
        assert(v@.take(n as int) =~= text@);
        if start < n {
            let c = classify_range(&v, start, n);
            let ghost done = lines_acc(v@.take(n as int)).0;
            let ghost line = v@.subrange(start as int, n as int);
            assert(done.push(line).drop_last() =~= done);
            toc.apply(c, Ghost(line));
        }
        toc
    }

    /// The value of the tag `key`, if the manifest sets it.
    pub fn tag(&self, key: &str) -> (r: Option<&str>)
        requires
            self.wf(),
        ensures
            match r {
                Some(v) => self@.0.contains_key(key@) && v@ == self@.0[key@],
                None => !self@.0.contains_key(key@),
            },
    {
        let k = key.to_owned();
        let mut j: usize = 0;
        while j < self.tags.len()
            invariant
                j <= self.tags.len(),
                k@ == key@,
                self.wf(),
                forall|i: int| 0 <= i < j ==> self.tags@[i].0@ != k@,
            decreases self.tags.len() - j,
        {
            if self.tags[j].0 == k {
                proof {
                    lemma_tag_map_lookup(self.tags@, j as int);
                }
                return Some(self.tags[j].1.as_str());
            }
            j += 1;
        }
        proof {
            lemma_tag_map_absent(self.tags@, k@);
        }
        None
    }
}

} // verus!
