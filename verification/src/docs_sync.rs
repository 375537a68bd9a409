//! The code-block document format that mirrors workspace files into a shared document, and the
//! guard that keeps protected config sections from being overwritten remotely.
pub mod client;
pub mod share;
pub mod worker;

use vstd::prelude::*;
use crate::text::{
    chars_of, find_char, find_char_from, lemma_find_char_bounds, lines, push_char, push_range,
    push_str, starts_with, str_eq, string_of_range, trim, trim_range, vec_eq,
};

verus! {

/// Lexicographic order of character sequences by code point (the order of `String`).
pub open spec fn seq_lt(a: Seq<char>, b: Seq<char>) -> bool
    decreases a.len(),
{
    if a.len() == 0 {
        b.len() > 0
    } else if b.len() == 0 {
        false
    } else if a[0] != b[0] {
        (a[0] as u32) < (b[0] as u32)
    } else {
        seq_lt(a.drop_first(), b.drop_first())
    }
}

pub proof fn lemma_seq_lt_irreflexive(a: Seq<char>)
    ensures
        !seq_lt(a, a),
    decreases a.len(),
{
    if a.len() > 0 {
        lemma_seq_lt_irreflexive(a.drop_first());
    }
}

pub proof fn lemma_seq_lt_total(a: Seq<char>, b: Seq<char>)
    ensures
        a == b || seq_lt(a, b) || seq_lt(b, a),
        !(seq_lt(a, b) && seq_lt(b, a)),
    decreases a.len(),
{
    if a.len() == 0 || b.len() == 0 {
        if a.len() == 0 && b.len() == 0 {
            assert(a =~= b);
        }
    } else if a[0] != b[0] {
        vstd::utf8::char_u32_cast(a[0], a[0] as u32);
        vstd::utf8::char_u32_cast(b[0], b[0] as u32);
        assert((a[0] as u32) != (b[0] as u32));
    } else {
        lemma_seq_lt_total(a.drop_first(), b.drop_first());
        if a.drop_first() == b.drop_first() {
            assert(a =~= seq![a[0]] + a.drop_first());
            assert(b =~= seq![b[0]] + b.drop_first());
        }
    }
}

pub proof fn lemma_seq_lt_transitive(a: Seq<char>, b: Seq<char>, c: Seq<char>)
    requires
        seq_lt(a, b),
        seq_lt(b, c),
    ensures
        seq_lt(a, c),
    decreases a.len(),
{
    if a.len() > 0 && b.len() > 0 && c.len() > 0 {
        if a[0] == b[0] && b[0] == c[0] {
            lemma_seq_lt_transitive(a.drop_first(), b.drop_first(), c.drop_first());
        }
    }
}

/// Whether `a` sorts before `b` as strings do.
pub fn vec_lt(a: &Vec<char>, b: &Vec<char>) -> (r: bool)
    ensures
        r == seq_lt(a@, b@),
{
    let mut i: usize = 0;
    assert(a@.skip(0) =~= a@ && b@.skip(0) =~= b@);
    while i < a.len() && i < b.len() && a[i] == b[i]
        invariant
            i <= a.len(),
            i <= b.len(),
            seq_lt(a@, b@) == seq_lt(a@.skip(i as int), b@.skip(i as int)),
        decreases a.len() - i,
    {
        assert(a@.skip(i as int).drop_first() =~= a@.skip(i + 1));
        assert(b@.skip(i as int).drop_first() =~= b@.skip(i + 1));
        i = i + 1;
    }
    if i == a.len() {
        i < b.len()
    } else if i == b.len() {
        false
    } else {
        (a[i] as u32) < (b[i] as u32)
    }
}

/// The map that a list of `(name, content)` entries describes.
pub open spec fn entries_map(es: Seq<(Seq<char>, Seq<char>)>) -> Map<Seq<char>, Seq<char>>
    decreases es.len(),
{
    if es.len() == 0 {
        Map::empty()
    } else {
        entries_map(es.drop_last()).insert(es.last().0, es.last().1)
    }
}

/// Whether no name occurs twice among the entries.
pub open spec fn unique_keys(es: Seq<(Seq<char>, Seq<char>)>) -> bool {
    forall|i: int, j: int| 0 <= i < j < es.len() ==> es[i].0 != es[j].0
}

/// The views of stored entries.
pub open spec fn entry_views(es: Seq<(String, String)>) -> Seq<(Seq<char>, Seq<char>)> {
    es.map_values(|e: (String, String)| (e.0@, e.1@))
}

pub proof fn lemma_entries_map_contents(es: Seq<(Seq<char>, Seq<char>)>)
    requires
        unique_keys(es),
    ensures
        entries_map(es).dom().finite(),
        entries_map(es).dom().len() == es.len(),
        forall|k: Seq<char>|
            #[trigger] entries_map(es).dom().contains(k) <==> exists|i: int|
                0 <= i < es.len() && es[i].0 == k,
        forall|i: int| 0 <= i < es.len() ==> #[trigger] entries_map(es)[es[i].0] == es[i].1,
    decreases es.len(),
{
    if es.len() > 0 {
        let p = es.drop_last();
        assert(unique_keys(p));
        lemma_entries_map_contents(p);
        let m = entries_map(p);
        assert(!m.dom().contains(es.last().0)) by {
            if m.dom().contains(es.last().0) {
                let i = choose|i: int| 0 <= i < p.len() && p[i].0 == es.last().0;
                assert(es[i].0 == es[es.len() - 1].0);
            }
        }
        assert forall|k: Seq<char>| #[trigger] entries_map(es).dom().contains(k) <==> exists|i: int|
            0 <= i < es.len() && es[i].0 == k by {
            if k == es.last().0 {
                assert(es[es.len() - 1].0 == k);
            } else if m.dom().contains(k) {
                let i = choose|i: int| 0 <= i < p.len() && p[i].0 == k;
                assert(es[i].0 == k);
            } else {
                if exists|i: int| 0 <= i < es.len() && es[i].0 == k {
                    let i = choose|i: int| 0 <= i < es.len() && es[i].0 == k;
                    assert(i < es.len() - 1);
                    assert(p[i].0 == k);
                }
            }
        }
        assert forall|i: int| 0 <= i < es.len() implies #[trigger] entries_map(es)[es[i].0]
            == es[i].1 by {
            if i < es.len() - 1 {
                assert(p[i] == es[i]);
            }
        }
    }
}

/// Files by name, as the code-block format carries them. No name occurs twice.
pub struct FileMap {
    entries: Vec<(String, String)>,
}

impl FileMap {
    #[verifier::type_invariant]
    spec fn inv(self) -> bool {
        unique_keys(entry_views(self.entries@))
    }

    /// The stored entries, in storage order.
    pub closed spec fn entries(self) -> Seq<(Seq<char>, Seq<char>)> {
        entry_views(self.entries@)
    }

    /// The files as a map from name to content.
    pub open spec fn files(self) -> Map<Seq<char>, Seq<char>> {
        entries_map(self.entries())
    }

    /// An empty map.
    pub fn new() -> (m: FileMap)
        ensures
            m.files() == Map::<Seq<char>, Seq<char>>::empty(),
            m.entries().len() == 0,
    {
        let m = FileMap { entries: Vec::new() };
        assert(m.entries() =~= Seq::<(Seq<char>, Seq<char>)>::empty());
        m
    }

    /// The number of files.
    pub fn len(&self) -> (n: usize)
        ensures
            n == self.files().dom().len(),
    {
        proof {
            use_type_invariant(self);
            lemma_entries_map_contents(self.entries());
        }
        self.entries.len()
    }

    fn find(&self, key: &str) -> (r: Option<usize>)
        ensures
            match r {
                Some(i) => i < self.entries().len() && self.entries()[i as int].0 == key@,
                None => forall|i: int| 0 <= i < self.entries().len() ==> self.entries()[i].0 != key@,
            },
    {
        let mut i: usize = 0;
        while i < self.entries.len()
            invariant
                i <= self.entries@.len(),
                forall|j: int| 0 <= j < i ==> self.entries()[j].0 != key@,
            decreases self.entries.len() - i,
        {
            if str_eq(self.entries[i].0.as_str(), key) {
                return Some(i);
            }
            i = i + 1;
        }
        None
    }

    /// The stored entries, name and content, in storage order.
    pub fn pairs(&self) -> (r: &Vec<(String, String)>)
        ensures
            entry_views(r@) == self.entries(),
    {
        &self.entries
    }

    /// The stored names, in storage order.
    pub fn names(&self) -> (r: Vec<String>)
        ensures
            r@.len() == self.entries().len(),
            forall|i: int| 0 <= i < r@.len() ==> (#[trigger] r@[i])@ == self.entries()[i].0,
    {
        let mut out: Vec<String> = Vec::new();
        let mut i: usize = 0;
        while i < self.entries.len()
            invariant
                i <= self.entries@.len(),
                out@.len() == i,
                forall|k: int| 0 <= k < i ==> (#[trigger] out@[k])@ == self.entries()[k].0,
            decreases self.entries.len() - i,
        {
            out.push(self.entries[i].0.clone());
            i = i + 1;
        }
        out
    }

    /// The content stored under `key`.
    pub fn get(&self, key: &str) -> (r: Option<&String>)
        ensures
            match r {
                Some(v) => self.files().dom().contains(key@) && self.files()[key@] == v@,
                None => !self.files().dom().contains(key@),
            },
    {
        proof {
            use_type_invariant(self);
            lemma_entries_map_contents(self.entries());
        }
        match self.find(key) {
            Some(i) => {
                assert(self.entries()[i as int] == (self.entries@[i as int].0@, self.entries@[i as int].1@));
                Some(&self.entries[i].1)
            },
            None => None,
        }
    }

    /// Stores `value` under `key`, replacing any earlier content.
    pub fn insert(&mut self, key: String, value: String)
        ensures
            final(self).files() == old(self).files().insert(key@, value@),
    {
        proof {
            use_type_invariant(&*self);
            lemma_entries_map_contents(self.entries());
        }
        let ghost old_es = self.entries();
        match self.find(key.as_str()) {
            Some(i) => {
                let mut es: Vec<(String, String)> = Vec::new();
                std::mem::swap(&mut es, &mut self.entries);
                es.set(i, (key, value));
                let ghost new_es = entry_views(es@);
                assert(new_es =~= old_es.update(i as int, (key@, value@)));
                assert forall|x: int, y: int| 0 <= x < y < new_es.len() implies new_es[x].0
                    != new_es[y].0 by {
                    if x != i && y != i {
                        assert(new_es[x] == old_es[x] && new_es[y] == old_es[y]);
                    } else if x == i {
                        assert(new_es[y] == old_es[y]);
                    } else {
                        assert(new_es[x] == old_es[x]);
                    }
                }
                proof {
                    lemma_entries_map_contents(new_es);
                    assert forall|k: Seq<char>| #[trigger] entries_map(new_es).dom().contains(k)
                        <==> entries_map(old_es).insert(key@, value@).dom().contains(k) by {
                        assert(new_es[i as int].0 == key@);
                        if k != key@ && entries_map(old_es).dom().contains(k) {
                            let j = choose|j: int| 0 <= j < old_es.len() && old_es[j].0 == k;
                            assert(new_es[j].0 == k);
                        }
                        if entries_map(new_es).dom().contains(k) {
                            let j = choose|j: int| 0 <= j < new_es.len() && new_es[j].0 == k;
                            if j != i {
                                assert(old_es[j].0 == k);
                            }
                        }
                    }
                    assert forall|k: Seq<char>| #[trigger] entries_map(new_es).dom().contains(k)
                        implies entries_map(new_es)[k] == entries_map(old_es).insert(key@, value@)[k] by {
                        let j = choose|j: int| 0 <= j < new_es.len() && new_es[j].0 == k;
                        if j != i {
                            assert(old_es[j] == new_es[j]);
                        }
                    }
                    assert(entries_map(new_es) =~= entries_map(old_es).insert(key@, value@));
                }
                self.entries = es;
            },
            None => {
                let mut es: Vec<(String, String)> = Vec::new();
                std::mem::swap(&mut es, &mut self.entries);
                es.push((key, value));
                let ghost new_es = entry_views(es@);
                assert(new_es =~= old_es.push((key@, value@)));
                assert(new_es.drop_last() =~= old_es);
                self.entries = es;
            },
        }
    }
}


/// `s` with all trailing newlines removed.
pub open spec fn trim_end_newlines(s: Seq<char>) -> Seq<char>
    decreases s.len(),
{
    if s.len() > 0 && s.last() == '\n' {
        trim_end_newlines(s.drop_last())
    } else {
        s
    }
}

/// The opening of a block header line.
pub open spec fn header_open() -> Seq<char> {
    seq!['=', '=', '=', ' ']
}

/// The closing of a block header line.
pub open spec fn header_close() -> Seq<char> {
    seq![' ', '=', '=', '=']
}

/// The name that closes a block.
pub open spec fn end_name() -> Seq<char> {
    seq!['e', 'n', 'd']
}

/// The name in a header line `=== <name> ===` (surrounding whitespace ignored).
pub open spec fn header_name(line: Seq<char>) -> Option<Seq<char>> {
    let t = trim(line);
    if t.len() >= 8 && t.subrange(0, 4) == header_open() && t.subrange(t.len() - 4, t.len() as int)
        == header_close() {
        Some(t.subrange(4, t.len() - 4))
    } else {
        None
    }
}

/// The state of the block reader between lines.
pub struct BlockReader {
    pub file: Option<Seq<char>>,
    pub content: Seq<char>,
    pub result: Map<Seq<char>, Seq<char>>,
}

/// The reader before the first line.
pub open spec fn reader_start() -> BlockReader {
    BlockReader { file: None, content: Seq::empty(), result: Map::empty() }
}

/// The reader after one more line: a header opens a block (or closes it when named `end`,
/// storing its content without trailing newlines); inside a block other lines are collected,
/// joined by newlines; outside blocks they are ignored.
pub open spec fn read_line(st: BlockReader, line: Seq<char>) -> BlockReader {
    match header_name(line) {
        Some(name) => if name == end_name() {
            BlockReader {
                file: None,
                content: Seq::empty(),
                result: match st.file {
                    Some(f) => st.result.insert(f, trim_end_newlines(st.content)),
                    None => st.result,
                },
            }
        } else {
            BlockReader { file: Some(name), content: Seq::empty(), result: st.result }
        },
        None => if st.file is Some {
            BlockReader {
                file: st.file,
                content: (if st.content.len() > 0 {
                    st.content.push('\n')
                } else {
                    st.content
                }) + line,
                result: st.result,
            }
        } else {
            st
        },
    }
}

/// The reader after all of `ls`, read in order.
pub open spec fn read_lines(st: BlockReader, ls: Seq<Seq<char>>) -> BlockReader
    decreases ls.len(),
{
    if ls.len() == 0 {
        st
    } else {
        read_lines(read_line(st, ls[0]), ls.drop_first())
    }
}

/// Whether `s` ends with a newline.
pub open spec fn ends_with_newline(s: Seq<char>) -> bool {
    s.len() > 0 && s.last() == '\n'
}

/// Whether no value of `m` ends with a newline.
pub open spec fn no_value_ends_with_newline(m: Map<Seq<char>, Seq<char>>) -> bool {
    forall|k: Seq<char>| m.dom().contains(k) ==> !ends_with_newline(#[trigger] m[k])
}

/// What `trim_end_newlines` leaves does not end with a newline.
pub proof fn lemma_trimmed_newlines(s: Seq<char>)
    ensures
        !ends_with_newline(trim_end_newlines(s)),
    decreases s.len(),
{
    if s.len() > 0 && s.last() == '\n' {
        lemma_trimmed_newlines(s.drop_last());
    }
}

proof fn lemma_read_lines_clean(st: BlockReader, ls: Seq<Seq<char>>)
    requires
        no_value_ends_with_newline(st.result),
    ensures
        no_value_ends_with_newline(read_lines(st, ls).result),
    decreases ls.len(),
{
    if ls.len() > 0 {
        lemma_trimmed_newlines(st.content);
        let next = read_line(st, ls[0]);
        assert(no_value_ends_with_newline(next.result));
        lemma_read_lines_clean(next, ls.drop_first());
    }
}

/// The files that a code-block document describes.
pub open spec fn parse_spec(doc: Seq<char>) -> Map<Seq<char>, Seq<char>> {
    read_lines(reader_start(), lines(doc)).result
}

/// A parsed block's content never ends with a newline: the newlines before a block's end
/// line are not part of the file.
pub proof fn law_parsed_contents_have_no_trailing_newline(doc: Seq<char>)
    ensures
        no_value_ends_with_newline(parse_spec(doc)),
{
    lemma_read_lines_clean(reader_start(), lines(doc));
}

pub proof fn lemma_find_char_skip(s: Seq<char>, c: int, x: char, k: int)
    requires
        0 <= c <= s.len(),
        0 <= k,
    ensures
        find_char(s.skip(c), k, x) == match find_char(s, c + k, x) {
            Some(i) => Some(i - c),
            None => None::<int>,
        },
    decreases s.len() - c - k,
{
    if c + k < s.len() {
        lemma_find_char_skip(s, c, x, k + 1);
    }
}

/// The views of a list of character vectors.
pub open spec fn vviews(v: Seq<Vec<char>>) -> Seq<Seq<char>> {
    v.map_values(|x: Vec<char>| x@)
}

/// The lines of `v`, as `str::lines` yields them.
pub fn split_lines(v: &Vec<char>) -> (r: Vec<Vec<char>>)
    ensures
        vviews(r@) == lines(v@),
{
    let mut out: Vec<Vec<char>> = Vec::new();
    let mut cursor: usize = 0;
    assert(v@.skip(0) =~= v@);
    while cursor < v.len()
        invariant
            cursor <= v.len(),
            lines(v@) == vviews(out@) + lines(v@.skip(cursor as int)),
        decreases v.len() - cursor,
    {
        let ghost rest = v@.skip(cursor as int);
        proof {
            lemma_find_char_skip(v@, cursor as int, '\n', 0);
            lemma_find_char_bounds(v@, cursor as int, '\n');
        }
        let ghost old_out = vviews(out@);
        match find_char_from(v, cursor, '\n') {
            None => {
                let line = vslice(v, cursor, v.len());
                out.push(line);
                assert(rest =~= v@.subrange(cursor as int, v.len() as int));
                assert(vviews(out@) =~= old_out.push(rest));
                assert(v@.skip(v.len() as int) =~= Seq::<char>::empty());
                assert(lines(rest) == seq![rest]);
                assert(vviews(out@) + lines(v@.skip(v.len() as int)) =~= old_out + seq![rest]);
                cursor = v.len();
            },
            Some(i) => {
                let hi = if i > cursor && v[i - 1] == '\r' {
                    i - 1
                } else {
                    i
                };
                let line = vslice(v, cursor, hi);
                out.push(line);
                let ghost raw = rest.subrange(0, i - cursor);
                assert(raw =~= v@.subrange(cursor as int, i as int));
                proof {
                    if i > cursor && v@[i - 1] == '\r' {
                        assert(raw.drop_last() =~= v@.subrange(cursor as int, hi as int));
                    }
                }
                assert(rest.subrange(i - cursor + 1, rest.len() as int) =~= v@.skip(i + 1));
                assert(vviews(out@) =~= old_out.push(line@));
                assert(vviews(out@) + lines(v@.skip(i + 1)) =~= old_out + (seq![line@] + lines(
                    v@.skip(i + 1),
                )));
                cursor = i + 1;
            },
        }
    }
    assert(v@.skip(cursor as int) =~= Seq::<char>::empty());
    assert(vviews(out@) + Seq::<Seq<char>>::empty() =~= vviews(out@));
    out
}

/// A copy of `v[lo..hi]`.
pub fn vslice(v: &Vec<char>, lo: usize, hi: usize) -> (r: Vec<char>)
    requires
        lo <= hi <= v.len(),
    ensures
        r@ == v@.subrange(lo as int, hi as int),
{
    let mut out: Vec<char> = Vec::new();
    let mut i = lo;
    while i < hi
        invariant
            lo <= i <= hi <= v.len(),
            out@ == v@.subrange(lo as int, i as int),
        decreases hi - i,
    {
        out.push(v[i]);
        assert(v@.subrange(lo as int, i + 1) =~= v@.subrange(lo as int, i as int).push(v@[i as int]));
        i = i + 1;
    }
    out
}


fn header_name_exec(line: &Vec<char>) -> (r: Option<Vec<char>>)
    ensures
        match r {
            Some(n) => header_name(line@) == Some(n@),
            None => header_name(line@) is None,
        },
{
    let (a, b) = trim_range(line, 0, line.len());
    assert(line@.subrange(0, line@.len() as int) =~= line@);
    let ghost t = line@.subrange(a as int, b as int);
    if b - a < 8 {
        return None;
    }
    let open = vec!['=', '=', '=', ' '];
    let close = vec![' ', '=', '=', '='];
    assert(open@ =~= header_open());
    assert(close@ =~= header_close());
    let o = crate::text::occurs_at_exec(line, a, &open);
    let c = crate::text::occurs_at_exec(line, b - 4, &close);
    assert(t.subrange(0, 4) =~= line@.subrange(a as int, a + 4));
    assert(t.subrange(t.len() - 4, t.len() as int) =~= line@.subrange(b - 4, b as int));
    if o && c {
        let n = vslice(line, a + 4, b - 4);
        assert(n@ =~= t.subrange(4, t.len() - 4));
        Some(n)
    } else {
        None
    }
}

fn trim_end_newlines_exec(v: &Vec<char>) -> (r: String)
    ensures
        r@ == trim_end_newlines(v@),
        !ends_with_newline(r@),
{
    proof {
        lemma_trimmed_newlines(v@);
    }
    let mut hi = v.len();
    assert(v@.subrange(0, v@.len() as int) =~= v@);
    while hi > 0 && v[hi - 1] == '\n'
        invariant
            hi <= v.len(),
            trim_end_newlines(v@) == trim_end_newlines(v@.subrange(0, hi as int)),
        decreases hi,
    {
        assert(v@.subrange(0, hi as int).drop_last() =~= v@.subrange(0, hi - 1));
        hi = hi - 1;
    }
    string_of_range(v, 0, hi)
}

fn vec_string(v: &Vec<char>) -> (r: String)
    ensures
        r@ == v@,
{
    assert(v@.subrange(0, v@.len() as int) =~= v@);
    string_of_range(v, 0, v.len())
}

/// The view of an optional string.
pub open spec fn opt_string_view(o: Option<String>) -> Option<Seq<char>> {
    match o {
        Some(s) => Some(s@),
        None => None,
    }
}

/// Reads the files of a code-block document:
///
/// ```text
/// === config.toml ===
/// <file content>
/// === end ===
/// ```
pub fn parse_code_blocks(doc_content: &str) -> (r: FileMap)
    ensures
        r.files() == parse_spec(doc_content@),
        no_value_ends_with_newline(r.files()),
{
    proof {
        law_parsed_contents_have_no_trailing_newline(doc_content@);
    }
    let v = chars_of(doc_content);
    let ls = split_lines(&v);
    let ghost lsv = vviews(ls@);
    let mut file: Option<String> = None;
    let mut content: Vec<char> = Vec::new();
    let mut result = FileMap::new();
    let mut i: usize = 0;
    assert(lsv.skip(0) =~= lsv);
    assert(reader_start() == (BlockReader { file: opt_string_view(file), content: content@, result: result.files() }));
    while i < ls.len()
        invariant
            i <= ls.len(),
            lsv == vviews(ls@),
            lsv == lines(v@),
            v@ == doc_content@,
            read_lines(reader_start(), lsv) == read_lines(
                BlockReader { file: opt_string_view(file), content: content@, result: result.files() },
                lsv.skip(i as int),
            ),
        decreases ls.len() - i,
    {
        let ghost st = BlockReader { file: opt_string_view(file), content: content@, result: result.files() };
        let line = &ls[i];
        assert(lsv.skip(i as int).drop_first() =~= lsv.skip(i + 1));
        assert(lsv.skip(i as int)[0] == line@);
        match header_name_exec(line) {
            Some(name) => {
                let end = vec!['e', 'n', 'd'];
                assert(end@ =~= end_name());
                if vec_eq(&name, &end) {
                    match file {
                        Some(f) => {
                            let c = trim_end_newlines_exec(&content);
                            result.insert(f, c);
                        },
                        None => {},
                    }
                    file = None;
                    content = Vec::new();
                } else {
                    file = Some(vec_string(&name));
                    content = Vec::new();
                }
            },
            None => {
                if file.is_some() {
                    if content.len() > 0 {
                        content.push('\n');
                    }
                    let mut k: usize = 0;
                    let ghost before = content@;
                    while k < line.len()
                        invariant
                            k <= line@.len(),
                            content@ == before + line@.subrange(0, k as int),
                        decreases line.len() - k,
                    {
                        content.push(line[k]);
                        assert(line@.subrange(0, k + 1) =~= line@.subrange(0, k as int).push(line@[k as int]));
                        k = k + 1;
                    }
                    assert(line@.subrange(0, line@.len() as int) =~= line@);
                }
            },
        }
        assert(read_line(st, line@) == (BlockReader { file: opt_string_view(file), content: content@, result: result.files() }));
        i = i + 1;
    }
    assert(lsv.skip(ls.len() as int) =~= Seq::<Seq<char>>::empty());
    result
}


/// Whether `name` is one of the sections a remote config may not touch.
pub open spec fn protected_name(name: Seq<char>) -> bool {
    name == "security"@ || name == "gateway"@ || name == "autonomy"@
}

/// The protected section a config line opens, written `[name]`: the line, trimmed, is `[`,
/// a protected name (spaces around it allowed), `]`, and then nothing but spaces or a `#`
/// comment.
pub open spec fn protected_header(line: Seq<char>) -> Option<Seq<char>> {
    let t = trim(line);
    if t.len() > 0 && t[0] == '[' {
        match find_char(t, 1, ']') {
            Some(j) => {
                let name = trim(t.subrange(1, j));
                let rest = trim(t.subrange(j + 1, t.len() as int));
                if protected_name(name) && (rest.len() == 0 || rest[0] == '#') {
                    Some(seq!['['] + name + seq![']'])
                } else {
                    None
                }
            },
            None => None,
        }
    } else {
        None
    }
}

/// The section opened by the first line, in order, that is a protected section header.
pub open spec fn first_forbidden(ls: Seq<Seq<char>>) -> Option<Seq<char>>
    decreases ls.len(),
{
    if ls.len() == 0 {
        None
    } else {
        match protected_header(ls[0]) {
            Some(h) => Some(h),
            None => first_forbidden(ls.drop_first()),
        }
    }
}

/// The protected section the line `line` opens, if it opens one.
fn protected_header_of(line: &Vec<char>) -> (r: Option<String>)
    ensures
        match r {
            Some(h) => protected_header(line@) == Some(h@),
            None => protected_header(line@) is None,
        },
{
    let (a, b) = trim_range(line, 0, line.len());
    assert(line@.subrange(0, line@.len() as int) =~= line@);
    if a == b || line[a] != '[' {
        return None;
    }
    let ts = string_of_range(line, a, b);
    let t = chars_of(ts.as_str());
    assert(t@ == trim(line@));
    let j = match find_char_from(&t, 1, ']') {
        Some(j) => j,
        None => return None,
    };
    proof {
        lemma_find_char_bounds(t@, 1, ']');
    }
    let (na, nb) = trim_range(&t, 1, j);
    let (ra, rb) = trim_range(&t, j + 1, t.len());
    let named = crate::text::range_eq(&t, na, nb, "security") || crate::text::range_eq(
        &t,
        na,
        nb,
        "gateway",
    ) || crate::text::range_eq(&t, na, nb, "autonomy");
    if !named {
        return None;
    }
    if ra < rb && t[ra] != '#' {
        return None;
    }
    let mut h = String::new();
    push_char(&mut h, '[');
    push_range(&mut h, &t, na, nb);
    push_char(&mut h, ']');
    assert(h@ =~= seq!['['] + t@.subrange(na as int, nb as int) + seq![']']);
    Some(h)
}

/// Rejects remote config content that holds a `[security]`, `[gateway]` or `[autonomy]`
/// section header (inner spaces and a trailing comment included), naming the first one found.
pub fn validate_remote_config(content: &str) -> (r: Result<(), String>)
    ensures
        match first_forbidden(lines(content@)) {
            None => r is Ok,
            Some(f) => r matches Err(m) && m@ == "Remote config contains forbidden section "@ + f
                + "; rejecting sync"@,
        },
{
    let v = chars_of(content);
    let ls = split_lines(&v);
    let ghost lsv = vviews(ls@);
    let mut i: usize = 0;
    assert(lsv.skip(0) =~= lsv);
    while i < ls.len()
        invariant
            i <= ls.len(),
            lsv == vviews(ls@),
            lsv == lines(content@),
            first_forbidden(lsv) == first_forbidden(lsv.skip(i as int)),
        decreases ls.len() - i,
    {
        assert(lsv.skip(i as int).drop_first() =~= lsv.skip(i + 1));
        assert(lsv.skip(i as int)[0] == ls@[i as int]@);
        let line = &ls[i];
        match protected_header_of(line) {
            Some(h) => {
                let mut m = String::new();
                push_str(&mut m, "Remote config contains forbidden section ");
                push_str(&mut m, h.as_str());
                push_str(&mut m, "; rejecting sync");
                return Err(m);
            },
            None => {},
        }
        i = i + 1;
    }
    assert(lsv.skip(ls.len() as int) =~= Seq::<Seq<char>>::empty());
    Ok(())
}

/// The closing line of a block.
pub open spec fn end_line() -> Seq<char> {
    seq!['=', '=', '=', ' ', 'e', 'n', 'd', ' ', '=', '=', '=', '\n']
}

/// One file as a block: header, content (newline-terminated) and end line.
pub open spec fn block(name: Seq<char>, content: Seq<char>) -> Seq<char> {
    header_open() + name + header_close() + seq!['\n'] + content + (if content.len() > 0
        && content.last() == '\n' {
        Seq::empty()
    } else {
        seq!['\n']
    }) + end_line()
}

/// The blocks of `es`, in order.
pub open spec fn blocks(es: Seq<(Seq<char>, Seq<char>)>) -> Seq<char>
    decreases es.len(),
{
    if es.len() == 0 {
        Seq::empty()
    } else {
        blocks(es.drop_last()) + block(es.last().0, es.last().1)
    }
}

/// Whether the names of `es` strictly increase.
pub open spec fn sorted_by_name(es: Seq<(Seq<char>, Seq<char>)>) -> bool {
    forall|i: int, j: int| 0 <= i < j < es.len() ==> seq_lt(es[i].0, es[j].0)
}

proof fn lemma_insert_sorted(
    s: Seq<(Seq<char>, Seq<char>)>,
    pos: int,
    e: (Seq<char>, Seq<char>),
)
    requires
        0 <= pos <= s.len(),
        sorted_by_name(s),
        unique_keys(s),
        forall|j: int| 0 <= j < pos ==> seq_lt(#[trigger] s[j].0, e.0),
        forall|j: int| pos <= j < s.len() ==> seq_lt(e.0, #[trigger] s[j].0),
    ensures
        sorted_by_name(s.insert(pos, e)),
        unique_keys(s.insert(pos, e)),
        entries_map(s.insert(pos, e)) == entries_map(s).insert(e.0, e.1),
{
    let t = s.insert(pos, e);
    assert forall|i: int, j: int| 0 <= i < j < t.len() implies seq_lt(t[i].0, t[j].0) by {
        if i < pos && j == pos {
        } else if i == pos && j > pos {
        } else if i < pos && j > pos {
            lemma_seq_lt_transitive(s[i].0, e.0, s[j - 1].0);
        } else if j < pos {
        } else {
            assert(t[i] == s[i - 1] && t[j] == s[j - 1]);
        }
    }
    assert forall|i: int, j: int| 0 <= i < j < t.len() implies t[i].0 != t[j].0 by {
        lemma_seq_lt_irreflexive(t[i].0);
    }
    lemma_entries_map_contents(s);
    lemma_entries_map_contents(t);
    let m = entries_map(s).insert(e.0, e.1);
    assert forall|k: Seq<char>| #[trigger] entries_map(t).dom().contains(k) <==> m.dom().contains(
        k,
    ) by {
        if entries_map(t).dom().contains(k) {
            let i = choose|i: int| 0 <= i < t.len() && t[i].0 == k;
            if i < pos {
                assert(s[i].0 == k);
            } else if i > pos {
                assert(s[i - 1].0 == k);
            }
        }
        if m.dom().contains(k) && k != e.0 {
            let i = choose|i: int| 0 <= i < s.len() && s[i].0 == k;
            if i < pos {
                assert(t[i].0 == k);
            } else {
                assert(t[i + 1].0 == k);
            }
        }
        if k == e.0 {
            assert(t[pos].0 == k);
        }
    }
    assert forall|k: Seq<char>| #[trigger] entries_map(t).dom().contains(k) implies entries_map(
        t,
    )[k] == m[k] by {
        let i = choose|i: int| 0 <= i < t.len() && t[i].0 == k;
        if i < pos {
            assert(t[i] == s[i]);
            lemma_seq_lt_irreflexive(k);
        } else if i > pos {
            assert(t[i] == s[i - 1]);
            lemma_seq_lt_irreflexive(k);
        }
    }
    assert(entries_map(t) =~= m);
}

/// Writes the files as code blocks, in ascending name order.
pub fn serialize_to_code_blocks(files: &FileMap) -> (r: String)
    ensures
        exists|es: Seq<(Seq<char>, Seq<char>)>|
            sorted_by_name(es) && entries_map(es) == files.files() && r@ == blocks(es),
{
    proof {
        use_type_invariant(files);
    }
    let ghost all = files.entries();
    let mut sorted: Vec<(Vec<char>, String)> = Vec::new();
    let mut i: usize = 0;
    while i < files.entries.len()
        invariant
            i <= files.entries@.len(),
            all == files.entries(),
            unique_keys(all),
            sorted_by_name(sviews(sorted@)),
            unique_keys(sviews(sorted@)),
            entries_map(sviews(sorted@)) == entries_map(all.take(i as int)),
            forall|j: int| 0 <= j < sorted@.len() ==> exists|k: int|
                0 <= k < i && #[trigger] sviews(sorted@)[j].0 == all[k].0,
        decreases files.entries.len() - i,
    {
        let key = chars_of(files.entries[i].0.as_str());
        let value = files.entries[i].1.clone();
        let ghost e = (key@, value@);
        assert(e == all[i as int]);
        let ghost sv = sviews(sorted@);
        let mut pos: usize = 0;
        while pos < sorted.len() && vec_lt(&sorted[pos].0, &key)
            invariant
                pos <= sorted@.len(),
                sv == sviews(sorted@),
                sorted_by_name(sv),
                forall|j: int| 0 <= j < pos ==> seq_lt(#[trigger] sv[j].0, key@),
            decreases sorted.len() - pos,
        {
            pos = pos + 1;
        }
        proof {
            assert forall|j: int| 0 <= j < sv.len() implies sv[j].0 != key@ by {
                let k = choose|k: int| 0 <= k < i && sv[j].0 == all[k].0;
            }
            assert forall|j: int| pos <= j < sv.len() implies seq_lt(key@, #[trigger] sv[j].0) by {
                if pos < sv.len() {
                    lemma_seq_lt_total(sv[pos as int].0, key@);
                    if j > pos {
                        lemma_seq_lt_transitive(key@, sv[pos as int].0, sv[j].0);
                    }
                }
            }
            lemma_insert_sorted(sv, pos as int, e);
            assert(all.take(i + 1).drop_last() =~= all.take(i as int));
        }
        sorted.insert(pos, (key, value));
        assert(sviews(sorted@) =~= sv.insert(pos as int, e));
        proof {
            assert forall|j: int| 0 <= j < sorted@.len() implies exists|k: int|
                0 <= k < i + 1 && #[trigger] sviews(sorted@)[j].0 == all[k].0 by {
                if j < pos {
                    let k = choose|k: int| 0 <= k < i && sv[j].0 == all[k].0;
                } else if j > pos {
                    let k = choose|k: int| 0 <= k < i && sv[j - 1].0 == all[k].0;
                } else {
                    assert(sviews(sorted@)[j].0 == all[i as int].0);
                }
            }
        }
        i = i + 1;
    }
    assert(all.take(all.len() as int) =~= all);
    let ghost es = sviews(sorted@);
    let mut out = String::new();
    let mut j: usize = 0;
    while j < sorted.len()
        invariant
            j <= sorted@.len(),
            es == sviews(sorted@),
            out@ == blocks(es.take(j as int)),
        decreases sorted.len() - j,
    {
        let ghost before = out@;
        push_str(&mut out, "=== ");
        push_range(&mut out, &sorted[j].0, 0, sorted[j].0.len());
        push_str(&mut out, " ===");
        push_char(&mut out, '\n');
        let content = sorted[j].1.as_str();
        push_str(&mut out, content);
        let cv = chars_of(content);
        if !(cv.len() > 0 && cv[cv.len() - 1] == '\n') {
            push_char(&mut out, '\n');
        }
        push_str(&mut out, "=== end ===\n");
        proof {
            reveal_strlit("=== ");
            reveal_strlit(" ===");
            reveal_strlit("=== end ===\n");
            assert("=== "@ =~= header_open());
            assert(" ==="@ =~= header_close());
            assert("=== end ===\n"@ =~= end_line());
            assert(sorted@[j as int].0@.subrange(0, sorted@[j as int].0@.len() as int) =~= sorted@[j as int].0@);
            assert(es.take(j + 1).drop_last() =~= es.take(j as int));
            let b = block(es[j as int].0, es[j as int].1);
            assert(out@ =~= before + b);
        }
        j = j + 1;
    }
    assert(es.take(es.len() as int) =~= es);
    out
}

/// The views of sorted entries.
pub open spec fn sviews(v: Seq<(Vec<char>, String)>) -> Seq<(Seq<char>, Seq<char>)> {
    v.map_values(|e: (Vec<char>, String)| (e.0@, e.1@))
}


/// Whether a file name survives the block format: one line, and not the closing name `end`.
pub open spec fn roundtrip_name(k: Seq<char>) -> bool {
    &&& forall|i: int| 0 <= i < k.len() ==> k[i] != '\n'
    &&& k != end_name()
}

/// Whether `s` holds no `\r` directly before a `\n`.
pub open spec fn no_crlf(s: Seq<char>) -> bool {
    forall|i: int| 0 <= i < s.len() - 1 ==> !(#[trigger] s[i] == '\r' && s[i + 1] == '\n')
}

/// Whether a file content survives the block format: it neither begins nor ends with a
/// newline, no line ending of it (nor its end) is preceded by `\r`, and none of its lines is
/// a block header.
pub open spec fn roundtrip_content(v: Seq<char>) -> bool {
    &&& v.len() == 0 || (v[0] != '\n' && v.last() != '\n')
    &&& no_crlf(v.push('\n'))
    &&& forall|j: int| 0 <= j < lines(v).len() ==> header_name(#[trigger] lines(v)[j]) is None
}

/// `ls` joined with newlines, each line preceded by one.
pub open spec fn join_after(ls: Seq<Seq<char>>) -> Seq<char>
    decreases ls.len(),
{
    if ls.len() == 0 {
        Seq::empty()
    } else {
        seq!['\n'] + ls[0] + join_after(ls.drop_first())
    }
}

proof fn lemma_find_first_newline_prefix(a: Seq<char>, b: Seq<char>)
    requires
        find_char(a, 0, '\n') is Some,
    ensures
        find_char(a + b, 0, '\n') == find_char(a, 0, '\n'),
{
    crate::text::lemma_find_char_bounds(a, 0, '\n');
    crate::text::lemma_find_char_bounds(a + b, 0, '\n');
    let i = find_char(a, 0, '\n')->0;
    assert((a + b)[i] == '\n');
    match find_char(a + b, 0, '\n') {
        Some(j) => {
            if j < i {
                assert((a + b)[j] == a[j]);
            }
        },
        None => {},
    }
}

proof fn lemma_lines_append(a: Seq<char>, b: Seq<char>)
    requires
        a.len() > 0,
        a.last() == '\n',
    ensures
        lines(a + b) == lines(a) + lines(b),
    decreases a.len(),
{
    crate::text::lemma_find_char_bounds(a, 0, '\n');
    assert(a[a.len() - 1] == '\n');
    lemma_find_first_newline_prefix(a, b);
    let i = find_char(a, 0, '\n')->0;
    let s = a + b;
    assert(s.subrange(0, i) =~= a.subrange(0, i));
    let ra = a.subrange(i + 1, a.len() as int);
    assert(s.subrange(i + 1, s.len() as int) =~= ra + b);
    if i + 1 == a.len() {
        assert(ra =~= Seq::<char>::empty());
        assert(ra + b =~= b);
        assert(lines(ra) =~= Seq::<Seq<char>>::empty());
    } else {
        lemma_lines_append(ra, b);
    }
    assert(lines(s) =~= lines(a) + lines(b));
}

proof fn lemma_lines_single(x: Seq<char>)
    requires
        forall|i: int| 0 <= i < x.len() ==> x[i] != '\n',
        x.len() == 0 || x.last() != '\r',
    ensures
        lines(x.push('\n')) == seq![x],
{
    let s = x.push('\n');
    crate::text::lemma_find_char_bounds(s, 0, '\n');
    assert(s[x.len() as int] == '\n');
    let i = find_char(s, 0, '\n')->0;
    assert(i == x.len()) by {
        if i < x.len() {
            assert(s[i] == x[i]);
        }
    }
    assert(find_char(s, 0, '\n') == Some(x.len() as int));
    assert(s.subrange(0, i) =~= x);
    assert(s.subrange(i + 1, s.len() as int) =~= Seq::<char>::empty());
    assert(lines(Seq::<char>::empty()) =~= Seq::<Seq<char>>::empty());
    assert(lines(s) == seq![x] + lines(s.subrange(i + 1, s.len() as int)));
    assert(lines(s) =~= seq![x]);
}

proof fn lemma_read_lines_append(st: BlockReader, a: Seq<Seq<char>>, b: Seq<Seq<char>>)
    ensures
        read_lines(st, a + b) == read_lines(read_lines(st, a), b),
    decreases a.len(),
{
    if a.len() > 0 {
        assert((a + b)[0] == a[0]);
        assert((a + b).drop_first() =~= a.drop_first() + b);
        lemma_read_lines_append(read_line(st, a[0]), a.drop_first(), b);
    } else {
        assert(a + b =~= b);
    }
}

proof fn lemma_trim_fixed(t: Seq<char>)
    requires
        t.len() > 0,
        !crate::text::is_ws(t[0]),
        !crate::text::is_ws(t.last()),
    ensures
        trim(t) == t,
{
}

proof fn lemma_header_line(k: Seq<char>)
    ensures
        header_name(header_open() + k + header_close()) == Some(k),
{
    let t = header_open() + k + header_close();
    assert(t[0] == '=');
    assert(t[t.len() - 1] == '=');
    lemma_trim_fixed(t);
    assert(t.subrange(0, 4) =~= header_open());
    assert(t.subrange(t.len() - 4, t.len() as int) =~= header_close());
    assert(t.subrange(4, t.len() - 4) =~= k);
}

proof fn lemma_end_line()
    ensures
        lines(end_line()) == seq![header_open() + end_name() + header_close()],
        header_name(header_open() + end_name() + header_close()) == Some(end_name()),
{
    let x = header_open() + end_name() + header_close();
    assert(end_line() =~= x.push('\n'));
    lemma_lines_single(x);
    lemma_header_line(end_name());
}

proof fn lemma_read_tail(f: Seq<char>, c: Seq<char>, m: Map<Seq<char>, Seq<char>>, ls: Seq<Seq<char>>)
    requires
        c.len() > 0,
        forall|j: int| 0 <= j < ls.len() ==> header_name(#[trigger] ls[j]) is None,
    ensures
        read_lines(BlockReader { file: Some(f), content: c, result: m }, ls) == (BlockReader {
            file: Some(f),
            content: c + join_after(ls),
            result: m,
        }),
    decreases ls.len(),
{
    if ls.len() == 0 {
        assert(c + join_after(ls) =~= c);
    } else {
        let c2 = c.push('\n') + ls[0];
        assert(forall|j: int| 0 <= j < ls.drop_first().len() ==> ls.drop_first()[j] == ls[j + 1]);
        lemma_read_tail(f, c2, m, ls.drop_first());
        assert(c2 + join_after(ls.drop_first()) =~= c + join_after(ls));
    }
}

proof fn lemma_content_lines(v: Seq<char>)
    requires
        v.len() > 0,
        v.last() != '\n',
        no_crlf(v.push('\n')),
    ensures
        lines(v.push('\n')) == lines(v),
        lines(v).len() > 0,
        lines(v)[0] + join_after(lines(v).drop_first()) == v,
        v[0] != '\n' ==> lines(v)[0].len() > 0,
    decreases v.len(),
{
    let s = v.push('\n');
    crate::text::lemma_find_char_bounds(v, 0, '\n');
    crate::text::lemma_find_char_bounds(s, 0, '\n');
    match find_char(v, 0, '\n') {
        None => {
            assert(forall|i: int| 0 <= i < v.len() ==> v[i] != '\n');
            assert(v.last() != '\r') by {
                assert(s[v.len() - 1] == v.last() && s[v.len() as int] == '\n');
            }
            lemma_lines_single(v);
            assert(lines(v) == seq![v]);
            assert(join_after(lines(v).drop_first()) =~= Seq::<char>::empty());
            assert(lines(v)[0] + Seq::<char>::empty() =~= v);
        },
        Some(i) => {
            lemma_find_first_newline_prefix(v, seq!['\n']);
            assert(s =~= v + seq!['\n']);
            let rv = v.subrange(i + 1, v.len() as int);
            assert(i < v.len() - 1);
            assert(s.subrange(i + 1, s.len() as int) =~= rv.push('\n'));
            assert(s.subrange(0, i) =~= v.subrange(0, i));
            assert(rv.last() == v.last());
            assert(no_crlf(rv.push('\n'))) by {
                assert forall|j: int| 0 <= j < rv.push('\n').len() - 1 implies !(#[trigger] rv.push(
                    '\n',
                )[j] == '\r' && rv.push('\n')[j + 1] == '\n') by {
                    assert(rv.push('\n')[j] == s[i + 1 + j]);
                    assert(rv.push('\n')[j + 1] == s[i + 2 + j]);
                }
            }
            lemma_content_lines(rv);
            let raw = v.subrange(0, i);
            assert(raw.len() == 0 || raw.last() != '\r') by {
                if raw.len() > 0 {
                    assert(s[i - 1] == raw.last() && s[i] == '\n');
                }
            }
            assert(lines(v) == seq![raw] + lines(rv));
            assert(lines(s) == seq![raw] + lines(rv.push('\n')));
            assert(lines(v).drop_first() =~= lines(rv));
            let lr = lines(rv);
            assert(join_after(lr) =~= seq!['\n'] + lr[0] + join_after(lr.drop_first()));
            assert(join_after(lr) =~= seq!['\n'] + rv);
            assert(v[i] == '\n');
            assert(raw + (seq!['\n'] + rv) =~= v);
            if v[0] != '\n' {
                assert(i > 0);
            }
        },
    }
}

proof fn lemma_read_block(k: Seq<char>, v: Seq<char>, m: Map<Seq<char>, Seq<char>>)
    requires
        roundtrip_name(k),
        roundtrip_content(v),
    ensures
        lines(block(k, v)) == seq![header_open() + k + header_close()] + lines(v.push('\n')) + seq![
            header_open() + end_name() + header_close()],
        read_lines(BlockReader { file: None, content: Seq::empty(), result: m }, lines(block(k, v)))
            == (BlockReader { file: None, content: Seq::empty(), result: m.insert(k, v) }),
{
    let h = header_open() + k + header_close();
    let a = h.push('\n');
    let b = v.push('\n');
    let c = end_line();
    assert(block(k, v) =~= a + b + c);
    lemma_lines_append(a, b);
    lemma_lines_append(a + b, c);
    assert(h.last() == '=');
    assert forall|i: int| 0 <= i < h.len() implies h[i] != '\n' by {
        if 4 <= i < 4 + k.len() {
            assert(h[i] == k[i - 4]);
        }
    }
    lemma_lines_single(h);
    lemma_end_line();
    let ls = lines(b);
    let st0 = BlockReader { file: None, content: Seq::empty(), result: m };
    lemma_header_line(k);
    let st1 = BlockReader { file: Some(k), content: Seq::empty(), result: m };
    assert(read_line(st0, h) == st1);
    let all = seq![h] + ls + seq![header_open() + end_name() + header_close()];
    assert(lines(block(k, v)) == all);
    lemma_read_lines_append(st0, seq![h], ls + seq![header_open() + end_name() + header_close()]);
    assert(all =~= seq![h] + (ls + seq![header_open() + end_name() + header_close()]));
    assert(read_lines(st0, seq![h]) == st1) by {
        assert(seq![h].drop_first() =~= Seq::<Seq<char>>::empty());
        assert(seq![h][0] == h);
        assert(read_lines(st1, Seq::<Seq<char>>::empty()) == st1);
    }
    lemma_read_lines_append(st1, ls, seq![header_open() + end_name() + header_close()]);
    let st2 = BlockReader { file: Some(k), content: v, result: m };
    if v.len() == 0 {
        lemma_lines_single(v);
        assert(ls == seq![v]);
        assert(header_name(v) is None) by {
            assert(trim(v) =~= v);
        }
        assert(read_lines(st1, ls) == read_lines(read_line(st1, v), ls.drop_first()));
        assert(ls.drop_first() =~= Seq::<Seq<char>>::empty());
        assert(read_line(st1, v).content =~= v);
    } else {
        lemma_content_lines(v);
        assert(ls.len() > 0 && ls[0].len() > 0);
        let c1 = ls[0];
        assert(header_name(ls[0]) is None);
        assert(read_line(st1, ls[0]).content =~= c1);
        assert(forall|j: int| 0 <= j < ls.drop_first().len() ==> ls.drop_first()[j] == ls[j + 1]);
        lemma_read_tail(k, c1, m, ls.drop_first());
    }
    assert(read_lines(st1, ls) == st2);
    let e = seq![header_open() + end_name() + header_close()];
    assert(read_lines(st2, e) == read_line(st2, e[0])) by {
        assert(e.drop_first() =~= Seq::<Seq<char>>::empty());
        assert(read_lines(read_line(st2, e[0]), Seq::<Seq<char>>::empty()) == read_line(st2, e[0]));
    }
    assert(trim_end_newlines(v) == v);
}

proof fn lemma_blocks_read(es: Seq<(Seq<char>, Seq<char>)>)
    requires
        forall|i: int|
            0 <= i < es.len() ==> roundtrip_name(#[trigger] es[i].0) && roundtrip_content(es[i].1),
    ensures
        read_lines(reader_start(), lines(blocks(es))) == (BlockReader {
            file: None,
            content: Seq::empty(),
            result: entries_map(es),
        }),
        es.len() == 0 || (blocks(es).len() > 0 && blocks(es).last() == '\n'),
    decreases es.len(),
{
    if es.len() == 0 {
        assert(lines(blocks(es)) =~= Seq::<Seq<char>>::empty());
        assert(reader_start().result =~= Map::<Seq<char>, Seq<char>>::empty());
    } else {
        let p = es.drop_last();
        assert(forall|i: int| 0 <= i < p.len() ==> p[i] == es[i]);
        lemma_blocks_read(p);
        let (k, v) = es.last();
        assert(es[es.len() - 1] == es.last());
        let bp = blocks(p);
        let bl = block(k, v);
        if p.len() == 0 {
            assert(bp + bl =~= bl);
        } else {
            lemma_lines_append(bp, bl);
        }
        assert(lines(blocks(es)) == lines(bp) + lines(bl)) by {
            if p.len() == 0 {
                assert(lines(bp) =~= Seq::<Seq<char>>::empty());
                assert(lines(bp) + lines(bl) =~= lines(bl));
            }
        }
        lemma_read_lines_append(reader_start(), lines(bp), lines(bl));
        lemma_read_block(k, v, entries_map(p));
        assert(bl.last() == '\n');
        assert((bp + bl).last() == '\n');
    }
}

/// Law: writing files as code blocks and reading the text back gives the same files, for
/// every set of files whose names and contents fit the format (see `roundtrip_name` and
/// `roundtrip_content`). `text` is any result of `serialize_to_code_blocks` for `files`.
pub proof fn law_code_block_roundtrip(files: Map<Seq<char>, Seq<char>>, text: Seq<char>)
    requires
        exists|es: Seq<(Seq<char>, Seq<char>)>|
            sorted_by_name(es) && entries_map(es) == files && text == blocks(es),
        forall|k: Seq<char>|
            #[trigger] files.dom().contains(k) ==> roundtrip_name(k) && roundtrip_content(files[k]),
    ensures
        parse_spec(text) == files,
{
    let es = choose|es: Seq<(Seq<char>, Seq<char>)>|
        sorted_by_name(es) && entries_map(es) == files && text == blocks(es);
    assert(unique_keys(es)) by {
        assert forall|i: int, j: int| 0 <= i < j < es.len() implies es[i].0 != es[j].0 by {
            lemma_seq_lt_irreflexive(es[i].0);
        }
    }
    lemma_entries_map_contents(es);
    assert forall|i: int| 0 <= i < es.len() implies roundtrip_name(#[trigger] es[i].0)
        && roundtrip_content(es[i].1) by {
        assert(files.dom().contains(es[i].0));
    }
    lemma_blocks_read(es);
}

} // verus!
