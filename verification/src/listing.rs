//! A function's listing as the debugger shows it: lines of text nested under
//! one another, each line that stands for an instruction labelled with the
//! instruction's offset, and the line number of each such offset.

use vstd::prelude::*;
use std::collections::BTreeMap;

verus! {

broadcast use {vstd::std_specs::btree::group_btree_axioms, vstd::laws_cmp::group_laws_cmp};

/// A line of a listing: the offset it stands for, a prefix, its text, and the
/// lines nested under it.
#[derive(Debug)]
pub struct SourceLine {
    pub index: Option<usize>,
    pub prefix: Option<String>,
    pub content: String,
    pub children: Vec<SourceLine>,
}

/// A listing: its text, and the line (from 1) of each offset that a line stands for.
#[derive(Debug)]
pub struct Source {
    pub index_to_line: BTreeMap<usize, usize>,
    pub content: String,
}

/// A listing being written: the lines written so far and the listing.
#[derive(Debug)]
pub struct SourceCollector {
    pub line: usize,
    pub source: Source,
}

/// The digit character of `d`.
pub open spec fn digit_char(d: nat) -> char {
    (d + 48) as char
}

/// The decimal digits of `n`, without leading zeros.
pub open spec fn decimal(n: nat) -> Seq<char>
    decreases n,
{
    if n < 10 {
        seq![digit_char(n)]
    } else {
        decimal(n / 10) + seq![digit_char(n % 10)]
    }
}

/// `s` repeated `n` times.
pub open spec fn repeated(s: Seq<char>, n: nat) -> Seq<char>
    decreases n,
{
    if n == 0 {
        Seq::empty()
    } else {
        repeated(s, (n - 1) as nat) + s
    }
}

/// The label of a line: its offset and `: `, or nothing.
pub open spec fn index_label(index: Option<usize>) -> Seq<char> {
    match index {
        Some(i) => decimal(i as nat) + ": "@,
        None => Seq::empty(),
    }
}

/// `s` right-aligned in a field of `width` characters: spaces before it, as
/// many as it is short of the width.
pub open spec fn right_aligned(s: Seq<char>, width: nat) -> Seq<char> {
    if s.len() < width {
        repeated(" "@, (width - s.len()) as nat) + s
    } else {
        s
    }
}

/// The text of a line's prefix; nothing when it has none.
pub open spec fn prefix_text(prefix: Option<String>) -> Seq<char> {
    match prefix {
        Some(p) => p@,
        None => Seq::empty(),
    }
}

/// The text of one line at depth `indent`: the label right-aligned in eight
/// characters, four spaces per level of depth, the prefix, the text, and a
/// line break.
pub open spec fn line_text(l: SourceLine, indent: nat) -> Seq<char> {
    right_aligned(index_label(l.index), 8) + repeated("    "@, indent) + prefix_text(l.prefix)
        + l.content@ + "\n"@
}

/// The text of a line and, one level deeper, of the lines under it.
pub open spec fn rendered(l: SourceLine, indent: nat) -> Seq<char>
    decreases l,
{
    line_text(l, indent) + rendered_all(l.children@, indent + 1)
}

/// The text of lines at depth `indent`, one after the other.
pub open spec fn rendered_all(s: Seq<SourceLine>, indent: nat) -> Seq<char>
    decreases s,
{
    if s.len() == 0 {
        Seq::empty()
    } else {
        rendered_all(s.subrange(0, s.len() - 1), indent) + rendered(s[s.len() - 1], indent)
    }
}

/// The number of lines of a line and the lines under it.
pub open spec fn line_count(l: SourceLine) -> nat
    decreases l,
{
    1 + line_count_all(l.children@)
}

/// The number of lines of lines and the lines under them.
pub open spec fn line_count_all(s: Seq<SourceLine>) -> nat
    decreases s,
{
    if s.len() == 0 {
        0
    } else {
        line_count_all(s.subrange(0, s.len() - 1)) + line_count(s[s.len() - 1])
    }
}

/// The depth of a line and the lines under it.
pub open spec fn height(l: SourceLine) -> nat
    decreases l,
{
    1 + height_all(l.children@)
}

/// The greatest depth of lines and the lines under them.
pub open spec fn height_all(s: Seq<SourceLine>) -> nat
    decreases s,
{
    if s.len() == 0 {
        0
    } else {
        let a = height_all(s.subrange(0, s.len() - 1));
        let b = height(s[s.len() - 1]);
        if a >= b {
            a
        } else {
            b
        }
    }
}

/// The lines of offsets after writing a line, with `written` lines before it:
/// the line's offset, when it has one, is on line `written + 1`, and the lines
/// under it follow.
pub open spec fn numbered(m: Map<usize, usize>, l: SourceLine, written: nat) -> Map<usize, usize>
    decreases l,
{
    let m1 = match l.index {
        Some(i) => m.insert(i, (written + 1) as usize),
        None => m,
    };
    numbered_all(m1, l.children@, written + 1)
}

/// The lines of offsets after writing lines one after the other.
pub open spec fn numbered_all(m: Map<usize, usize>, s: Seq<SourceLine>, written: nat) -> Map<
    usize,
    usize,
>
    decreases s,
{
    if s.len() == 0 {
        m
    } else {
        let pre = s.subrange(0, s.len() - 1);
        numbered(numbered_all(m, pre, written), s[s.len() - 1], written + line_count_all(pre))
    }
}

/// A line as plain data: the offset it stands for, its prefix, its text, and
/// the lines nested under it.
#[verifier::ext_equal]
pub struct LineModel {
    pub index: Option<usize>,
    pub prefix: Option<Seq<char>>,
    pub content: Seq<char>,
    pub children: Seq<LineModel>,
}

/// A line as plain data.
pub open spec fn line_model(l: SourceLine) -> LineModel
    decreases l,
{
    LineModel {
        index: l.index,
        prefix: match l.prefix {
            Some(p) => Some(p@),
            None => None,
        },
        content: l.content@,
        children: line_models(l.children@),
    }
}

/// Lines as plain data, one after the other.
pub open spec fn line_models(s: Seq<SourceLine>) -> Seq<LineModel>
    decreases s,
{
    if s.len() == 0 {
        Seq::empty()
    } else {
        line_models(s.subrange(0, s.len() - 1)).push(line_model(s[s.len() - 1]))
    }
}

/// One more line adds its data at the end.
pub proof fn lemma_line_models_push(s: Seq<SourceLine>, l: SourceLine)
    ensures
        line_models(s.push(l)) == line_models(s).push(line_model(l)),
{
    assert(s.push(l).subrange(0, s.len() as int) =~= s);
}

/// One more line written after others: its text follows theirs, and its
/// offset's line follows their lines.
pub proof fn lemma_rendered_push(s: Seq<SourceLine>, l: SourceLine, m: Map<usize, usize>)
    ensures
        rendered_all(s.push(l), 0) == rendered_all(s, 0) + rendered(l, 0),
        numbered_all(m, s.push(l), 0) == numbered(numbered_all(m, s, 0), l, line_count_all(s)),
        line_count_all(s.push(l)) == line_count_all(s) + line_count(l),
{
    assert(s.push(l).subrange(0, s.len() as int) =~= s);
}

/// The counts of the lines before line `i`, and of line `i`, add up to no
/// more than the count of all the lines; so does line `i`'s depth.
proof fn lemma_prefix_bounds(s: Seq<SourceLine>, i: int)
    requires
        0 <= i < s.len(),
    ensures
        line_count_all(s.subrange(0, i)) + line_count(s[i]) <= line_count_all(s),
        height(s[i]) <= height_all(s),
    decreases s.len(),
{
    let pre = s.subrange(0, s.len() - 1);
    if i == s.len() - 1 {
        assert(pre =~= s.subrange(0, i));
    } else {
        lemma_prefix_bounds(pre, i);
        assert(pre.subrange(0, i) =~= s.subrange(0, i));
        assert(pre[i] == s[i]);
    }
}

/// The text of one decimal digit.
pub(crate) fn digit_text(d: usize) -> (r: &'static str)
    requires
        d < 10,
    ensures
        r@ == seq![digit_char(d as nat)],
{
    match d {
        0 => {
            proof {
                reveal_strlit("0");
            }
            "0"
        },
        1 => {
            proof {
                reveal_strlit("1");
            }
            "1"
        },
        2 => {
            proof {
                reveal_strlit("2");
            }
            "2"
        },
        3 => {
            proof {
                reveal_strlit("3");
            }
            "3"
        },
        4 => {
            proof {
                reveal_strlit("4");
            }
            "4"
        },
        5 => {
            proof {
                reveal_strlit("5");
            }
            "5"
        },
        6 => {
            proof {
                reveal_strlit("6");
            }
            "6"
        },
        7 => {
            proof {
                reveal_strlit("7");
            }
            "7"
        },
        8 => {
            proof {
                reveal_strlit("8");
            }
            "8"
        },
        _ => {
            proof {
                reveal_strlit("9");
            }
            "9"
        },
    }
}

/// The decimal text of a number: its digits, without leading zeros.
fn decimal_text(n: usize) -> (r: String)
    ensures
        r@ == decimal(n as nat),
    decreases n,
{
    if n < 10 {
        String::from_str(digit_text(n))
    } else {
        let mut r = decimal_text(n / 10);
        r.append(digit_text(n % 10));
        r
    }
}

/// `s` followed by `text` repeated `n` times.
fn append_repeated(s: &mut String, text: &str, n: usize)
    ensures
        final(s)@ == old(s)@ + repeated(text@, n as nat),
{
    let mut k: usize = 0;
    while k < n
        invariant
            k <= n,
            s@ == old(s)@ + repeated(text@, k as nat),
        decreases n - k,
    {
        s.append(text);
        k = k + 1;
        assert(s@ =~= old(s)@ + repeated(text@, k as nat));
    }
}

impl SourceLine {
    /// The line with a prefix in front of its text.
    pub fn prefix(self, prefix: String) -> (r: SourceLine)
        ensures
            r.index == self.index,
            r.prefix == Some(prefix),
            r.content == self.content,
            r.children == self.children,
    {
        SourceLine { index: self.index, prefix: Some(prefix), content: self.content, children: self.children }
    }

    /// A line with just a text.
    pub fn from_content(content: String) -> (r: SourceLine)
        ensures
            r.index is None,
            r.prefix is None,
            r.content == content,
            r.children@.len() == 0,
    {
        SourceLine { index: None, prefix: None, content, children: Vec::new() }
    }

    /// The text of this line at depth `indent`.
    fn text(&self, indent: usize) -> (r: String)
        ensures
            r@ == line_text(*self, indent as nat),
    {
        let label = match self.index {
            Some(i) => {
                let mut t = decimal_text(i);
                t.append(": ");
                t
            },
            None => String::new(),
        };
        assert(label@ == index_label(self.index));
        let width = label.as_str().unicode_len();
        let mut r = String::new();
        if width < 8 {
            append_repeated(&mut r, " ", 8 - width);
        }
        r.append(label.as_str());
        assert(r@ =~= right_aligned(index_label(self.index), 8));
        append_repeated(&mut r, "    ", indent);
        match &self.prefix {
            Some(p) => r.append(p.as_str()),
            None => {},
        }
        assert(r@ =~= right_aligned(index_label(self.index), 8) + repeated("    "@, indent as nat)
            + prefix_text(self.prefix));
        r.append(self.content.as_str());
        r.append("\n");
        r
    }

    /// Writes this line at depth `indent`, and the lines under it one level
    /// deeper: the text goes to the listing, each line counts, and each line
    /// that stands for an offset records the offset's line.
    pub fn write(&self, out: &mut SourceCollector, indent: usize)
        requires
            old(out).line + line_count(*self) <= usize::MAX,
            indent + height(*self) <= usize::MAX,
        ensures
            final(out).line == old(out).line + line_count(*self),
            final(out).source.content@ == old(out).source.content@ + rendered(*self, indent as nat),
            final(out).source.index_to_line@ == numbered(
                old(out).source.index_to_line@,
                *self,
                old(out).line as nat,
            ),
        decreases self,
    {
        let ghost start = *old(out);
        let text = self.text(indent);
        out.source.content.append(text.as_str());
        out.line = out.line + 1;
        match self.index {
            Some(index) => {
                out.source.index_to_line.insert(index, out.line);
            },
            None => {},
        }
        let ghost m1 = out.source.index_to_line@;
        let ghost c1 = out.source.content@;
        let children = &self.children;
        assert(children@.subrange(0, 0) =~= Seq::<SourceLine>::empty());
        let mut i: usize = 0;
        while i < children.len()
            invariant
                i <= children@.len(),
                children == &self.children,
                start.line + line_count(*self) <= usize::MAX,
                indent + height(*self) <= usize::MAX,
                line_count(*self) == 1 + line_count_all(children@),
                height(*self) == 1 + height_all(children@),
                out.line == start.line + 1 + line_count_all(children@.subrange(0, i as int)),
                out.source.content@ == c1 + rendered_all(children@.subrange(0, i as int), indent as nat + 1),
                out.source.index_to_line@ == numbered_all(m1, children@.subrange(0, i as int), start.line as nat + 1),
            decreases children@.len() - i,
        {
            proof {
                lemma_prefix_bounds(children@, i as int);
            }
            let ghost before = *out;
            children[i].write(out, indent + 1);
            proof {
                let pre = children@.subrange(0, i as int);
                let next = children@.subrange(0, i + 1);
                assert(next.subrange(0, next.len() - 1) =~= pre);
                assert(next[next.len() - 1] == children@[i as int]);
            }
            i = i + 1;
        }
        assert(children@.subrange(0, i as int) =~= children@);
        assert(out.source.content@ =~= start.source.content@ + rendered(*self, indent as nat));
    }
}

impl Source {
    /// The line of offset `index` in the listing; line 1 when no line stands
    /// for it.
    pub fn line_of(&self, index: usize) -> (r: i64)
        ensures
            r == (if self.index_to_line@.contains_key(index) {
                self.index_to_line@[index] as i64
            } else {
                1i64
            }),
    {
        match self.index_to_line.get(&index) {
            Some(line) => *line as i64,
            None => 1,
        }
    }
}

impl SourceCollector {
    /// An empty listing with no line written.
    pub fn new() -> (r: SourceCollector)
        ensures
            r.line == 0,
            r.source.content@ == Seq::<char>::empty(),
            r.source.index_to_line@ == Map::<usize, usize>::empty(),
    {
        SourceCollector { line: 0, source: Source { index_to_line: BTreeMap::new(), content: String::new() } }
    }
}

/// Writing lines keeps every offset already recorded.
pub proof fn lemma_numbered_keeps(m: Map<usize, usize>, l: SourceLine, written: nat, k: usize)
    requires
        m.contains_key(k),
    ensures
        numbered(m, l, written).contains_key(k),
    decreases l,
{
    let m1 = match l.index {
        Some(i) => m.insert(i, (written + 1) as usize),
        None => m,
    };
    lemma_numbered_all_keeps(m1, l.children@, written + 1, k);
}

/// Writing lines one after the other keeps every offset already recorded.
pub proof fn lemma_numbered_all_keeps(m: Map<usize, usize>, s: Seq<SourceLine>, written: nat, k: usize)
    requires
        m.contains_key(k),
    ensures
        numbered_all(m, s, written).contains_key(k),
    decreases s,
{
    if s.len() > 0 {
        let pre = s.subrange(0, s.len() - 1);
        lemma_numbered_all_keeps(m, pre, written, k);
        lemma_numbered_keeps(numbered_all(m, pre, written), s[s.len() - 1], written + line_count_all(pre), k);
    }
}

/// Writing a line that stands for an offset records that offset.
pub proof fn lemma_numbered_records(m: Map<usize, usize>, l: SourceLine, written: nat)
    requires
        l.index is Some,
    ensures
        numbered(m, l, written).contains_key(l.index->0),
{
    let m1 = m.insert(l.index->0, (written + 1) as usize);
    lemma_numbered_all_keeps(m1, l.children@, written + 1, l.index->0);
}

} // verus!
