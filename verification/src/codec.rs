//! The persistence codec: the line-oriented text format that holds the two
//! lists between runs. A file is a sequence of lines, each `TODO: <text>` or
//! `DONE: <text>`; anything else is malformed and fails the whole load with
//! the 1-based number of the offending line. Saving writes every todo item
//! first, then every done item, one line each.

use vstd::prelude::*;

verus! {

use vstd::string::StrSliceExecFns;

/// Which list a line of the state file belongs to, and which tab is active
/// on screen.
#[derive(Clone, Copy, PartialEq, Eq, Structural, Debug)]
pub enum Status {
    Todo,
    Done,
}

impl Status {
    /// The other tab.
    pub open spec fn toggle_spec(self) -> Status {
        match self {
            Status::Todo => Status::Done,
            Status::Done => Status::Todo,
        }
    }

    /// Switch between the todo tab and the done tab.
    pub fn toggle(&self) -> (r: Self)
        ensures
            r == self.toggle_spec(),
    {
        match self {
            Status::Todo => Status::Done,
            Status::Done => Status::Todo,
        }
    }
}

/// The characters that trimming strips from the ends of an item: the Unicode
/// white-space characters.
pub open spec fn is_ws(c: char) -> bool {
    c == '\u{0009}' || c == '\u{000A}' || c == '\u{000B}' || c == '\u{000C}' || c == '\u{000D}'
        || c == '\u{0020}' || c == '\u{0085}' || c == '\u{00A0}' || c == '\u{1680}'
        || c == '\u{2000}' || c == '\u{2001}' || c == '\u{2002}' || c == '\u{2003}'
        || c == '\u{2004}' || c == '\u{2005}' || c == '\u{2006}' || c == '\u{2007}'
        || c == '\u{2008}' || c == '\u{2009}' || c == '\u{200A}' || c == '\u{2028}'
        || c == '\u{2029}' || c == '\u{202F}' || c == '\u{205F}' || c == '\u{3000}'
}

/// Whether `c` counts as whitespace for trimming.
fn is_ws_char(c: char) -> (r: bool)
    ensures
        r == is_ws(c),
{
    c == '\u{0009}' || c == '\u{000A}' || c == '\u{000B}' || c == '\u{000C}' || c == '\u{000D}'
        || c == '\u{0020}' || c == '\u{0085}' || c == '\u{00A0}' || c == '\u{1680}'
        || c == '\u{2000}' || c == '\u{2001}' || c == '\u{2002}' || c == '\u{2003}'
        || c == '\u{2004}' || c == '\u{2005}' || c == '\u{2006}' || c == '\u{2007}'
        || c == '\u{2008}' || c == '\u{2009}' || c == '\u{200A}' || c == '\u{2028}'
        || c == '\u{2029}' || c == '\u{202F}' || c == '\u{205F}' || c == '\u{3000}'
}

/// `s` without its leading whitespace.
pub open spec fn trim_start_spec(s: Seq<char>) -> Seq<char>
    decreases s.len(),
{
    if s.len() > 0 && is_ws(s[0]) {
        trim_start_spec(s.subrange(1, s.len() as int))
    } else {
        s
    }
}

/// `s` without its trailing whitespace.
pub open spec fn trim_end_spec(s: Seq<char>) -> Seq<char>
    decreases s.len(),
{
    if s.len() > 0 && is_ws(s[s.len() - 1]) {
        trim_end_spec(s.subrange(0, s.len() - 1))
    } else {
        s
    }
}

/// `s` without its surrounding whitespace.
pub open spec fn trim_spec(s: Seq<char>) -> Seq<char> {
    trim_end_spec(trim_start_spec(s))
}

/// Trim the surrounding whitespace from `s`, returning the middle slice.
pub fn trim_str<'a>(s: &'a str) -> (r: &'a str)
    ensures
        r@ == trim_spec(s@),
{
    let len = s.unicode_len();
    proof {
        assert(s@.subrange(0, len as int) =~= s@);
    }
    let mut start: usize = 0;
    while start < len && is_ws_char(s.get_char(start))
        invariant
            len == s@.len(),
            start <= len,
            trim_start_spec(s@) == trim_start_spec(s@.subrange(start as int, len as int)),
        decreases len - start,
    {
        proof {
            let sub = s@.subrange(start as int, len as int);
            assert(sub[0] == s@[start as int]);
            assert(sub.subrange(1, sub.len() as int) =~= s@.subrange(
                start as int + 1,
                len as int,
            ));
        }
        start = start + 1;
    }
    proof {
        let sub = s@.subrange(start as int, len as int);
        if (start as int) < len {
            assert(sub[0] == s@[start as int]);
        }
        assert(trim_start_spec(sub) == sub);
    }
    let mut end: usize = len;
    while end > start && is_ws_char(s.get_char(end - 1))
        invariant
            len == s@.len(),
            start <= end <= len,
            trim_start_spec(s@) == s@.subrange(start as int, len as int),
            trim_end_spec(s@.subrange(start as int, len as int)) == trim_end_spec(
                s@.subrange(start as int, end as int),
            ),
        decreases end,
    {
        proof {
            let sub = s@.subrange(start as int, end as int);
            assert(sub[sub.len() - 1] == s@[end - 1]);
            assert(sub.subrange(0, sub.len() - 1) =~= s@.subrange(start as int, end as int - 1));
        }
        end = end - 1;
    }
    proof {
        let sub = s@.subrange(start as int, end as int);
        if end > start {
            assert(sub[sub.len() - 1] == s@[end as int - 1]);
        }
        assert(trim_end_spec(sub) == sub);
    }
    s.substring_char(start, end)
}

/// The tag that opens every todo line of the state file.
pub open spec fn todo_prefix() -> Seq<char> {
    "TODO: "@
}

/// The tag that opens every done line of the state file.
pub open spec fn done_prefix() -> Seq<char> {
    "DONE: "@
}

/// Whether `line` opens with `prefix`.
pub open spec fn starts_with_spec(line: Seq<char>, prefix: Seq<char>) -> bool {
    line.len() >= prefix.len() && line.subrange(0, prefix.len() as int) == prefix
}

/// Whether `line` opens with the todo tag.
fn has_todo_prefix(line: &str) -> (r: bool)
    ensures
        r == starts_with_spec(line@, todo_prefix()),
{
    proof {
        reveal_strlit("TODO: ");
    }
    if line.unicode_len() < 6 {
        return false;
    }
    let r = line.get_char(0) == 'T' && line.get_char(1) == 'O' && line.get_char(2) == 'D'
        && line.get_char(3) == 'O' && line.get_char(4) == ':' && line.get_char(5) == ' ';
    proof {
        if r {
            assert(line@.subrange(0, 6) =~= todo_prefix());
        } else if starts_with_spec(line@, todo_prefix()) {
            assert(forall|i: int| 0 <= i < 6 ==> line@.subrange(0, 6)[i] == line@[i]);
            assert(false);
        }
    }
    r
}

/// Whether `line` opens with the done tag.
fn has_done_prefix(line: &str) -> (r: bool)
    ensures
        r == starts_with_spec(line@, done_prefix()),
{
    proof {
        reveal_strlit("DONE: ");
    }
    if line.unicode_len() < 6 {
        return false;
    }
    let r = line.get_char(0) == 'D' && line.get_char(1) == 'O' && line.get_char(2) == 'N'
        && line.get_char(3) == 'E' && line.get_char(4) == ':' && line.get_char(5) == ' ';
    proof {
        if r {
            assert(line@.subrange(0, 6) =~= done_prefix());
        } else if starts_with_spec(line@, done_prefix()) {
            assert(forall|i: int| 0 <= i < 6 ==> line@.subrange(0, 6)[i] == line@[i]);
            assert(false);
        }
    }
    r
}

/// What a line of the state file means: the list it belongs to and the
/// trimmed item text, or nothing when the line is malformed.
pub open spec fn parse_line_spec(line: Seq<char>) -> Option<(Status, Seq<char>)> {
    if starts_with_spec(line, todo_prefix()) {
        Some(
            (
                Status::Todo,
                trim_spec(line.subrange(todo_prefix().len() as int, line.len() as int)),
            ),
        )
    } else if starts_with_spec(line, done_prefix()) {
        Some(
            (
                Status::Done,
                trim_spec(line.subrange(done_prefix().len() as int, line.len() as int)),
            ),
        )
    } else {
        None
    }
}

/// Parse one line of the state file into its list tag and trimmed item text;
/// `None` exactly on a malformed line.
pub fn parse_item<'a>(line: &'a str) -> (r: Option<(Status, &'a str)>)
    ensures
        r is Some <==> parse_line_spec(line@) is Some,
        r matches Some(p) ==> parse_line_spec(line@) == Some((p.0, p.1@)),
{
    proof {
        reveal_strlit("TODO: ");
        reveal_strlit("DONE: ");
    }
    if has_todo_prefix(line) {
        let rest = line.substring_char(6, line.unicode_len());
        let item = trim_str(rest);
        Some((Status::Todo, item))
    } else if has_done_prefix(line) {
        let rest = line.substring_char(6, line.unicode_len());
        let item = trim_str(rest);
        Some((Status::Done, item))
    } else {
        None
    }
}

/// Length of the first line of `s`: the index of its first newline, or the
/// whole length when it holds none.
pub open spec fn line_len(s: Seq<char>) -> int
    decreases s.len(),
{
    if s.len() == 0 {
        0
    } else if s[0] == '\n' {
        0
    } else {
        1 + line_len(s.subrange(1, s.len() as int))
    }
}

/// The first line of `s` runs up to the first newline: nothing before it is
/// one, and a newline stands right after it unless the text ends there.
pub proof fn lemma_line_len_bounds(s: Seq<char>)
    ensures
        0 <= line_len(s) <= s.len(),
        line_len(s) < s.len() ==> s[line_len(s)] == '\n',
        forall|i: int| 0 <= i < line_len(s) ==> s[i] != '\n',
    decreases s.len(),
{
    if s.len() == 0 || s[0] == '\n' {
    } else {
        let sub = s.subrange(1, s.len() as int);
        lemma_line_len_bounds(sub);
        assert forall|i: int| 0 <= i < line_len(s) implies s[i] != '\n' by {
            if i >= 1 {
                assert(s[i] == sub[i - 1]);
            }
        }
        if line_len(s) < s.len() {
            assert(s[line_len(s)] == sub[line_len(s) - 1]);
        }
    }
}

/// A position with no newline before it and a newline (or the end) at it is
/// exactly the length of the first line.
pub proof fn lemma_line_len_at(s: Seq<char>, k: int)
    requires
        0 <= k <= s.len(),
        forall|i: int| 0 <= i < k ==> s[i] != '\n',
        k < s.len() ==> s[k] == '\n',
    ensures
        line_len(s) == k,
    decreases s.len(),
{
    if s.len() == 0 {
    } else if k == 0 {
    } else {
        let sub = s.subrange(1, s.len() as int);
        assert forall|i: int| 0 <= i < k - 1 implies sub[i] != '\n' by {
            assert(sub[i] == s[i + 1]);
        }
        if k - 1 < sub.len() {
            assert(sub[k - 1] == s[k]);
        }
        lemma_line_len_at(sub, k - 1);
    }
}

/// The lines of `s`: the maximal newline-free runs, where a trailing newline
/// ends the last line rather than opening an empty one.
pub open spec fn split_lines_spec(s: Seq<char>) -> Seq<Seq<char>>
    decreases s.len()
        via split_lines_spec_decreases
{
    if s.len() == 0 {
        seq![]
    } else {
        let n = line_len(s);
        if n == s.len() {
            seq![s]
        } else {
            seq![s.subrange(0, n)] + split_lines_spec(s.subrange(n + 1, s.len() as int))
        }
    }
}

#[via_fn]
proof fn split_lines_spec_decreases(s: Seq<char>) {
    lemma_line_len_bounds(s);
}

/// Whether every line of the file parses.
pub open spec fn lines_ok(lines: Seq<Seq<char>>) -> bool {
    forall|i: int| 0 <= i < lines.len() ==> (#[trigger] parse_line_spec(lines[i])) is Some
}

/// The index of the first malformed line, on a file that holds one.
pub open spec fn first_bad(lines: Seq<Seq<char>>) -> int
    decreases lines.len(),
{
    if lines.len() == 0 {
        0
    } else if parse_line_spec(lines[0]) is None {
        0
    } else {
        1 + first_bad(lines.subrange(1, lines.len() as int))
    }
}

/// On a malformed file, `first_bad` is exactly what its name says: it lands
/// on a line that does not parse, and every line before it parses.
pub proof fn lemma_first_bad_is_first(lines: Seq<Seq<char>>)
    requires
        !lines_ok(lines),
    ensures
        0 <= first_bad(lines) < lines.len(),
        parse_line_spec(lines[first_bad(lines)]) is None,
        forall|i: int| 0 <= i < first_bad(lines) ==> (#[trigger] parse_line_spec(lines[i])) is Some,
    decreases lines.len(),
{
    assert(lines.len() > 0);
    if parse_line_spec(lines[0]) is None {
    } else {
        let tail = lines.subrange(1, lines.len() as int);
        assert(!lines_ok(tail)) by {
            if lines_ok(tail) {
                assert forall|i: int|
                    0 <= i < lines.len() implies (#[trigger] parse_line_spec(lines[i])) is Some by {
                    if i >= 1 {
                        assert(lines[i] == tail[i - 1]);
                    }
                }
            }
        }
        lemma_first_bad_is_first(tail);
        assert(lines[first_bad(lines)] == tail[first_bad(tail)]);
        assert forall|i: int|
            0 <= i < first_bad(lines) implies (#[trigger] parse_line_spec(lines[i])) is Some by {
            if i >= 1 {
                assert(lines[i] == tail[i - 1]);
            }
        }
    }
}

/// Well-formed lines ahead of a tail only shift where its first malformed
/// line sits.
pub proof fn lemma_first_bad_append(a: Seq<Seq<char>>, b: Seq<Seq<char>>)
    requires
        lines_ok(a),
    ensures
        first_bad(a + b) == a.len() + first_bad(b),
    decreases a.len(),
{
    if a.len() == 0 {
        assert(a + b =~= b);
    } else {
        let a1 = a.subrange(1, a.len() as int);
        assert((a + b)[0] == a[0]);
        assert((a + b).subrange(1, (a + b).len() as int) =~= a1 + b);
        assert(lines_ok(a1)) by {
            assert(forall|i: int| 0 <= i < a1.len() ==> a1[i] == a[i + 1]);
        }
        lemma_first_bad_append(a1, b);
    }
}

/// The items of the lines tagged `st`, in file order.
pub open spec fn items_of(lines: Seq<Seq<char>>, st: Status) -> Seq<Seq<char>>
    decreases lines.len(),
{
    if lines.len() == 0 {
        seq![]
    } else {
        let rest = items_of(lines.drop_last(), st);
        match parse_line_spec(lines.last()) {
            Some(p) => if p.0 == st {
                rest.push(p.1)
            } else {
                rest
            },
            None => rest,
        }
    }
}

/// The character sequences of a list of items.
pub open spec fn texts_of(items: Seq<String>) -> Seq<Seq<char>> {
    Seq::new(items.len(), |i: int| items[i]@)
}

/// A malformed line of the state file, by its 1-based line number.
#[derive(Clone, Copy, PartialEq, Eq, Structural, Debug)]
pub struct ParseError {
    pub line: usize,
}

/// Bucket the lines of a state file into the two lists, appending to what
/// the lists already hold. The whole load succeeds exactly when every line
/// parses; on a malformed file nothing is appended and the error names the
/// 1-based number of the first bad line.
pub fn load_state(todos: &mut Vec<String>, done: &mut Vec<String>, content: &str) -> (r: Result<
    (),
    ParseError,
>)
    ensures
        r is Ok <==> lines_ok(split_lines_spec(content@)),
        r is Ok ==> texts_of(final(todos)@) == texts_of(old(todos)@) + items_of(
            split_lines_spec(content@),
            Status::Todo,
        ),
        r is Ok ==> texts_of(final(done)@) == texts_of(old(done)@) + items_of(
            split_lines_spec(content@),
            Status::Done,
        ),
        r matches Err(e) ==> final(todos)@ == old(todos)@ && final(done)@ == old(done)@ && e.line
            == first_bad(split_lines_spec(content@)) + 1,
{
    let len = content.unicode_len();
    let mut t: Vec<String> = Vec::new();
    let mut d: Vec<String> = Vec::new();
    let mut pos: usize = 0;
    let mut line_no: usize = 0;
    let ghost mut lines_done: Seq<Seq<char>> = Seq::empty();
    proof {
        assert(content@.subrange(0, len as int) =~= content@);
    }
    while pos < len
        invariant
            len == content@.len(),
            pos <= len,
            line_no <= pos,
            line_no == lines_done.len(),
            lines_ok(lines_done),
            split_lines_spec(content@) == lines_done + split_lines_spec(
                content@.subrange(pos as int, len as int),
            ),
            texts_of(t@) == items_of(lines_done, Status::Todo),
            texts_of(d@) == items_of(lines_done, Status::Done),
        decreases len - pos,
    {
        let ghost rest = content@.subrange(pos as int, len as int);
        let mut end: usize = pos;
        while end < len && content.get_char(end) != '\n'
            invariant
                len == content@.len(),
                pos <= end <= len,
                forall|i: int| pos <= i < end ==> content@[i] != '\n',
            decreases len - end,
        {
            end = end + 1;
        }
        let line = content.substring_char(pos, end);
        proof {
            assert forall|i: int| 0 <= i < end - pos implies rest[i] != '\n' by {
                assert(rest[i] == content@[pos + i]);
            }
            if end < len {
                assert(rest[end - pos] == content@[end as int]);
            }
            lemma_line_len_at(rest, end - pos);
            assert(line@ =~= rest.subrange(0, end - pos));
            assert(split_lines_spec(rest)[0] == line@) by {
                if end - pos == rest.len() {
                    assert(line@ =~= rest);
                }
            }
        }
        match parse_item(line) {
            Some(st_item) => {
                match st_item.0 {
                    Status::Todo => t.push(st_item.1.to_owned()),
                    Status::Done => d.push(st_item.1.to_owned()),
                }
                proof {
                    let next = lines_done.push(line@);
                    assert(next.drop_last() =~= lines_done);
                    assert(next.last() == line@);
                    if end < len {
                        assert(rest.subrange(end - pos + 1, rest.len() as int) =~= content@
                            .subrange(end as int + 1, len as int));
                        assert(lines_done + split_lines_spec(rest) =~= next + split_lines_spec(
                            content@.subrange(end as int + 1, len as int),
                        ));
                    } else {
                        assert(line@ =~= rest);
                        assert(split_lines_spec(content@.subrange(len as int, len as int))
                            =~= Seq::<Seq<char>>::empty());
                        assert(lines_done + split_lines_spec(rest) =~= next + split_lines_spec(
                            content@.subrange(len as int, len as int),
                        ));
                    }
                    assert(texts_of(t@) =~= items_of(next, Status::Todo));
                    assert(texts_of(d@) =~= items_of(next, Status::Done));
                    lines_done = next;
                }
            },
            None => {
                proof {
                    let whole = split_lines_spec(content@);
                    let tail = split_lines_spec(rest);
                    assert(whole[lines_done.len() as int] == tail[0]);
                    assert(!lines_ok(whole));
                    lemma_first_bad_append(lines_done, tail);
                }
                return Err(ParseError { line: line_no + 1 });
            },
        }
        line_no = line_no + 1;
        pos = if end < len {
            end + 1
        } else {
            end
        };
    }
    proof {
        assert(content@.subrange(pos as int, len as int) =~= Seq::<char>::empty());
        assert(split_lines_spec(content@) =~= lines_done);
    }
    let ghost t_seq = t@;
    let ghost d_seq = d@;
    todos.append(&mut t);
    done.append(&mut d);
    proof {
        assert(texts_of(old(todos)@ + t_seq) =~= texts_of(old(todos)@) + texts_of(t_seq));
        assert(texts_of(old(done)@ + d_seq) =~= texts_of(old(done)@) + texts_of(d_seq));
    }
    Ok(())
}

/// The line tag of `st`.
pub open spec fn prefix_of(st: Status) -> Seq<char> {
    if st is Todo {
        todo_prefix()
    } else {
        done_prefix()
    }
}

/// One saved line: the tag of `st`, the item text, and a newline.
pub open spec fn render_line_spec(st: Status, item: Seq<char>) -> Seq<char> {
    prefix_of(st) + item + "\n"@
}

/// The saved form of `items` under the tag of `st`, one line each, in list
/// order.
pub open spec fn render_items_spec(st: Status, items: Seq<Seq<char>>) -> Seq<char>
    decreases items.len(),
{
    if items.len() == 0 {
        Seq::empty()
    } else {
        render_line_spec(st, items[0]) + render_items_spec(
            st,
            items.subrange(1, items.len() as int),
        )
    }
}

/// The full saved file: every todo line first, then every done line.
pub open spec fn save_spec(todos: Seq<Seq<char>>, dones: Seq<Seq<char>>) -> Seq<char> {
    render_items_spec(Status::Todo, todos) + render_items_spec(Status::Done, dones)
}

/// Saving one more item appends one more line.
proof fn lemma_render_items_push(st: Status, items: Seq<Seq<char>>, item: Seq<char>)
    ensures
        render_items_spec(st, items.push(item)) == render_items_spec(st, items) + render_line_spec(
            st,
            item,
        ),
    decreases items.len(),
{
    let p = items.push(item);
    if items.len() == 0 {
        assert(p[0] == item);
        assert(p.subrange(1, p.len() as int) =~= Seq::<Seq<char>>::empty());
        assert(render_items_spec(st, Seq::<Seq<char>>::empty()) == Seq::<char>::empty());
        assert(render_items_spec(st, p) == render_line_spec(st, item) + Seq::<char>::empty());
        assert(render_line_spec(st, item) + Seq::<char>::empty() =~= render_line_spec(st, item));
        assert(Seq::<char>::empty() + render_line_spec(st, item) =~= render_line_spec(st, item));
    } else {
        let sub = items.subrange(1, items.len() as int);
        assert(p[0] == items[0]);
        assert(p.subrange(1, p.len() as int) =~= sub.push(item));
        lemma_render_items_push(st, sub, item);
        assert(render_line_spec(st, items[0]) + (render_items_spec(st, sub) + render_line_spec(
            st,
            item,
        )) =~= (render_line_spec(st, items[0]) + render_items_spec(st, sub)) + render_line_spec(
            st,
            item,
        ));
    }
}

/// Serialize the two lists to the state file's full text: every todo item as
/// a tagged line in list order, then every done item likewise.
pub fn save_state(todos: &Vec<String>, done: &Vec<String>) -> (r: String)
    ensures
        r@ == save_spec(texts_of(todos@), texts_of(done@)),
{
    let ghost t_txts = texts_of(todos@);
    let ghost d_txts = texts_of(done@);
    let mut out = String::new();
    proof {
        assert(t_txts.subrange(0, 0) =~= Seq::<Seq<char>>::empty());
        assert(d_txts.subrange(0, 0) =~= Seq::<Seq<char>>::empty());
    }
    let mut i: usize = 0;
    while i < todos.len()
        invariant
            i <= todos.len(),
            t_txts == texts_of(todos@),
            out@ == render_items_spec(Status::Todo, t_txts.subrange(0, i as int)),
        decreases todos.len() - i,
    {
        let ghost before = out@;
        out.append("TODO: ");
        out.append(todos[i].as_str());
        out.append("\n");
        proof {
            assert(t_txts.subrange(0, i as int).push(t_txts[i as int]) =~= t_txts.subrange(
                0,
                i + 1,
            ));
            lemma_render_items_push(Status::Todo, t_txts.subrange(0, i as int), t_txts[i as int]);
            assert(out@ =~= before + render_line_spec(Status::Todo, t_txts[i as int]));
        }
        i = i + 1;
    }
    proof {
        assert(t_txts.subrange(0, todos@.len() as int) =~= t_txts);
    }
    let ghost t_part = out@;
    let mut j: usize = 0;
    while j < done.len()
        invariant
            j <= done.len(),
            d_txts == texts_of(done@),
            out@ == t_part + render_items_spec(Status::Done, d_txts.subrange(0, j as int)),
        decreases done.len() - j,
    {
        let ghost before = out@;
        out.append("DONE: ");
        out.append(done[j].as_str());
        out.append("\n");
        proof {
            assert(d_txts.subrange(0, j as int).push(d_txts[j as int]) =~= d_txts.subrange(
                0,
                j + 1,
            ));
            lemma_render_items_push(Status::Done, d_txts.subrange(0, j as int), d_txts[j as int]);
            assert(out@ =~= before + render_line_spec(Status::Done, d_txts[j as int]));
            assert(t_part + (render_items_spec(Status::Done, d_txts.subrange(0, j as int))
                + render_line_spec(Status::Done, d_txts[j as int])) =~= (t_part
                + render_items_spec(Status::Done, d_txts.subrange(0, j as int)))
                + render_line_spec(Status::Done, d_txts[j as int]));
        }
        j = j + 1;
    }
    proof {
        assert(d_txts.subrange(0, done@.len() as int) =~= d_txts);
        assert(out@ == t_part + render_items_spec(Status::Done, d_txts));
    }
    out
}

/// Whether `s` holds no newline.
pub open spec fn no_newline(s: Seq<char>) -> bool {
    forall|i: int| 0 <= i < s.len() ==> s[i] != '\n'
}

/// An item that survives the round trip unchanged: no embedded newline to
/// break its line apart, and no surrounding whitespace for the load-time
/// trim to strip.
pub open spec fn item_clean(item: Seq<char>) -> bool {
    no_newline(item) && trim_spec(item) == item
}

/// The two line tags are six characters, hold no newline, and differ.
proof fn lemma_prefix_facts()
    ensures
        todo_prefix().len() == 6,
        done_prefix().len() == 6,
        no_newline(todo_prefix()),
        no_newline(done_prefix()),
        todo_prefix()[0] == 'T',
        done_prefix()[0] == 'D',
{
    reveal_strlit("TODO: ");
    reveal_strlit("DONE: ");
    assert forall|i: int| 0 <= i < todo_prefix().len() implies todo_prefix()[i] != '\n' by {
        assert(todo_prefix()[0] == 'T' && todo_prefix()[1] == 'O' && todo_prefix()[2] == 'D'
            && todo_prefix()[3] == 'O' && todo_prefix()[4] == ':' && todo_prefix()[5] == ' ');
    }
    assert forall|i: int| 0 <= i < done_prefix().len() implies done_prefix()[i] != '\n' by {
        assert(done_prefix()[0] == 'D' && done_prefix()[1] == 'O' && done_prefix()[2] == 'N'
            && done_prefix()[3] == 'E' && done_prefix()[4] == ':' && done_prefix()[5] == ' ');
    }
}

/// The lines that saving `items` under the tag of `st` produces.
pub open spec fn tagged_lines(st: Status, items: Seq<Seq<char>>) -> Seq<Seq<char>> {
    Seq::new(items.len(), |i: int| prefix_of(st) + items[i])
}

/// Splitting saved items followed by any tail gives their tagged lines
/// followed by the lines of the tail, provided no item holds a newline.
proof fn lemma_split_rendered(st: Status, items: Seq<Seq<char>>, tail: Seq<char>)
    requires
        forall|i: int| 0 <= i < items.len() ==> no_newline(#[trigger] items[i]),
    ensures
        split_lines_spec(render_items_spec(st, items) + tail) == tagged_lines(st, items)
            + split_lines_spec(tail),
    decreases items.len(),
{
    lemma_prefix_facts();
    let content = render_items_spec(st, items) + tail;
    if items.len() == 0 {
        assert(content =~= tail);
        assert(tagged_lines(st, items) + split_lines_spec(tail) =~= split_lines_spec(tail));
    } else {
        let x = items[0];
        let rest = items.subrange(1, items.len() as int);
        let line = prefix_of(st) + x;
        let l = line.len() as int;
        let rest_content = render_items_spec(st, rest) + tail;
        reveal_strlit("\n");
        assert(content =~= (line + "\n"@) + rest_content);
        assert forall|i: int| 0 <= i < l implies content[i] != '\n' by {
            assert(content[i] == line[i]);
            if i < 6 {
                assert(line[i] == prefix_of(st)[i]);
            } else {
                assert(line[i] == x[i - 6]);
            }
        }
        assert(content[l] == (line + "\n"@)[l]);
        assert(content[l] == '\n');
        lemma_line_len_at(content, l);
        assert(content.subrange(0, l) =~= line);
        assert(content.subrange(l + 1, content.len() as int) =~= rest_content);
        assert forall|i: int| 0 <= i < rest.len() implies no_newline(#[trigger] rest[i]) by {
            assert(rest[i] == items[i + 1]);
        }
        lemma_split_rendered(st, rest, tail);
        assert(split_lines_spec(content) == seq![line] + (tagged_lines(st, rest)
            + split_lines_spec(tail)));
        assert(seq![line] + (tagged_lines(st, rest) + split_lines_spec(tail)) =~= (seq![line]
            + tagged_lines(st, rest)) + split_lines_spec(tail));
        assert(seq![line] + tagged_lines(st, rest) =~= tagged_lines(st, items));
    }
}

/// A line made of a tag and a trim-fixed item parses back to that tag and
/// that item.
proof fn lemma_parse_tagged(st: Status, item: Seq<char>)
    requires
        trim_spec(item) == item,
    ensures
        parse_line_spec(prefix_of(st) + item) == Some((st, item)),
{
    lemma_prefix_facts();
    reveal_strlit("TODO: ");
    reveal_strlit("DONE: ");
    let line = prefix_of(st) + item;
    assert(line.subrange(0, 6) =~= prefix_of(st));
    assert(line.subrange(6, line.len() as int) =~= item);
    match st {
        Status::Todo => {
            assert(starts_with_spec(line, todo_prefix()));
        },
        Status::Done => {
            if starts_with_spec(line, todo_prefix()) {
                assert(line.subrange(0, 6)[0] == line[0]);
                assert(false);
            }
            assert(starts_with_spec(line, done_prefix()));
        },
    }
}

/// Bucketing the tagged lines of two saved lists gives the lists back.
proof fn lemma_items_of_tagged(t: Seq<Seq<char>>, d: Seq<Seq<char>>)
    requires
        forall|i: int| 0 <= i < t.len() ==> trim_spec(#[trigger] t[i]) == t[i],
        forall|i: int| 0 <= i < d.len() ==> trim_spec(#[trigger] d[i]) == d[i],
    ensures
        lines_ok(tagged_lines(Status::Todo, t) + tagged_lines(Status::Done, d)),
        items_of(tagged_lines(Status::Todo, t) + tagged_lines(Status::Done, d), Status::Todo) == t,
        items_of(tagged_lines(Status::Todo, t) + tagged_lines(Status::Done, d), Status::Done) == d,
    decreases t.len() + d.len(),
{
    let lines = tagged_lines(Status::Todo, t) + tagged_lines(Status::Done, d);
    if d.len() > 0 {
        let d1 = d.drop_last();
        let prev = tagged_lines(Status::Todo, t) + tagged_lines(Status::Done, d1);
        assert(lines.last() == prefix_of(Status::Done) + d.last());
        lemma_parse_tagged(Status::Done, d.last());
        assert(lines.drop_last() =~= prev);
        assert(forall|i: int| 0 <= i < d1.len() ==> trim_spec(#[trigger] d1[i]) == d1[i]);
        lemma_items_of_tagged(t, d1);
        assert(items_of(lines, Status::Done) == d1.push(d.last()));
        assert(d1.push(d.last()) =~= d);
        assert forall|i: int|
            0 <= i < lines.len() implies (#[trigger] parse_line_spec(lines[i])) is Some by {
            if i < lines.len() - 1 {
                assert(lines[i] == prev[i]);
            }
        }
    } else if t.len() > 0 {
        let t1 = t.drop_last();
        let prev = tagged_lines(Status::Todo, t1) + tagged_lines(Status::Done, d);
        assert(lines.last() == prefix_of(Status::Todo) + t.last()) by {
            assert(lines[lines.len() - 1] == tagged_lines(Status::Todo, t)[t.len() - 1]);
        }
        lemma_parse_tagged(Status::Todo, t.last());
        assert(lines.drop_last() =~= prev);
        assert(forall|i: int| 0 <= i < t1.len() ==> trim_spec(#[trigger] t1[i]) == t1[i]);
        lemma_items_of_tagged(t1, d);
        assert(items_of(lines, Status::Todo) == t1.push(t.last()));
        assert(t1.push(t.last()) =~= t);
        assert forall|i: int|
            0 <= i < lines.len() implies (#[trigger] parse_line_spec(lines[i])) is Some by {
            if i < lines.len() - 1 {
                assert(lines[i] == prev[i]);
            }
        }
    } else {
        assert(lines =~= Seq::<Seq<char>>::empty());
        assert(items_of(lines, Status::Todo) =~= t);
        assert(items_of(lines, Status::Done) =~= d);
    }
}

/// The round trip: loading a saved file reconstructs both lists element for
/// element, for items that hold no newline and carry no surrounding
/// whitespace.
pub proof fn lemma_save_load_round_trip(todos: Seq<Seq<char>>, dones: Seq<Seq<char>>)
    requires
        forall|i: int| 0 <= i < todos.len() ==> item_clean(#[trigger] todos[i]),
        forall|i: int| 0 <= i < dones.len() ==> item_clean(#[trigger] dones[i]),
    ensures
        lines_ok(split_lines_spec(save_spec(todos, dones))),
        items_of(split_lines_spec(save_spec(todos, dones)), Status::Todo) == todos,
        items_of(split_lines_spec(save_spec(todos, dones)), Status::Done) == dones,
{
    let content = save_spec(todos, dones);
    lemma_split_rendered(Status::Todo, todos, render_items_spec(Status::Done, dones));
    assert(render_items_spec(Status::Done, dones) =~= render_items_spec(Status::Done, dones)
        + Seq::<char>::empty());
    lemma_split_rendered(Status::Done, dones, Seq::<char>::empty());
    assert(split_lines_spec(Seq::<char>::empty()) == Seq::<Seq<char>>::empty());
    assert(tagged_lines(Status::Done, dones) + Seq::<Seq<char>>::empty() =~= tagged_lines(
        Status::Done,
        dones,
    ));
    assert(split_lines_spec(content) == tagged_lines(Status::Todo, todos) + tagged_lines(
        Status::Done,
        dones,
    ));
    lemma_items_of_tagged(todos, dones);
}

} // verus!
