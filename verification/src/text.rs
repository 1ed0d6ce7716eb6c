//! Lines, white space and string building, over the characters of a text.
use vstd::prelude::*;
use vstd::string::*;

verus! {

/// `String::push`: the character goes behind those that the string holds already.
pub assume_specification[ String::push ](s: &mut String, c: char)
    ensures
        final(s)@ == old(s)@.push(c),
;

/// The characters with Unicode's `White_Space` property.
pub open spec fn space(c: char) -> bool {
    let u = c as u32;
    ||| 0x9 <= u <= 0xd
    ||| u == 0x20
    ||| u == 0x85
    ||| u == 0xa0
    ||| u == 0x1680
    ||| 0x2000 <= u <= 0x200a
    ||| u == 0x2028
    ||| u == 0x2029
    ||| u == 0x202f
    ||| u == 0x205f
    ||| u == 0x3000
}

/// `s` without the white space it begins with.
pub open spec fn trimmed_start(s: Seq<char>) -> Seq<char>
    decreases s.len(),
{
    if s.len() > 0 && space(s[0]) {
        trimmed_start(s.skip(1))
    } else {
        s
    }
}

/// `s` without the white space it ends with.
pub open spec fn trimmed_end(s: Seq<char>) -> Seq<char>
    decreases s.len(),
{
    if s.len() > 0 && space(s.last()) {
        trimmed_end(s.drop_last())
    } else {
        s
    }
}

/// `s` without the white space at either end.
pub open spec fn trimmed(s: Seq<char>) -> Seq<char> {
    trimmed_end(trimmed_start(s))
}

/// Where the first line feed of `s` stands; the length of `s` where it holds none.
pub open spec fn line_end(s: Seq<char>) -> int
    decreases s.len(),
{
    if s.len() == 0 || s[0] == '\n' {
        0
    } else {
        1 + line_end(s.skip(1))
    }
}

/// The lines of `s`, each with the line feed that ends it; behind the last one there may be none.
pub open spec fn lines(s: Seq<char>) -> Seq<Seq<char>>
    decreases s.len(),
{
    let end = line_end(s);
    if s.len() == 0 {
        Seq::empty()
    } else if 0 <= end < s.len() {
        seq![s.take(end + 1)] + lines(s.skip(end + 1))
    } else {
        seq![s]
    }
}

/// The text that a list of lines makes up.
pub open spec fn joined(list: Seq<Seq<char>>) -> Seq<char>
    decreases list.len(),
{
    if list.len() == 0 {
        Seq::empty()
    } else {
        joined(list.drop_last()) + list.last()
    }
}

/// The views of a list of strings.
pub open spec fn views(list: Seq<String>) -> Seq<Seq<char>> {
    list.map_values(|s: String| s@)
}

/// Whether `s` holds no line feed.
pub open spec fn one_line(s: Seq<char>) -> bool {
    forall|i: int| 0 <= i < s.len() ==> s[i] != '\n'
}

/// What `line_end` finds is the first line feed.
pub proof fn lemma_line_end(s: Seq<char>)
    ensures
        0 <= line_end(s) <= s.len(),
        one_line(s.take(line_end(s))),
        line_end(s) < s.len() ==> s[line_end(s)] == '\n',
    decreases s.len(),
{
    if s.len() > 0 && s[0] != '\n' {
        let rest = s.skip(1);
        lemma_line_end(rest);
        let n = line_end(s);
        assert forall|i: int| 0 <= i < n implies s.take(n)[i] != '\n' by {
            if i > 0 {
                assert(rest.take(n - 1)[i - 1] == s[i]);
            }
        }
    }
}

/// A text that opens with a line feed behind `a`, which holds none.
pub proof fn lemma_line_end_at(a: Seq<char>, b: Seq<char>)
    requires
        one_line(a),
    ensures
        line_end(a + seq!['\n'] + b) == a.len(),
        line_end(a) == a.len(),
    decreases a.len(),
{
    let s = a + seq!['\n'] + b;
    if a.len() == 0 {
        assert(s[0] == '\n');
    } else {
        assert(s[0] == a[0]);
        assert(one_line(a.skip(1)));
        assert(s.skip(1) == a.skip(1) + seq!['\n'] + b);
        lemma_line_end_at(a.skip(1), b);
    }
}

/// The first line of a text, and those behind it.
pub proof fn lemma_lines_first(a: Seq<char>, b: Seq<char>)
    requires
        one_line(a),
    ensures
        lines(a + seq!['\n'] + b) == seq![terminated(a)] + lines(b),
        lines(a) == if a.len() == 0 {
            Seq::empty()
        } else {
            seq![a]
        },
{
    lemma_line_end_at(a, b);
    let s = a + seq!['\n'] + b;
    assert(s.take(a.len() as int + 1) == terminated(a));
    assert(s.skip(a.len() as int + 1) == b);
}

/// `s` and a line feed.
pub open spec fn terminated(s: Seq<char>) -> Seq<char> {
    s.push('\n')
}

/// Whether `s` is made of whole lines: it is empty or ends in a line feed.
pub open spec fn whole(s: Seq<char>) -> bool {
    s.len() == 0 || s.last() == '\n'
}

/// `s`, with a line feed behind its last line where that has none.
pub open spec fn completed(s: Seq<char>) -> Seq<char> {
    if whole(s) {
        s
    } else {
        terminated(s)
    }
}

/// Whether `s` is one line, with or without the line feed that ends it.
pub open spec fn single(s: Seq<char>) -> bool {
    s.len() > 0 && one_line(s.drop_last())
}

/// A text that is not empty, cut behind its first line.
proof fn lemma_cut(s: Seq<char>) -> (cut: (Seq<char>, Seq<char>))
    requires
        s.len() > 0,
        whole(s),
    ensures
        one_line(cut.0),
        s == cut.0 + seq!['\n'] + cut.1,
        whole(cut.1),
        cut.1.len() < s.len(),
{
    lemma_line_end(s);
    let end = line_end(s);
    if end == s.len() {
        assert(s.take(end) == s);
        assert(s[s.len() - 1] == '\n');
    }
    let rest = s.skip(end + 1);
    assert(s == s.take(end) + seq!['\n'] + rest);
    (s.take(end), rest)
}

/// The lines of whole lines and of a text behind them.
pub proof fn lemma_lines_add(a: Seq<char>, b: Seq<char>)
    requires
        whole(a),
    ensures
        lines(a + b) == lines(a) + lines(b),
    decreases a.len(),
{
    if a.len() == 0 {
        assert(a + b == b);
    } else {
        let (p, q) = lemma_cut(a);
        lemma_lines_add(q, b);
        assert(a + b == p + seq!['\n'] + (q + b));
        lemma_lines_first(p, q + b);
        lemma_lines_first(p, q);
    }
}

/// One line has itself as its only line.
pub proof fn lemma_lines_one(s: Seq<char>)
    requires
        single(s),
    ensures
        lines(s) == seq![s],
{
    if s.last() == '\n' {
        let a = s.drop_last();
        lemma_lines_first(a, Seq::empty());
        assert(s == a + seq!['\n'] + Seq::<char>::empty());
        assert(terminated(a) == s);
        assert(lines(Seq::empty()) == Seq::<Seq<char>>::empty());
    } else {
        assert(one_line(s)) by {
            assert forall|i: int| 0 <= i < s.len() implies s[i] != '\n' by {
                if i < s.len() - 1 {
                    assert(s.drop_last()[i] == s[i]);
                }
            }
        }
        lemma_lines_first(s, Seq::empty());
    }
}

/// Each line is a single one, and each but the last has its line feed.
pub proof fn lemma_lines_single(s: Seq<char>, i: int)
    requires
        0 <= i < lines(s).len(),
    ensures
        single(lines(s)[i]),
        i < lines(s).len() - 1 ==> whole(lines(s)[i]),
    decreases s.len(),
{
    lemma_line_end(s);
    let end = line_end(s);
    if end < s.len() {
        if i > 0 {
            lemma_lines_single(s.skip(end + 1), i - 1);
        } else {
            assert(s.take(end + 1).drop_last() == s.take(end));
        }
    } else {
        assert(s.take(end) == s);
        assert forall|j: int| 0 <= j < s.drop_last().len() implies s.drop_last()[j] != '\n' by {
            assert(s.drop_last()[j] == s[j]);
        }
    }
}

/// The text of two lists of lines, one behind the other.
pub proof fn lemma_joined_add(a: Seq<Seq<char>>, b: Seq<Seq<char>>)
    ensures
        joined(a + b) == joined(a) + joined(b),
    decreases b.len(),
{
    if b.len() == 0 {
        assert(a + b == a);
    } else {
        assert((a + b).drop_last() == a + b.drop_last());
        lemma_joined_add(a, b.drop_last());
    }
}

/// The text of one line.
pub proof fn lemma_joined_one(line: Seq<char>)
    ensures
        joined(seq![line]) == line,
{
    assert(seq![line].drop_last() == Seq::<Seq<char>>::empty());
    assert(joined(seq![line].drop_last()) == Seq::<char>::empty());
}

/// The lines of a text, put together again, are that text.
pub proof fn lemma_joined_lines(s: Seq<char>)
    ensures
        joined(lines(s)) == s,
    decreases s.len(),
{
    lemma_line_end(s);
    let end = line_end(s);
    if s.len() == 0 {
    } else if end < s.len() {
        lemma_joined_lines(s.skip(end + 1));
        lemma_joined_one(s.take(end + 1));
        lemma_joined_add(seq![s.take(end + 1)], lines(s.skip(end + 1)));
        assert(s == s.take(end + 1) + s.skip(end + 1));
    } else {
        lemma_joined_one(s);
    }
}

/// Whether a text is made of whole lines.
pub fn is_whole(s: &str) -> (yes: bool)
    ensures
        yes == whole(s@),
{
    let chars = chars_of(s);
    chars.len() == 0 || chars[chars.len() - 1] == '\n'
}

/// Whether two strings hold the same characters.
pub(crate) fn same(a: &str, b: &str) -> (yes: bool)
    ensures
        yes == (a@ == b@),
{
    a.to_owned() == b.to_owned()
}

/// Whether `c` is white space.
pub fn is_space(c: char) -> (yes: bool)
    ensures
        yes == space(c),
{
    let u: u32 = c as u32;
    (0x9 <= u && u <= 0xd) || u == 0x20 || u == 0x85 || u == 0xa0 || u == 0x1680 || (0x2000 <= u
        && u <= 0x200a) || u == 0x2028 || u == 0x2029 || u == 0x202f || u == 0x205f || u == 0x3000
}

/// The characters of a string.
pub(crate) fn chars_of(s: &str) -> (chars: Vec<char>)
    ensures
        chars@ == s@,
{
    let mut chars: Vec<char> = Vec::new();
    for c in it: s.chars()
        invariant
            it.seq() == s@,
            chars@ == s@.take(it.index() as int),
    {
        chars.push(c);
    }
    chars
}

/// The characters from `from` up to, and without, `to`, as a string.
pub(crate) fn substring(chars: &Vec<char>, from: usize, to: usize) -> (s: String)
    requires
        from <= to <= chars@.len(),
    ensures
        s@ == chars@.subrange(from as int, to as int),
{
    let mut s = String::new();
    let mut i: usize = from;
    while i < to
        invariant
            from <= i <= to <= chars@.len(),
            s@ == chars@.subrange(from as int, i as int),
        decreases to - i,
    {
        s.push(chars[i]);
        i += 1;
    }
    s
}

/// One more character of the white space that a text begins with.
proof fn lemma_trim_start_step(s: Seq<char>, from: int)
    requires
        0 <= from < s.len(),
        trimmed_start(s) == trimmed_start(s.skip(from)),
        space(s[from]),
    ensures
        trimmed_start(s) == trimmed_start(s.skip(from + 1)),
{
    assert(s.skip(from).skip(1) == s.skip(from + 1));
}

/// A string without the white space at either end.
pub fn trim(s: &str) -> (t: String)
    ensures
        t@ == trimmed(s@),
{
    let chars = chars_of(s);
    let mut from: usize = 0;
    assert(s@.skip(0) == s@);
    while from < chars.len() && is_space(chars[from])
        invariant
            chars@ == s@,
            from <= chars@.len(),
            trimmed_start(s@) == trimmed_start(s@.skip(from as int)),
        decreases chars@.len() - from,
    {
        proof {
            lemma_trim_start_step(s@, from as int);
        }
        from += 1;
    }
    assert(trimmed_start(s@) == s@.skip(from as int));
    let mut to: usize = chars.len();
    let ghost body = s@.skip(from as int);
    assert(body.take(to - from) == body);
    while to > from && is_space(chars[to - 1])
        invariant
            chars@ == s@,
            from <= to <= chars@.len(),
            body == s@.skip(from as int),
            trimmed_end(body) == trimmed_end(body.take(to - from)),
        decreases to,
    {
        assert(body.take(to - from).last() == s@[to - 1]);
        assert(body.take(to - from).drop_last() == body.take(to - 1 - from));
        to -= 1;
    }
    proof {
        if to > from {
            assert(body.take(to - from).last() == s@[to - 1]);
        }
        assert(body.take(to - from) == s@.subrange(from as int, to as int));
    }
    substring(&chars, from, to)
}

/// The lines of a text, each with the line feed that ends it.
pub fn split_lines(s: &str) -> (list: Vec<String>)
    ensures
        views(list@) == lines(s@),
{
    let chars = chars_of(s);
    let mut list: Vec<String> = Vec::new();
    let mut start: usize = 0;
    let mut i: usize = 0;
    assert(s@.skip(0) == s@);
    assert(views(list@) + lines(s@) == lines(s@));
    while i < chars.len()
        invariant
            chars@ == s@,
            start <= i <= chars@.len(),
            one_line(s@.subrange(start as int, i as int)),
            views(list@) + lines(s@.skip(start as int)) == lines(s@),
        decreases chars@.len() - i,
    {
        let ghost line = s@.subrange(start as int, i as int);
        if chars[i] == '\n' {
            let next = substring(&chars, start, i + 1);
            proof {
                assert(next@ == terminated(line));
                assert(s@.skip(start as int) == line + seq!['\n'] + s@.skip(i + 1));
                lemma_lines_first(line, s@.skip(i + 1));
                assert(views(list@.push(next)) == views(list@).push(next@));
                assert(views(list@).push(next@) + lines(s@.skip(i + 1)) == views(list@) + (
                seq![next@] + lines(s@.skip(i + 1))));
            }
            list.push(next);
            start = i + 1;
        } else {
            assert(s@.subrange(start as int, i + 1) == line.push(s@[i as int]));
        }
        i += 1;
    }
    proof {
        let line = s@.skip(start as int);
        assert(s@.subrange(start as int, i as int) == line);
        lemma_lines_first(line, Seq::empty());
    }
    if start < i {
        let last = substring(&chars, start, i);
        proof {
            assert(views(list@.push(last)) == views(list@).push(last@));
        }
        list.push(last);
    }
    list
}

/// A text is the text that is left of it when it is trimmed, between white space; and what is left
/// neither begins nor ends with white space.
pub proof fn law_trimmed(s: Seq<char>) -> (ends: (Seq<char>, Seq<char>))
    ensures
        s == ends.0 + trimmed(s) + ends.1,
        forall|i: int| 0 <= i < ends.0.len() ==> space(#[trigger] ends.0[i]),
        forall|i: int| 0 <= i < ends.1.len() ==> space(#[trigger] ends.1[i]),
        trimmed(s).len() > 0 ==> !space(trimmed(s)[0]) && !space(trimmed(s).last()),
{
    let front = lemma_trimmed_start(s);
    let back = lemma_trimmed_end(trimmed_start(s));
    let left = trimmed(s);
    assert(s == front + left + back);
    assert(left.len() > 0 ==> left[0] == trimmed_start(s)[0]);
    (front, back)
}

/// The white space that a text begins with.
proof fn lemma_trimmed_start(s: Seq<char>) -> (front: Seq<char>)
    ensures
        s == front + trimmed_start(s),
        forall|i: int| 0 <= i < front.len() ==> space(#[trigger] front[i]),
        trimmed_start(s).len() > 0 ==> !space(trimmed_start(s)[0]),
    decreases s.len(),
{
    if s.len() > 0 && space(s[0]) {
        let more = lemma_trimmed_start(s.skip(1));
        let front = seq![s[0]] + more;
        assert(s == seq![s[0]] + s.skip(1));
        assert(s == front + trimmed_start(s));
        front
    } else {
        assert(s == Seq::<char>::empty() + s);
        Seq::empty()
    }
}

/// The white space that a text ends with.
proof fn lemma_trimmed_end(s: Seq<char>) -> (back: Seq<char>)
    ensures
        s == trimmed_end(s) + back,
        forall|i: int| 0 <= i < back.len() ==> space(#[trigger] back[i]),
        trimmed_end(s).len() > 0 ==> !space(trimmed_end(s).last()),
    decreases s.len(),
{
    if s.len() > 0 && space(s.last()) {
        let more = lemma_trimmed_end(s.drop_last());
        let back = more.push(s.last());
        assert(s == s.drop_last().push(s.last()));
        assert(s == trimmed_end(s) + back);
        back
    } else {
        assert(s == s + Seq::<char>::empty());
        Seq::empty()
    }
}

/// Text that is put together of lines holds each of them, one behind the other, and nothing else.
pub proof fn law_joined(list: Seq<Seq<char>>, line: Seq<char>)
    ensures
        joined(Seq::empty()) == Seq::<char>::empty(),
        joined(list.push(line)) == joined(list) + line,
{
    assert(list.push(line).drop_last() == list);
}

/// A text is cut into lines behind each line feed, and nowhere else: the lines make up the text, a
/// line feed stands at the end of each but the last, and in no other place of a line.
pub proof fn law_lines(s: Seq<char>)
    ensures
        joined(lines(s)) == s,
        forall|i: int| 0 <= i < lines(s).len() ==> (#[trigger] lines(s)[i]).len() > 0,
        forall|i: int, j: int|
            0 <= i < lines(s).len() && 0 <= j < lines(s)[i].len() - 1 ==> lines(s)[i][j] != '\n',
        forall|i: int|
            0 <= i < lines(s).len() - 1 ==> (#[trigger] lines(s)[i])[lines(s)[i].len() - 1] == '\n',
{
    lemma_joined_lines(s);
    assert forall|i: int| 0 <= i < lines(s).len() implies (#[trigger] lines(s)[i]).len() > 0 by {
        lemma_lines_single(s, i);
    }
    assert forall|i: int, j: int|
        0 <= i < lines(s).len() && 0 <= j < lines(s)[i].len() - 1 implies lines(s)[i][j]
        != '\n' by {
        lemma_lines_single(s, i);
        assert(lines(s)[i].drop_last()[j] == lines(s)[i][j]);
    }
    assert forall|i: int| 0 <= i < lines(s).len() - 1 implies (#[trigger] lines(s)[i])[lines(
        s,
    )[i].len() - 1] == '\n' by {
        lemma_lines_single(s, i);
    }
}

/// A text is made of whole lines where it is empty or ends in a line feed. It is completed by a line
/// feed where it does not, and stays as it is otherwise.
pub proof fn law_completed(s: Seq<char>)
    ensures
        whole(s) <==> s.len() == 0 || s[s.len() - 1] == '\n',
        terminated(s) == s + seq!['\n'],
        s.len() > 0 && s[s.len() - 1] != '\n' ==> completed(s) == s.push('\n'),
        s.len() == 0 || s[s.len() - 1] == '\n' ==> completed(s) == s,
{
}

} // verus!
