//! What holds of updates of a config file.
use crate::profile;
use crate::text;
use vstd::prelude::*;

verus! {

/// The lines that stand outside the sections that `head` opens.
pub open spec fn outside(list: Seq<Seq<char>>, head: Seq<char>) -> Seq<Seq<char>>
    decreases list.len(),
{
    if list.len() == 0 {
        Seq::empty()
    } else if profile::section(list) == Some(head) {
        outside(list.drop_last(), head)
    } else {
        outside(list.drop_last(), head).push(list.last())
    }
}

/// The lines in the sections that `head` opens, without the opening lines.
pub open spec fn inside(list: Seq<Seq<char>>, head: Seq<char>) -> Seq<Seq<char>>
    decreases list.len(),
{
    if list.len() == 0 {
        Seq::empty()
    } else if profile::section(list) == Some(head) && text::trimmed(list.last()) != head {
        inside(list.drop_last(), head).push(list.last())
    } else {
        inside(list.drop_last(), head)
    }
}

/// Whether `head` can stand in a file as the line that opens a section.
pub open spec fn heads(head: Seq<char>) -> bool {
    &&& text::one_line(head)
    &&& text::trimmed(head) == head
    &&& head.len() > 0
    &&& head[0] == '['
}

/// Whether no line of `setting` opens a section.
pub open spec fn settles(setting: Seq<char>) -> bool {
    forall|i: int|
        0 <= i < text::lines(text::terminated(setting)).len() ==> !profile::opens(
            #[trigger] text::lines(text::terminated(setting))[i],
        )
}

/// One more line that opens a section of `head`.
proof fn lemma_push_head(
    list: Seq<Seq<char>>,
    line: Seq<char>,
    head: Seq<char>,
    new: Seq<char>,
)
    requires
        heads(head),
        text::trimmed(line) == head,
    ensures
        profile::rewritten(list.push(line), head, new) == profile::rewritten(list, head, new) + new,
        profile::section(list.push(line)) == Some(head),
        profile::has_section(list.push(line), head),
        outside(list.push(line), head) == outside(list, head),
        inside(list.push(line), head) == inside(list, head),
{
    assert(list.push(line).drop_last() == list);
    assert(text::trimmed(list.push(line)[list.len() as int]) == head);
}

/// More lines behind such a line, none of which opens a section.
proof fn lemma_add_body(
    list: Seq<Seq<char>>,
    body: Seq<Seq<char>>,
    head: Seq<char>,
    new: Seq<char>,
)
    requires
        heads(head),
        profile::section(list) == Some(head),
        forall|i: int| 0 <= i < body.len() ==> !profile::opens(#[trigger] body[i]),
    ensures
        profile::rewritten(list + body, head, new) == profile::rewritten(list, head, new),
        profile::section(list + body) == Some(head),
        outside(list + body, head) == outside(list, head),
        inside(list + body, head) == inside(list, head) + body,
    decreases body.len(),
{
    if body.len() == 0 {
        assert(list + body == list);
        assert(inside(list, head) + body == inside(list, head));
    } else {
        let less = body.drop_last();
        assert((list + body).drop_last() == list + less);
        assert((list + body).last() == body[body.len() - 1]);
        assert forall|i: int| 0 <= i < less.len() implies !profile::opens(#[trigger] less[i]) by {
            assert(less[i] == body[i]);
        }
        lemma_add_body(list, less, head, new);
        assert(inside(list, head) + body == (inside(list, head) + less).push(body.last()));
    }
}

/// One more line of another section, or of none.
proof fn lemma_push_other(
    list: Seq<Seq<char>>,
    line: Seq<char>,
    head: Seq<char>,
    new: Seq<char>,
)
    requires
        heads(head),
        text::trimmed(line) != head,
        profile::opens(line) || profile::section(list) != Some(head),
    ensures
        profile::rewritten(list.push(line), head, new) == profile::rewritten(list, head, new)
            + line,
        profile::section(list.push(line)) != Some(head),
        profile::section(list.push(line)) == if profile::opens(line) {
            Some(text::trimmed(line))
        } else {
            profile::section(list)
        },
        profile::has_section(list.push(line), head) == profile::has_section(list, head),
        outside(list.push(line), head) == outside(list, head).push(line),
        inside(list.push(line), head) == inside(list, head),
{
    let more = list.push(line);
    assert(more.drop_last() == list);
    profile::lemma_has_section_more(more, head);
}

/// The lines of a section that holds one setting.
proof fn lemma_block_lines(head: Seq<char>, setting: Seq<char>)
    requires
        heads(head),
    ensures
        text::lines(profile::block(head, setting)) == seq![text::terminated(head)] + text::lines(
            text::terminated(setting),
        ),
        text::whole(profile::block(head, setting)),
        text::trimmed(text::terminated(head)) == head,
        text::lines(text::terminated(setting)).len() > 0,
{
    let line = text::terminated(head);
    assert(line.drop_last() == head);
    text::lemma_lines_one(line);
    text::lemma_lines_add(line, text::terminated(setting));
    assert(text::trimmed_start(line) == line);
    assert(text::trimmed_start(head) == head);
    assert(text::terminated(setting).len() > 0);
}

/// Whether `list` can be the lines of a text: each is a single line, and each but the last has its
/// line feed.
pub open spec fn sound(list: Seq<Seq<char>>) -> bool {
    &&& forall|i: int| 0 <= i < list.len() ==> text::single(#[trigger] list[i])
    &&& forall|i: int| 0 <= i < list.len() - 1 ==> text::whole(#[trigger] list[i])
}

/// The lines of a text are such a list.
proof fn lemma_sound(file: Seq<char>)
    ensures
        sound(text::lines(file)),
{
    let list = text::lines(file);
    assert forall|i: int| 0 <= i < list.len() implies text::single(#[trigger] list[i]) by {
        text::lemma_lines_single(file, i);
    }
    assert forall|i: int| 0 <= i < list.len() - 1 implies text::whole(#[trigger] list[i]) by {
        text::lemma_lines_single(file, i);
    }
}

/// So are all lines but the last of such a list, and each of them has its line feed.
proof fn lemma_sound_less(list: Seq<Seq<char>>)
    requires
        sound(list),
        list.len() > 0,
    ensures
        sound(list.drop_last()),
        list.drop_last().len() > 0 ==> text::whole(list.drop_last().last()),
        text::single(list.last()),
{
    let less = list.drop_last();
    assert forall|i: int| 0 <= i < less.len() implies text::single(#[trigger] less[i]) by {
        assert(less[i] == list[i]);
    }
    assert forall|i: int| 0 <= i < less.len() - 1 implies text::whole(#[trigger] less[i]) by {
        assert(less[i] == list[i]);
    }
    assert(text::single(list[list.len() - 1]));
    if less.len() > 0 {
        assert(text::whole(list[less.len() - 1]));
    }
}

/// A list of whole lines is rewritten to whole lines.
proof fn lemma_rewritten_whole(list: Seq<Seq<char>>, head: Seq<char>, new: Seq<char>)
    requires
        sound(list),
        list.len() > 0 ==> text::whole(list.last()),
        text::whole(new),
    ensures
        text::whole(profile::rewritten(list, head, new)),
    decreases list.len(),
{
    if list.len() > 0 {
        lemma_sound_less(list);
        lemma_rewritten_whole(list.drop_last(), head, new);
        let before = profile::rewritten(list.drop_last(), head, new);
        if new.len() > 0 {
            assert((before + new).last() == new.last());
        } else {
            assert(before + new == before);
        }
        assert((before + list.last()).last() == list.last().last());
    }
}

/// How many sections `head` opens.
pub open spec fn openings(list: Seq<Seq<char>>, head: Seq<char>) -> nat
    decreases list.len(),
{
    if list.len() == 0 {
        0
    } else if text::trimmed(list.last()) == head {
        openings(list.drop_last(), head) + 1
    } else {
        openings(list.drop_last(), head)
    }
}

/// Whether a section stands at `at` that is opened by exactly `head`, and that holds the lines of
/// `setting` and nothing else: behind them the list ends, or another section begins.
pub open spec fn stands(
    list: Seq<Seq<char>>,
    at: int,
    head: Seq<char>,
    setting: Seq<char>,
) -> bool {
    let settings = text::lines(text::terminated(setting));
    let end = at + 1 + settings.len();
    &&& 0 <= at < end <= list.len()
    &&& list[at] == text::terminated(head)
    &&& list.subrange(at + 1, end) == settings
    &&& end == list.len() || profile::opens(list[end])
}

/// Whether each section that `head` opens is such a section.
pub open spec fn tidy(list: Seq<Seq<char>>, head: Seq<char>, setting: Seq<char>) -> bool {
    forall|i: int|
        0 <= i < list.len() && text::trimmed(#[trigger] list[i]) == head ==> stands(
            list,
            i,
            head,
            setting,
        )
}

/// What a list looks like behind such a section at its end.
proof fn lemma_stands_last(list: Seq<Seq<char>>, at: int, head: Seq<char>, setting: Seq<char>)
    requires
        heads(head),
        settles(setting),
        stands(list, at, head, setting),
        at + 1 + text::lines(text::terminated(setting)).len() == list.len(),
    ensures
        profile::section(list) == Some(head),
{
    let settings = text::lines(text::terminated(setting));
    let upto = list.take(at + 1);
    lemma_block_lines(head, setting);
    assert(upto.drop_last().push(text::terminated(head)) == upto);
    lemma_push_head(upto.drop_last(), text::terminated(head), head, Seq::empty());
    lemma_add_body(upto, settings, head, Seq::empty());
    assert(upto + settings == list);
}

/// One more line of another section, or of none.
proof fn lemma_tidy_other(
    list: Seq<Seq<char>>,
    line: Seq<char>,
    head: Seq<char>,
    setting: Seq<char>,
)
    requires
        heads(head),
        settles(setting),
        tidy(list, head, setting),
        text::trimmed(line) != head,
        profile::opens(line) || profile::section(list) != Some(head),
    ensures
        tidy(list.push(line), head, setting),
        openings(list.push(line), head) == openings(list, head),
{
    let more = list.push(line);
    let n = text::lines(text::terminated(setting)).len();
    assert(more.drop_last() == list);
    assert forall|i: int|
        0 <= i < more.len() && text::trimmed(#[trigger] more[i]) == head implies stands(
        more,
        i,
        head,
        setting,
    ) by {
        assert(more[i] == list[i]);
        assert(stands(list, i, head, setting));
        assert(more.subrange(i + 1, i + 1 + n) == list.subrange(i + 1, i + 1 + n));
        if i + 1 + n == list.len() {
            lemma_stands_last(list, i, head, setting);
        }
    }
}

/// One more section.
proof fn lemma_tidy_section(list: Seq<Seq<char>>, head: Seq<char>, setting: Seq<char>)
    requires
        heads(head),
        settles(setting),
        tidy(list, head, setting),
    ensures
        ({
            let settings = text::lines(text::terminated(setting));
            let more = list.push(text::terminated(head)) + settings;
            tidy(more, head, setting) && openings(more, head) == openings(list, head) + 1
        }),
{
    let settings = text::lines(text::terminated(setting));
    let opening = text::terminated(head);
    let more = list.push(opening) + settings;
    let n = settings.len();
    lemma_block_lines(head, setting);
    assert forall|i: int|
        0 <= i < more.len() && text::trimmed(#[trigger] more[i]) == head implies stands(
        more,
        i,
        head,
        setting,
    ) by {
        if i < list.len() {
            assert(more[i] == list[i]);
            assert(stands(list, i, head, setting));
            assert(more.subrange(i + 1, i + 1 + n) == list.subrange(i + 1, i + 1 + n));
            assert(more[list.len() as int] == opening);
            assert(profile::opens(opening));
        } else if i == list.len() {
            assert(more.subrange(i + 1, i + 1 + n) == settings);
        } else {
            assert(!profile::opens(settings[i - list.len() - 1]));
        }
    }
    assert(list.push(opening).drop_last() == list);
    lemma_openings_body(list.push(opening), settings, head);
}

/// Lines that open no section.
proof fn lemma_openings_body(list: Seq<Seq<char>>, body: Seq<Seq<char>>, head: Seq<char>)
    requires
        heads(head),
        forall|i: int| 0 <= i < body.len() ==> !profile::opens(#[trigger] body[i]),
    ensures
        openings(list + body, head) == openings(list, head),
    decreases body.len(),
{
    if body.len() == 0 {
        assert(list + body == list);
    } else {
        let less = body.drop_last();
        assert((list + body).drop_last() == list + less);
        assert(!profile::opens(body[body.len() - 1]));
        assert forall|i: int| 0 <= i < less.len() implies !profile::opens(#[trigger] less[i]) by {
            assert(less[i] == body[i]);
        }
        lemma_openings_body(list, less, head);
    }
}

/// Without a section of `head` there is none to count, and none that is not as it should be.
proof fn lemma_no_openings(list: Seq<Seq<char>>, head: Seq<char>, setting: Seq<char>)
    requires
        !profile::has_section(list, head),
    ensures
        openings(list, head) == 0,
        tidy(list, head, setting),
    decreases list.len(),
{
    if list.len() > 0 {
        profile::lemma_has_section_more(list, head);
        lemma_no_openings(list.drop_last(), head, setting);
    }
}

/// What is read back of a rewritten list of lines.
proof fn lemma_reread(
    list: Seq<Seq<char>>,
    head: Seq<char>,
    setting: Seq<char>,
    other: Seq<char>,
)
    requires
        heads(head),
        settles(setting),
        sound(list),
    ensures
        ({
            let new = profile::block(head, setting);
            let result = profile::rewritten(list, head, new);
            let again = text::lines(result);
            &&& profile::rewritten(again, head, other) == profile::rewritten(list, head, other)
            &&& profile::section(again) == profile::section(list)
            &&& profile::has_section(again, head) == profile::has_section(list, head)
            &&& outside(again, head) == outside(list, head)
            &&& inside(again, head).to_set().subset_of(
                text::lines(text::terminated(setting)).to_set(),
            )
            &&& profile::has_section(list, head) ==> inside(again, head).len() > 0
            &&& openings(again, head) == openings(list, head)
            &&& tidy(again, head, setting)
        }),
    decreases list.len(),
{
    let new = profile::block(head, setting);
    let settings = text::lines(text::terminated(setting));
    if list.len() == 0 {
        assert(text::lines(Seq::empty()) == Seq::<Seq<char>>::empty());
    } else {
        let less = list.drop_last();
        let line = list.last();
        let before = profile::rewritten(less, head, new);
        let again = text::lines(before);
        lemma_block_lines(head, setting);
        lemma_sound_less(list);
        lemma_rewritten_whole(less, head, new);
        lemma_reread(less, head, setting, other);
        profile::lemma_has_section_more(list, head);
        if text::trimmed(line) == head {
            let opening = text::terminated(head);
            text::lemma_lines_add(before, new);
            lemma_push_head(again, opening, head, other);
            lemma_add_body(again.push(opening), settings, head, other);
            let full = again.push(opening) + settings;
            assert(again + (seq![opening] + settings) == full);
            lemma_tidy_section(again, head, setting);
            assert(profile::has_section(full, head)) by {
                assert(full[again.len() as int] == opening);
            }
            assert(inside(full, head).to_set().subset_of(settings.to_set())) by {
                assert forall|x: Seq<char>| inside(full, head).to_set().contains(x) implies
                    settings.to_set().contains(x) by {
                    let k = choose|k: int|
                        0 <= k < inside(full, head).len() && inside(full, head)[k] == x;
                    let old = inside(again, head);
                    if k < old.len() {
                        assert(old[k] == x);
                        assert(old.to_set().contains(x));
                    } else {
                        assert(settings[k - old.len()] == x);
                    }
                }
            }
        } else if profile::section(list) == Some(head) {
        } else {
            text::lemma_lines_one(line);
            text::lemma_lines_add(before, line);
            assert(again + seq![line] == again.push(line));
            lemma_tidy_other(again, line, head, setting);
            lemma_push_other(again, line, head, other);
        }
    }
}

/// The header of a profile whose name is one line can open a section.
proof fn lemma_heads(name: Seq<char>)
    requires
        text::one_line(name),
    ensures
        heads(profile::header(name)),
{
    profile::lemma_header(name);
    reveal_strlit("[default]");
    reveal_strlit("[profile ");
    reveal_strlit("]");
}

/// A text that begins with another character than white space still does so when it is trimmed.
proof fn lemma_trimmed_first(s: Seq<char>)
    requires
        s.len() > 0,
        !text::space(s[0]),
    ensures
        text::trimmed(s).len() > 0,
        text::trimmed(s)[0] == s[0],
    decreases s.len(),
{
    if text::space(s.last()) {
        lemma_trimmed_first(s.drop_last());
    }
}

/// Without a section of its own, nothing in a list of lines gives way.
proof fn lemma_untouched(list: Seq<Seq<char>>, head: Seq<char>, new: Seq<char>)
    requires
        !profile::has_section(list, head),
    ensures
        profile::rewritten(list, head, new) == text::joined(list),
        profile::section(list) != Some(head),
    decreases list.len(),
{
    if list.len() > 0 {
        let less = list.drop_last();
        assert(text::trimmed(list[list.len() - 1]) != head);
        if profile::has_section(less, head) {
            let k = choose|k: int| 0 <= k < less.len() && text::trimmed(less[k]) == head;
            assert(list[k] == less[k]);
        }
        lemma_untouched(less, head, new);
    }
}

/// The text outside of sections that there are none of.
proof fn lemma_outside_all(list: Seq<Seq<char>>, head: Seq<char>)
    requires
        !profile::has_section(list, head),
    ensures
        outside(list, head) == list,
    decreases list.len(),
{
    if list.len() > 0 {
        lemma_untouched(list, head, Seq::empty());
        profile::lemma_has_section_more(list, head);
        lemma_outside_all(list.drop_last(), head);
    }
}

/// What is read back of an updated file.
proof fn lemma_reread_update(
    file: Seq<char>,
    head: Seq<char>,
    setting: Seq<char>,
    other: Seq<char>,
)
    requires
        heads(head),
        settles(setting),
    ensures
        ({
            let result = profile::updated(file, head, setting);
            let again = text::lines(result);
            let rest = text::joined(outside(text::lines(file), head));
            &&& profile::has_section(again, head)
            &&& profile::updated(result, head, other) == profile::updated(file, head, other)
            &&& text::joined(outside(again, head)) == if profile::has_section(
                text::lines(file),
                head,
            ) {
                rest
            } else {
                text::terminated(text::completed(rest))
            }
            &&& inside(again, head).to_set().subset_of(
                text::lines(text::terminated(setting)).to_set(),
            )
            &&& inside(again, head).len() > 0
            &&& openings(again, head) == if profile::has_section(text::lines(file), head) {
                openings(text::lines(file), head)
            } else {
                1
            }
            &&& tidy(again, head, setting)
        }),
{
    let list = text::lines(file);
    let new = profile::block(head, setting);
    let then = profile::block(head, other);
    let settings = text::lines(text::terminated(setting));
    lemma_sound(file);
    lemma_reread(list, head, setting, then);
    if !profile::has_section(list, head) {
        let empty = text::terminated(Seq::empty());
        let before = text::completed(file);
        let again = text::lines(before);
        lemma_untouched(list, head, new);
        lemma_untouched(list, head, then);
        lemma_outside_all(list, head);
        text::lemma_joined_lines(file);
        // The line feed that the last line may need.
        lemma_completed_none(file, head);
        lemma_untouched(again, head, then);
        text::lemma_joined_lines(before);
        // The empty line that sets the new section off.
        text::lemma_lines_one(empty);
        text::lemma_lines_add(before, empty);
        assert(before + empty == text::terminated(before));
        assert(again + seq![empty] == again.push(empty));
        let spaced = again.push(empty);
        lemma_trim_lf(Seq::empty());
        lemma_push_other(again, empty, head, then);
        // The section itself.
        let opening = text::terminated(head);
        lemma_block_lines(head, setting);
        text::lemma_lines_add(text::terminated(before), new);
        lemma_push_head(spaced, opening, head, then);
        lemma_add_body(spaced.push(opening), settings, head, then);
        let full = spaced.push(opening) + settings;
        assert(spaced + (seq![opening] + settings) == full);
        assert(full[spaced.len() as int] == opening);
        lemma_no_openings(spaced, head, setting);
        lemma_tidy_section(spaced, head, setting);
        lemma_inside_none(spaced, head);
        assert(inside(full, head) == settings);
        lemma_outside_all(spaced, head);
        assert(spaced.drop_last() == again);
    }
}

/// A line feed behind the last line opens no section.
proof fn lemma_completed_none(file: Seq<char>, head: Seq<char>)
    requires
        heads(head),
        !profile::has_section(text::lines(file), head),
    ensures
        !profile::has_section(text::lines(text::completed(file)), head),
{
    if !text::whole(file) {
        let list = text::lines(file);
        let less = list.drop_last();
        let last = list.last();
        lemma_sound(file);
        lemma_sound_less(list);
        text::lemma_joined_lines(file);
        let before = text::joined(less);
        lemma_lines_joined(less);
        assert(file == before + last);
        assert(last.last() == file.last());
        assert(text::terminated(file) == before + text::terminated(last));
        assert(text::single(text::terminated(last))) by {
            assert(text::terminated(last).drop_last() == last);
            assert forall|i: int| 0 <= i < last.len() implies last[i] != '\n' by {
                if i < last.len() - 1 {
                    assert(last.drop_last()[i] == last[i]);
                }
            }
        }
        text::lemma_lines_one(text::terminated(last));
        text::lemma_lines_add(before, text::terminated(last));
        let more = less + seq![text::terminated(last)];
        assert(text::lines(text::terminated(file)) == more);
        assert(more.drop_last() == less);
        profile::lemma_has_section_more(list, head);
        profile::lemma_has_section_more(more, head);
        lemma_trim_lf(last);
    }
}

/// The lines of a text that is put together of whole lines.
proof fn lemma_lines_joined(list: Seq<Seq<char>>)
    requires
        sound(list),
        list.len() > 0 ==> text::whole(list.last()),
    ensures
        text::lines(text::joined(list)) == list,
        text::whole(text::joined(list)),
    decreases list.len(),
{
    if list.len() == 0 {
        assert(text::lines(Seq::empty()) == Seq::<Seq<char>>::empty());
    } else {
        lemma_sound_less(list);
        lemma_lines_joined(list.drop_last());
        text::lemma_lines_one(list.last());
        text::lemma_lines_add(text::joined(list.drop_last()), list.last());
        assert(list.drop_last() + seq![list.last()] == list);
        assert(text::joined(list).last() == list.last().last());
    }
}

/// A line feed at the end of a line is white space, and goes when the line is trimmed.
proof fn lemma_trim_lf(s: Seq<char>)
    ensures
        text::trimmed(text::terminated(s)) == text::trimmed(s),
    decreases s.len(),
{
    let t = text::terminated(s);
    if s.len() == 0 {
        assert(t.skip(1) == s);
    } else if text::space(s[0]) {
        assert(t[0] == s[0]);
        assert(t.skip(1) == text::terminated(s.skip(1)));
        lemma_trim_lf(s.skip(1));
    } else {
        assert(t[0] == s[0]);
        assert(text::trimmed_start(t) == t);
        assert(t.drop_last() == s);
    }
}

/// A list of lines without a section of `head` has no line inside one.
proof fn lemma_inside_none(list: Seq<Seq<char>>, head: Seq<char>)
    requires
        !profile::has_section(list, head),
    ensures
        inside(list, head) == Seq::<Seq<char>>::empty(),
    decreases list.len(),
{
    if list.len() > 0 {
        lemma_untouched(list, head, Seq::empty());
        let less = list.drop_last();
        if profile::has_section(less, head) {
            let k = choose|k: int| 0 <= k < less.len() && text::trimmed(less[k]) == head;
            assert(list[k] == less[k]);
        }
        lemma_inside_none(less, head);
    }
}

/// The last update counts: an update leaves what it leaves of the file as it was before an earlier
/// update of the same profile, whatever that one has set.
///
/// The name of the profile is one line, and no line of the earlier setting opens a section.
pub proof fn law_last_update_wins(file: Seq<char>, name: Seq<char>, c1: Seq<char>, c2: Seq<char>)
    requires
        text::one_line(name),
        settles(c1),
    ensures
        ({
            let head = profile::header(name);
            profile::updated(profile::updated(file, head, c1), head, c2) == profile::updated(
                file,
                head,
                c2,
            )
        }),
{
    lemma_heads(name);
    lemma_reread_update(file, profile::header(name), c1, c2);
}

/// An update that is made twice leaves what it left the first time.
///
/// The name of the profile is one line, and no line of the setting opens a section.
pub proof fn law_update_twice(
    file: Seq<char>,
    name: Seq<char>,
    exe: Option<Seq<char>>,
    socket: Seq<char>,
)
    requires
        text::one_line(name),
        settles(profile::process_line(exe, socket)),
    ensures
        ({
            let head = profile::header(name);
            let setting = profile::process_line(exe, socket);
            let once = profile::updated(file, head, setting);
            profile::updated(once, head, setting) == once
        }),
{
    let setting = profile::process_line(exe, socket);
    lemma_heads(name);
    lemma_reread_update(file, profile::header(name), setting, setting);
}

/// An update keeps every character of the file that does not belong to the profile, in its order.
/// Where the profile had no section yet, a line feed for a last line without one, and an empty
/// line, join them.
pub proof fn law_update_keeps_the_rest(
    file: Seq<char>,
    name: Seq<char>,
    exe: Option<Seq<char>>,
    socket: Seq<char>,
)
    requires
        text::one_line(name),
        settles(profile::process_line(exe, socket)),
    ensures
        ({
            let head = profile::header(name);
            let after = profile::updated(file, head, profile::process_line(exe, socket));
            let rest = text::joined(outside(text::lines(file), head));
            text::joined(outside(text::lines(after), head)) == if profile::has_section(
                text::lines(file),
                head,
            ) {
                rest
            } else {
                text::terminated(text::completed(rest))
            }
        }),
{
    let setting = profile::process_line(exe, socket);
    lemma_heads(name);
    lemma_reread_update(file, profile::header(name), setting, setting);
}

/// After an update the profile has as many sections as before, or one where it had none. Each is
/// opened by exactly its header, holds the lines of the setting and nothing else, and ends there.
pub proof fn law_update_sets_the_profile(
    file: Seq<char>,
    name: Seq<char>,
    exe: Option<Seq<char>>,
    socket: Seq<char>,
)
    requires
        text::one_line(name),
        settles(profile::process_line(exe, socket)),
    ensures
        ({
            let head = profile::header(name);
            let setting = profile::process_line(exe, socket);
            let list = text::lines(file);
            let after = text::lines(profile::updated(file, head, setting));
            &&& profile::has_section(after, head)
            &&& openings(after, head) == if profile::has_section(list, head) {
                openings(list, head)
            } else {
                1
            }
            &&& tidy(after, head, setting)
            &&& inside(after, head).len() > 0
            &&& forall|i: int|
                0 <= i < inside(after, head).len() ==> text::lines(
                    text::terminated(setting),
                ).contains(#[trigger] inside(after, head)[i])
        }),
{
    let head = profile::header(name);
    let setting = profile::process_line(exe, socket);
    lemma_heads(name);
    lemma_reread_update(file, head, setting, setting);
    let held = inside(text::lines(profile::updated(file, head, setting)), head);
    let settings = text::lines(text::terminated(setting));
    assert forall|i: int| 0 <= i < held.len() implies settings.contains(#[trigger] held[i]) by {
        assert(held.to_set().contains(held[i]));
        assert(settings.to_set().contains(held[i]));
    }
}

/// The setting of a `credential_process` is one line of its section, as long as the paths in it are
/// one line each.
pub proof fn law_setting_is_one_line(exe: Option<Seq<char>>, socket: Seq<char>)
    requires
        text::one_line(profile::program(exe)),
        text::one_line(socket),
    ensures
        text::lines(text::terminated(profile::process_line(exe, socket))) == seq![
            text::terminated(profile::process_line(exe, socket)),
        ],
        settles(profile::process_line(exe, socket)),
{
    let setting = profile::process_line(exe, socket);
    reveal_strlit("credential_process = ");
    reveal_strlit(" fetch --socket ");
    let line = text::terminated(setting);
    assert(line.drop_last() == setting);
    text::lemma_lines_one(line);
    assert(line[0] == 'c');
    lemma_trimmed_first(line);
}

/// An update of a file that was made for the same profile leaves the file that would have been made
/// for the new setting.
pub proof fn law_update_of_a_new_file(name: Seq<char>, c1: Seq<char>, c2: Seq<char>)
    requires
        text::one_line(name),
        settles(c1),
    ensures
        ({
            let head = profile::header(name);
            profile::updated(profile::block(head, c1), head, c2) == profile::block(head, c2)
        }),
{
    let head = profile::header(name);
    let made = profile::block(head, c1);
    let then = profile::block(head, c2);
    let opening = text::terminated(head);
    let settings = text::lines(text::terminated(c1));
    let none = Seq::<Seq<char>>::empty();
    lemma_heads(name);
    lemma_block_lines(head, c1);
    lemma_push_head(none, opening, head, then);
    lemma_add_body(none.push(opening), settings, head, then);
    assert(seq![opening] + settings == none.push(opening) + settings);
    assert(text::lines(made)[0] == opening);
    assert(profile::rewritten(none, head, then) == Seq::<char>::empty());
}

/// Where a file has no section for the profile, an update keeps the file as it is, completes its
/// last line, and appends an empty line and the section.
pub proof fn law_update_appends(
    file: Seq<char>,
    name: Seq<char>,
    exe: Option<Seq<char>>,
    socket: Seq<char>,
)
    requires
        !profile::has_section(text::lines(file), profile::header(name)),
    ensures
        ({
            let head = profile::header(name);
            let setting = profile::process_line(exe, socket);
            profile::updated(file, head, setting) == text::terminated(text::completed(file))
                + profile::block(head, setting)
        }),
{
    let head = profile::header(name);
    lemma_untouched(
        text::lines(file),
        head,
        profile::block(head, profile::process_line(exe, socket)),
    );
    text::lemma_joined_lines(file);
}

/// Lines behind a section, of which the first opens another one.
proof fn lemma_add_rest(
    list: Seq<Seq<char>>,
    rest: Seq<Seq<char>>,
    head: Seq<char>,
    new: Seq<char>,
)
    requires
        heads(head),
        !profile::has_section(rest, head),
        rest.len() > 0 ==> profile::opens(rest[0]),
    ensures
        profile::rewritten(list + rest, head, new) == profile::rewritten(list, head, new)
            + text::joined(rest),
        rest.len() > 0 ==> profile::section(list + rest) != Some(head),
    decreases rest.len(),
{
    if rest.len() == 0 {
        assert(list + rest == list);
    } else {
        let less = rest.drop_last();
        let line = rest.last();
        profile::lemma_has_section_more(rest, head);
        lemma_add_rest(list, less, head, new);
        assert(list + rest == (list + less).push(line));
        if less.len() == 0 {
            assert(line == rest[0]);
        }
        lemma_push_other(list + less, line, head, new);
        let before = profile::rewritten(list, head, new);
        assert(before + (text::joined(less) + line) == before + text::joined(less) + line);
    }
}

/// Where a file has one section for the profile, an update puts the new section in its place, and
/// keeps what stands before and behind it as it is.
pub proof fn law_update_in_place(
    before: Seq<char>,
    opening: Seq<char>,
    body: Seq<char>,
    behind: Seq<char>,
    name: Seq<char>,
    exe: Option<Seq<char>>,
    socket: Seq<char>,
)
    requires
        text::whole(before),
        text::single(opening),
        text::whole(opening) || (body.len() == 0 && behind.len() == 0),
        text::whole(body) || behind.len() == 0,
        text::trimmed(opening) == profile::header(name),
        !profile::has_section(text::lines(before), profile::header(name)),
        forall|i: int|
            0 <= i < text::lines(body).len() ==> !profile::opens(#[trigger] text::lines(body)[i]),
        !profile::has_section(text::lines(behind), profile::header(name)),
        behind.len() > 0 ==> profile::opens(text::lines(behind)[0]),
    ensures
        ({
            let head = profile::header(name);
            let setting = profile::process_line(exe, socket);
            profile::updated(before + opening + body + behind, head, setting) == before
                + profile::block(head, setting) + behind
        }),
{
    let head = profile::header(name);
    let setting = profile::process_line(exe, socket);
    let new = profile::block(head, setting);
    let file = before + opening + body + behind;
    let first = text::lines(before);
    let held = text::lines(body);
    let rest = text::lines(behind);
    lemma_found_heads(opening, name);
    lemma_cut_file(before, opening, body, behind);
    assert(text::lines(file) == first.push(opening) + held + rest);
    assert(text::lines(file)[first.len() as int] == opening);
    assert(text::lines(Seq::empty()) == Seq::<Seq<char>>::empty());
    // What becomes of them, part by part.
    lemma_untouched(first, head, new);
    text::lemma_joined_lines(before);
    lemma_push_head(first, opening, head, new);
    lemma_add_body(first.push(opening), held, head, new);
    if rest.len() > 0 {
        assert(behind.len() > 0);
    }
    lemma_add_rest(first.push(opening) + held, rest, head, new);
    text::lemma_joined_lines(behind);
}

/// A header that is found in a file can open a section.
proof fn lemma_found_heads(line: Seq<char>, name: Seq<char>)
    requires
        text::single(line),
        text::trimmed(line) == profile::header(name),
    ensures
        heads(profile::header(name)),
{
    profile::lemma_header(name);
    if line.last() == '\n' {
        assert(line == text::terminated(line.drop_last()));
        lemma_trim_lf(line.drop_last());
        lemma_trimmed_one_line(line.drop_last());
    } else {
        assert(text::one_line(line)) by {
            assert forall|i: int| 0 <= i < line.len() implies line[i] != '\n' by {
                if i < line.len() - 1 {
                    assert(line.drop_last()[i] == line[i]);
                }
            }
        }
        lemma_trimmed_one_line(line);
    }
}

/// What is left of one line when it is trimmed is one line.
proof fn lemma_trimmed_one_line(s: Seq<char>)
    requires
        text::one_line(s),
    ensures
        text::one_line(text::trimmed(s)),
    decreases s.len(),
{
    if s.len() > 0 && text::space(s[0]) {
        assert(text::one_line(s.skip(1)));
        lemma_trimmed_one_line(s.skip(1));
    } else if s.len() > 0 && text::space(s.last()) {
        assert(text::one_line(s.drop_last()));
        assert(s.drop_last().len() > 0 ==> s.drop_last()[0] == s[0]);
        lemma_trimmed_one_line(s.drop_last());
    }
}

/// `list` as a text in which the sections of two profiles have given way to new ones.
spec fn both(
    list: Seq<Seq<char>>,
    h1: Seq<char>,
    n1: Seq<char>,
    h2: Seq<char>,
    n2: Seq<char>,
) -> Seq<char>
    decreases list.len(),
{
    if list.len() == 0 {
        Seq::empty()
    } else {
        let before = both(list.drop_last(), h1, n1, h2, n2);
        if text::trimmed(list.last()) == h1 {
            before + n1
        } else if text::trimmed(list.last()) == h2 {
            before + n2
        } else if profile::section(list) == Some(h1) || profile::section(list) == Some(h2) {
            before
        } else {
            before + list.last()
        }
    }
}

/// The order in which the two are named does not matter.
proof fn lemma_both(
    list: Seq<Seq<char>>,
    h1: Seq<char>,
    n1: Seq<char>,
    h2: Seq<char>,
    n2: Seq<char>,
)
    requires
        h1 != h2,
    ensures
        both(list, h1, n1, h2, n2) == both(list, h2, n2, h1, n1),
    decreases list.len(),
{
    if list.len() > 0 {
        lemma_both(list.drop_last(), h1, n1, h2, n2);
    }
}

/// The lines of another section, behind a list of lines.
proof fn lemma_add_other(
    list: Seq<Seq<char>>,
    body: Seq<Seq<char>>,
    head: Seq<char>,
    new: Seq<char>,
)
    requires
        heads(head),
        profile::section(list) != Some(head),
        forall|i: int| 0 <= i < body.len() ==> !profile::opens(#[trigger] body[i]),
    ensures
        profile::rewritten(list + body, head, new) == profile::rewritten(list, head, new)
            + text::joined(body),
        profile::section(list + body) == profile::section(list),
        profile::has_section(list, head) ==> profile::has_section(list + body, head),
    decreases body.len(),
{
    if body.len() == 0 {
        assert(list + body == list);
    } else {
        let less = body.drop_last();
        let line = body.last();
        assert forall|i: int| 0 <= i < less.len() implies !profile::opens(#[trigger] less[i]) by {
            assert(less[i] == body[i]);
        }
        lemma_add_other(list, less, head, new);
        assert(list + body == (list + less).push(line));
        assert(!profile::opens(body[body.len() - 1]));
        lemma_push_other(list + less, line, head, new);
        let before = profile::rewritten(list, head, new);
        assert(before + (text::joined(less) + line) == before + text::joined(less) + line);
    }
}

/// What an update leaves for an update of another profile.
proof fn lemma_second_rewrite(
    list: Seq<Seq<char>>,
    h1: Seq<char>,
    c1: Seq<char>,
    h2: Seq<char>,
    n2: Seq<char>,
)
    requires
        heads(h1),
        heads(h2),
        h1 != h2,
        settles(c1),
        sound(list),
    ensures
        ({
            let n1 = profile::block(h1, c1);
            let again = text::lines(profile::rewritten(list, h1, n1));
            &&& profile::rewritten(again, h2, n2) == both(list, h1, n1, h2, n2)
            &&& profile::section(again) == profile::section(list)
            &&& profile::has_section(list, h2) ==> profile::has_section(again, h2)
        }),
    decreases list.len(),
{
    let n1 = profile::block(h1, c1);
    if list.len() == 0 {
        assert(text::lines(Seq::empty()) == Seq::<Seq<char>>::empty());
    } else {
        let less = list.drop_last();
        let line = list.last();
        let before = profile::rewritten(less, h1, n1);
        let again = text::lines(before);
        lemma_block_lines(h1, c1);
        lemma_sound_less(list);
        lemma_rewritten_whole(less, h1, n1);
        lemma_second_rewrite(less, h1, c1, h2, n2);
        profile::lemma_has_section_more(list, h2);
        if text::trimmed(line) == h1 {
            let opening = text::terminated(h1);
            let settings = text::lines(text::terminated(c1));
            text::lemma_lines_add(before, n1);
            lemma_push_other(again, opening, h2, n2);
            lemma_add_other(again.push(opening), settings, h2, n2);
            assert(again + (seq![opening] + settings) == again.push(opening) + settings);
            text::lemma_joined_lines(text::terminated(c1));
            let seen = profile::rewritten(again, h2, n2);
            assert(seen + n1 == seen + opening + text::terminated(c1));
        } else if profile::section(list) == Some(h1) {
            assert(text::trimmed(line) != h2) by {
                if text::trimmed(line) == h2 {
                    assert(profile::opens(line));
                }
            }
        } else {
            text::lemma_lines_one(line);
            text::lemma_lines_add(before, line);
            assert(again + seq![line] == again.push(line));
            assert(again.push(line).drop_last() == again);
            if text::trimmed(line) == h2 {
                lemma_push_head(again, line, h2, n2);
            } else {
                profile::lemma_has_section_more(again.push(line), h2);
            }
        }
    }
}

/// Different profiles have different headers.
pub proof fn lemma_headers_differ(p: Seq<char>, q: Seq<char>)
    requires
        p != q,
    ensures
        profile::header(p) != profile::header(q),
{
    reveal_strlit("[default]");
    reveal_strlit("[profile ");
    reveal_strlit("]");
    let (hp, hq) = (profile::header(p), profile::header(q));
    if hp == hq {
        assert(hp[1] == hq[1]);
        assert(p =~= hp.subrange(9, hp.len() - 1));
        assert(q =~= hq.subrange(9, hq.len() - 1));
    }
}

/// Updates of two profiles that both have a section leave the same file in either order.
///
/// No line of either setting opens a section.
pub proof fn law_updates_commute(
    file: Seq<char>,
    p: Seq<char>,
    c1: Seq<char>,
    q: Seq<char>,
    c2: Seq<char>,
)
    requires
        p != q,
        profile::has_section(text::lines(file), profile::header(p)),
        profile::has_section(text::lines(file), profile::header(q)),
        settles(c1),
        settles(c2),
    ensures
        profile::updated(profile::updated(file, profile::header(p), c1), profile::header(q), c2)
            == profile::updated(
            profile::updated(file, profile::header(q), c2),
            profile::header(p),
            c1,
        ),
{
    let list = text::lines(file);
    let (hp, hq) = (profile::header(p), profile::header(q));
    let (np, nq) = (profile::block(hp, c1), profile::block(hq, c2));
    lemma_sound(file);
    let i = choose|i: int| 0 <= i < list.len() && text::trimmed(list[i]) == hp;
    let j = choose|j: int| 0 <= j < list.len() && text::trimmed(list[j]) == hq;
    assert(text::single(list[i]) && text::single(list[j]));
    lemma_found_heads(list[i], p);
    lemma_found_heads(list[j], q);
    lemma_headers_differ(p, q);
    lemma_second_rewrite(list, hp, c1, hq, nq);
    lemma_second_rewrite(list, hq, c2, hp, np);
    lemma_both(list, hp, np, hq, nq);
}

/// Lists of lines are rewritten part by part, where a part begins with a section.
proof fn lemma_rewritten_parts(
    a: Seq<Seq<char>>,
    b: Seq<Seq<char>>,
    head: Seq<char>,
    new: Seq<char>,
)
    requires
        b.len() > 0 ==> profile::opens(b[0]),
    ensures
        profile::rewritten(a + b, head, new) == profile::rewritten(a, head, new)
            + profile::rewritten(b, head, new),
        b.len() > 0 ==> profile::section(a + b) == profile::section(b),
    decreases b.len(),
{
    if b.len() == 0 {
        assert(a + b == a);
        assert(profile::rewritten(b, head, new) == Seq::<char>::empty());
    } else {
        let less = b.drop_last();
        assert((a + b).drop_last() == a + less);
        assert((a + b).last() == b.last());
        if less.len() > 0 {
            assert(less[0] == b[0]);
        } else {
            assert(b.last() == b[0]);
        }
        lemma_rewritten_parts(a, less, head, new);
        let (x, y) = (profile::rewritten(a, head, new), profile::rewritten(less, head, new));
        assert(x + (y + new) == x + y + new);
        assert(x + (y + b.last()) == x + y + b.last());
    }
}

/// Whether a line of a file, apart from white space, is `head`.
pub open spec fn found(file: Seq<char>, head: Seq<char>) -> bool {
    exists|i: int| 0 <= i < text::lines(file).len() && text::trimmed(text::lines(file)[i]) == head
}

/// An update goes through a file section by section. Where the file is cut around a section of the
/// profile, the new section takes the place of that one, and what stands before and behind it is
/// updated for itself; a part in which the profile has no section stays as it is.
pub proof fn law_update_goes_by_sections(
    before: Seq<char>,
    opening: Seq<char>,
    body: Seq<char>,
    behind: Seq<char>,
    name: Seq<char>,
    setting: Seq<char>,
)
    requires
        text::whole(before),
        text::single(opening),
        text::whole(opening) || (body.len() == 0 && behind.len() == 0),
        text::whole(body) || behind.len() == 0,
        text::trimmed(opening) == profile::header(name),
        forall|i: int|
            0 <= i < text::lines(body).len() ==> !profile::opens(#[trigger] text::lines(body)[i]),
        behind.len() > 0 ==> profile::opens(text::lines(behind)[0]),
    ensures
        ({
            let head = profile::header(name);
            let kept = |part: Seq<char>|
                if found(part, head) {
                    profile::updated(part, head, setting)
                } else {
                    part
                };
            profile::updated(before + opening + body + behind, head, setting) == kept(before) + head
                + seq!['\n'] + setting + seq!['\n'] + kept(behind)
        }),
{
    let head = profile::header(name);
    let new = profile::block(head, setting);
    let file = before + opening + body + behind;
    let first = text::lines(before);
    let held = text::lines(body);
    let rest = text::lines(behind);
    lemma_found_heads(opening, name);
    lemma_cut_file(before, opening, body, behind);
    assert(text::lines(file) == first.push(opening) + held + rest);
    assert(text::lines(file)[first.len() as int] == opening);
    assert(profile::has_section(text::lines(file), head));
    lemma_push_head(first, opening, head, new);
    lemma_add_body(first.push(opening), held, head, new);
    assert(text::lines(Seq::empty()) == Seq::<Seq<char>>::empty());
    lemma_rewritten_parts(first.push(opening) + held, rest, head, new);
    lemma_kept(before, head, setting);
    lemma_kept(behind, head, setting);
}

/// What becomes of a part of a file when the whole of it is updated.
proof fn lemma_kept(part: Seq<char>, head: Seq<char>, setting: Seq<char>)
    ensures
        found(part, head) == profile::has_section(text::lines(part), head),
        profile::rewritten(text::lines(part), head, profile::block(head, setting)) == if found(
            part,
            head,
        ) {
            profile::updated(part, head, setting)
        } else {
            part
        },
{
    let list = text::lines(part);
    if profile::has_section(list, head) {
        let k = choose|k: int| 0 <= k < list.len() && text::trimmed(list[k]) == head;
        assert(text::trimmed(text::lines(part)[k]) == head);
    }
    if !found(part, head) {
        lemma_untouched(list, head, profile::block(head, setting));
        text::lemma_joined_lines(part);
    }
}

/// The lines of a file, part by part.
proof fn lemma_cut_file(
    before: Seq<char>,
    opening: Seq<char>,
    body: Seq<char>,
    behind: Seq<char>,
)
    requires
        text::whole(before),
        text::single(opening),
        text::whole(opening) || (body.len() == 0 && behind.len() == 0),
        text::whole(body) || behind.len() == 0,
    ensures
        text::lines(before + opening + body + behind) == text::lines(before).push(opening)
            + text::lines(body) + text::lines(behind),
{
    let file = before + opening + body + behind;
    let first = text::lines(before);
    let held = text::lines(body);
    let rest = text::lines(behind);
    text::lemma_lines_one(opening);
    text::lemma_lines_add(before, opening);
    let opened = before + opening;
    assert(opened.last() == opening.last());
    assert(text::lines(Seq::empty()) == Seq::<Seq<char>>::empty());
    if body.len() == 0 {
        assert(opened + body == opened);
        assert(held == Seq::<Seq<char>>::empty());
        assert(text::lines(opened) + held == text::lines(opened));
    } else {
        text::lemma_lines_add(opened, body);
        assert((opened + body).last() == body.last());
    }
    if behind.len() == 0 {
        assert(file == opened + body);
        assert(rest == Seq::<Seq<char>>::empty());
        assert(text::lines(opened + body) + rest == text::lines(opened + body));
    } else {
        text::lemma_lines_add(opened + body, behind);
    }
    assert(first + seq![opening] == first.push(opening));
}

/// A file in which no line is the header of the profile, apart from white space, keeps all that it
/// holds. Its last line is completed, and an empty line and the section follow.
pub proof fn law_update_of_a_file_without_the_profile(
    file: Seq<char>,
    name: Seq<char>,
    setting: Seq<char>,
)
    requires
        !found(file, profile::header(name)),
    ensures
        profile::updated(file, profile::header(name), setting) == file + (if file.len() > 0
            && file[file.len() - 1] != '\n' {
            seq!['\n', '\n']
        } else {
            seq!['\n']
        }) + profile::header(name) + seq!['\n'] + setting + seq!['\n'],
{
    let head = profile::header(name);
    lemma_kept(file, head, setting);
}

/// The first line of the section of a profile is its header.
pub proof fn lemma_block_lines_of(name: Seq<char>, setting: Seq<char>)
    requires
        text::one_line(name),
    ensures
        text::lines(profile::block(profile::header(name), setting)).len() > 0,
        text::lines(profile::block(profile::header(name), setting))[0] == text::terminated(
            profile::header(name),
        ),
{
    lemma_heads(name);
    lemma_block_lines(profile::header(name), setting);
}

} // verus!
