use vstd::prelude::*;
use crate::message::{
    find_from, find_marker_from, message_text, parse_line, prefix_text, serialize, spaced,
    split_spaces, parameters_after, GrammarError, MessageView,
};

verus! {

/// `t` holds no space.
pub open spec fn no_space(t: Seq<char>) -> bool {
    forall|i: int| 0 <= i < t.len() ==> t[i] != ' '
}

/// Nowhere in `t` is a space followed by a colon.
pub open spec fn no_marker(t: Seq<char>) -> bool {
    forall|i: int| 0 <= i < t.len() - 1 ==> !(#[trigger] t[i] == ' ' && t[i + 1] == ':')
}

proof fn lemma_find_from_at(s: Seq<char>, c: char, from: int, i: int)
    requires
        0 <= from <= i < s.len(),
        s[i] == c,
        forall|j: int| from <= j < i ==> s[j] != c,
    ensures
        find_from(s, c, from) == Some(i),
    decreases i - from,
{
    if from < i {
        lemma_find_from_at(s, c, from + 1, i);
    }
}

proof fn lemma_find_from_none(s: Seq<char>, c: char, from: int)
    requires
        0 <= from,
        forall|j: int| from <= j < s.len() ==> s[j] != c,
    ensures
        find_from(s, c, from) is None,
    decreases s.len() - from,
{
    if from < s.len() {
        lemma_find_from_none(s, c, from + 1);
    }
}

proof fn lemma_find_marker_at(s: Seq<char>, from: int, k: int)
    requires
        0 <= from <= k,
        k + 1 < s.len(),
        s[k] == ' ' && s[k + 1] == ':',
        forall|j: int| from <= j < k ==> !(#[trigger] s[j] == ' ' && s[j + 1] == ':'),
    ensures
        find_marker_from(s, from) == Some(k),
    decreases k - from,
{
    if from < k {
        lemma_find_marker_at(s, from + 1, k);
    }
}

proof fn lemma_find_marker_none(s: Seq<char>, from: int)
    requires
        0 <= from,
        forall|j: int| from <= j < s.len() - 1 ==> !(#[trigger] s[j] == ' ' && s[j + 1] == ':'),
    ensures
        find_marker_from(s, from) is None,
    decreases s.len() - from,
{
    if from + 1 < s.len() {
        lemma_find_marker_none(s, from + 1);
    }
}

proof fn lemma_split_no_space(t: Seq<char>)
    requires
        no_space(t),
    ensures
        split_spaces(t) == seq![t],
    decreases t.len(),
{
    if t.len() > 0 {
        lemma_split_no_space(t.drop_last());
        assert(t.drop_last().push(t.last()) =~= t);
        assert(seq![t.drop_last()].update(0, t.drop_last().push(t.last())) =~= seq![t]);
    } else {
        assert(t =~= Seq::<char>::empty());
    }
}

proof fn lemma_split_after_space(a: Seq<char>, b: Seq<char>)
    requires
        no_space(b),
    ensures
        split_spaces(a + seq![' '] + b) == split_spaces(a).push(b),
    decreases b.len(),
{
    let t = a + seq![' '] + b;
    if b.len() == 0 {
        assert(t.drop_last() =~= a);
        assert(b =~= Seq::<char>::empty());
    } else {
        lemma_split_after_space(a, b.drop_last());
        assert(t.drop_last() =~= a + seq![' '] + b.drop_last());
        assert(b.drop_last().push(b.last()) =~= b);
        let init = split_spaces(a).push(b.drop_last());
        assert(init.update(init.len() - 1, init.last().push(t.last())) =~= split_spaces(a).push(b));
    }
}

/// Texts free of spaces, joined by single spaces, split back into those texts.
proof fn lemma_split_spaced(texts: Seq<Seq<char>>)
    requires
        texts.len() > 0,
        forall|i: int| 0 <= i < texts.len() ==> no_space(#[trigger] texts[i]),
    ensures
        split_spaces(spaced(texts).drop_last()) == texts,
    decreases texts.len(),
{
    let init = texts.drop_last();
    let x = texts.last();
    assert(spaced(texts).drop_last() =~= spaced(init) + x);
    if init.len() == 0 {
        assert(spaced(init) =~= Seq::<char>::empty());
        assert(spaced(init) + x =~= x);
        lemma_split_no_space(x);
        assert(texts =~= seq![x]);
    } else {
        lemma_split_spaced(init);
        lemma_spaced_ends_in_space(init);
        assert(spaced(init) =~= spaced(init).drop_last() + seq![' ']);
        lemma_split_after_space(spaced(init).drop_last(), x);
        assert(init.push(x) =~= texts);
    }
}

proof fn lemma_spaced_ends_in_space(texts: Seq<Seq<char>>)
    requires
        texts.len() > 0,
    ensures
        spaced(texts).len() > 0,
        spaced(texts).last() == ' ',
{
}

/// With each text free of spaces and not opening with a colon, a space and then
/// the texts, each followed by a space, hold no space followed by a colon.
proof fn lemma_spaced_no_marker(texts: Seq<Seq<char>>)
    requires
        forall|i: int| 0 <= i < texts.len() ==> middle_parameter(#[trigger] texts[i]),
    ensures
        no_marker(seq![' '] + spaced(texts)),
        (seq![' '] + spaced(texts)).last() == ' ',
    decreases texts.len(),
{
    if texts.len() > 0 {
        let init = texts.drop_last();
        let x = texts.last();
        assert(middle_parameter(texts[texts.len() - 1]));
        lemma_spaced_no_marker(init);
        let a = seq![' '] + spaced(init);
        let b = seq![' '] + spaced(texts);
        assert(b =~= a + x + seq![' ']);
        assert forall|i: int| 0 <= i < b.len() - 1 implies !(#[trigger] b[i] == ' ' && b[i + 1] == ':') by {
            if i < a.len() - 1 {
                assert(b[i] == a[i] && b[i + 1] == a[i + 1]);
            } else if i == a.len() - 1 {
                if x.len() > 0 {
                    assert(b[i + 1] == x[0]);
                }
            } else {
                assert(b[i] == x[i - a.len()]);
            }
        }
    } else {
        assert(seq![' '] + spaced(texts) =~= seq![' ']);
    }
}

/// A parameter that may stand before the last one: no space in it, and no colon
/// at its start.
pub open spec fn middle_parameter(t: Seq<char>) -> bool {
    no_space(t) && (t.len() > 0 ==> t[0] != ':')
}

/// A prefix and a command that a line can carry and that read back as they were:
/// neither empty nor holding a space, and, with no prefix, a command that does not
/// open with a colon.
pub open spec fn valid_head(prefix: Option<Seq<char>>, command: Seq<char>) -> bool {
    &&& prefix is Some ==> prefix->0.len() > 0 && no_space(prefix->0)
    &&& command.len() > 0 && no_space(command)
    &&& prefix is None ==> command[0] != ':'
}

/// A message that reads back as it was written: a valid prefix and command, and
/// each parameter but the last a middle one.
pub open spec fn wire_safe(m: MessageView) -> bool {
    &&& valid_head(m.prefix, m.command)
    &&& forall|i: int| 0 <= i < m.parameters.len() - 1 ==> middle_parameter(#[trigger] m.parameters[i])
}

/// A line that opens with a valid prefix and command and goes on with `rest`
/// (nothing, or a space and more) reads as that prefix and command, with the
/// parameters found after the command.
proof fn lemma_parse_head(prefix: Option<Seq<char>>, command: Seq<char>, rest: Seq<char>)
    requires
        valid_head(prefix, command),
        rest.len() > 0 ==> rest[0] == ' ',
    ensures
        parse_line(prefix_text(prefix) + command + rest) == Ok::<MessageView, GrammarError>(
            MessageView {
                prefix,
                command,
                parameters: parameters_after(
                    prefix_text(prefix) + command + rest,
                    prefix_text(prefix).len() + command.len() as int,
                ),
            },
        ),
{
    let head = prefix_text(prefix);
    let line = head + command + rest;
    let start = head.len() as int;
    let end = start + command.len() as int;
    if let Some(p) = prefix {
        let q = 1 + p.len() as int;
        assert(line[0] == ':');
        assert forall|j: int| 1 <= j < q implies line[j] != ' ' by {
            assert(line[j] == p[j - 1]);
        }
        assert(line[q] == ' ');
        lemma_find_from_at(line, ' ', 1, q);
        assert(line.subrange(1, q) =~= p);
    } else {
        assert(head =~= Seq::<char>::empty());
        assert(line[0] == command[0]);
    }
    assert forall|j: int| start <= j < end implies line[j] != ' ' by {
        assert(line[j] == command[j - start]);
    }
    if rest.len() > 0 {
        assert(line[end] == rest[0]);
        lemma_find_from_at(line, ' ', start, end);
    } else {
        lemma_find_from_none(line, ' ', start);
    }
    assert(line.subrange(start, end) =~= command);
}

/// A line whose parameters carry no trailing mark (no space followed by a colon
/// after the command) reads without error, and its parameters are the text after
/// the command's space cut at each space, empty pieces kept; with no such text
/// there are no parameters.
pub proof fn law_parameters_split_on_spaces(
    prefix: Option<Seq<char>>,
    command: Seq<char>,
    region: Seq<char>,
)
    requires
        valid_head(prefix, command),
        no_marker(seq![' '] + region),
    ensures
        parse_line(prefix_text(prefix) + command) == Ok::<MessageView, GrammarError>(
            MessageView { prefix, command, parameters: Seq::empty() },
        ),
        parse_line(prefix_text(prefix) + command + seq![' '] + region)
            == Ok::<MessageView, GrammarError>(
            MessageView {
                prefix,
                command,
                parameters: if region.len() == 0 {
                    Seq::empty()
                } else {
                    split_spaces(region)
                },
            },
        ),
{
    let head = prefix_text(prefix);
    let end = head.len() + command.len() as int;
    lemma_parse_head(prefix, command, Seq::empty());
    assert(head + command + Seq::<char>::empty() =~= head + command);
    lemma_find_marker_none(head + command, end);
    let rest = seq![' '] + region;
    let line = head + command + rest;
    assert(line =~= head + command + seq![' '] + region);
    lemma_parse_head(prefix, command, rest);
    assert forall|j: int| end <= j < line.len() - 1 implies !(#[trigger] line[j] == ' ' && line[j
        + 1] == ':') by {
        assert(line[j] == rest[j - end] && line[j + 1] == rest[j + 1 - end]);
    }
    lemma_find_marker_none(line, end);
    assert(line.subrange(end + 1, line.len() as int) =~= region);
}

/// A message with parameters, written as a line and read back without its line
/// end, is the message it was. It must be one that a line can carry: see
/// `wire_safe`.
pub proof fn law_round_trip(m: MessageView)
    requires
        m.parameters.len() > 0,
        wire_safe(m),
    ensures
        parse_line(serialize(m).subrange(0, serialize(m).len() - 2)) == Ok::<
            MessageView,
            GrammarError,
        >(m),
{
    let head = prefix_text(m.prefix);
    let middles = m.parameters.drop_last();
    let last = m.parameters.last();
    let end = head.len() + m.command.len() as int;
    let gap = seq![' '] + spaced(middles);
    let rest = gap + seq![':'] + last;
    let line = head + m.command + rest;
    assert(serialize(m).subrange(0, serialize(m).len() - 2) =~= message_text(m));
    assert(message_text(m) =~= line);
    lemma_parse_head(m.prefix, m.command, rest);
    assert forall|i: int| 0 <= i < middles.len() implies middle_parameter(#[trigger] middles[i]) by {
        assert(middles[i] == m.parameters[i]);
    }
    lemma_spaced_no_marker(middles);
    let k = end + gap.len() - 1;
    assert forall|j: int| end <= j < k implies !(#[trigger] line[j] == ' ' && line[j + 1] == ':') by {
        assert(line[j] == gap[j - end] && line[j + 1] == gap[j + 1 - end]);
    }
    assert(line[k] == gap[gap.len() - 1]);
    assert(line[k + 1] == ':');
    lemma_find_marker_at(line, end, k);
    assert(line.subrange(k + 2, line.len() as int) =~= last);
    if middles.len() > 0 {
        assert forall|i: int| 0 <= i < middles.len() implies no_space(#[trigger] middles[i]) by {
            assert(middle_parameter(middles[i]));
        }
        lemma_split_spaced(middles);
        assert(line.subrange(end + 1, k) =~= spaced(middles).drop_last());
        assert(middles.push(last) =~= m.parameters);
    } else {
        assert(spaced(middles) =~= Seq::<char>::empty());
        assert(seq![last] =~= m.parameters);
    }
}

} // verus!
