//! The settings file: lines of the form `key = "value"`.

use vstd::prelude::*;

use crate::error::{viewed, ConfigError, ConfigErrorView};
use crate::text::{chars_of, find, push_chars, range_of, same_chars, split_lines, trim};
use crate::text::{all_white, bare, chomped, lines, position, trimmed, views, with_crlf};
use crate::text::{trim_end, trim_start, white_space};
use crate::text::{
    law_trimming, law_trimming_leaves_white_space, lemma_crlf_after_line, lemma_first_line, lemma_lines_concat, lemma_one_line,
    lemma_position, lemma_position_is, lemma_trimmed_after_space, lemma_trimmed_before_space,
    lemma_trimmed_chomped, lemma_trimmed_ends, lemma_trimmed_fixed,
};

verus! {

/// The name and the value on a line of the form `name = value`, both trimmed.
pub struct Entry {
    pub name: Seq<char>,
    pub value: Seq<char>,
}

/// The entry on a line. Blank lines, comments and lines without an equals sign have none.
pub open spec fn entry(line: Seq<char>) -> Option<Entry> {
    let text = trimmed(line);
    let n = position(text, '=') as int;
    if text.len() == 0 || text[0] == '#' || n >= text.len() {
        None
    } else {
        Some(Entry { name: trimmed(text.take(n)), value: trimmed(text.skip(n + 1)) })
    }
}

/// What a value holds between its double quotes, where it has them.
pub open spec fn unquoted(value: Seq<char>) -> Option<Seq<char>> {
    if value.len() >= 2 && value[0] == '"' && value.last() == '"' {
        Some(value.subrange(1, value.len() - 1))
    } else {
        None
    }
}

/// Whether a line sets `key`.
pub open spec fn sets(line: Seq<char>, key: Seq<char>) -> bool {
    entry(line) is Some && entry(line)->0.name == key
}

/// The setting that the first line for `key` gives.
pub open spec fn first_setting(ls: Seq<Seq<char>>, key: Seq<char>) -> Result<
    Seq<char>,
    ConfigErrorView,
>
    decreases ls.len(),
{
    if ls.len() == 0 {
        Err(ConfigErrorView::MissingField(key))
    } else if !sets(ls[0], key) {
        first_setting(ls.drop_first(), key)
    } else {
        match unquoted(entry(ls[0])->0.value) {
            Some(value) => Ok(value),
            None => Err(ConfigErrorView::InvalidValueType(key)),
        }
    }
}

/// The setting of `key` in a settings file.
pub open spec fn config_value(config: Seq<char>, key: Seq<char>) -> Result<
    Seq<char>,
    ConfigErrorView,
> {
    first_setting(lines(config), key)
}

/// Reads the name and the value on a line.
fn read_entry(line: &Vec<char>) -> (res: Option<(Vec<char>, Vec<char>)>)
    ensures
        res is Some <==> entry(line@) is Some,
        res matches Some(found) ==> entry(line@)->0 == (Entry { name: found.0@, value: found.1@ }),
{
    let text = trim(line);
    if text.len() == 0 || text[0] == '#' {
        return None;
    }
    assert(text@.skip(0) == text@);
    let n = find(&text, 0, '=');
    if n == text.len() {
        return None;
    }
    let name = range_of(&text, 0, n);
    let value = range_of(&text, n + 1, text.len());
    assert(name@ == text@.take(n as int));
    assert(value@ == text@.skip(n + 1));
    Some((trim(&name), trim(&value)))
}

/// Reads one `key = "value"` entry from the text of a settings file.
///
/// Blank lines and `#` comments are skipped; values must be double-quoted. The first line for a
/// key decides.
pub fn get_config_value(config: &str, key: &str) -> (res: Result<String, ConfigError>)
    ensures
        viewed(res) == config_value(config@, key@),
{
    let ls = split_lines(&chars_of(config));
    let wanted = chars_of(key);
    assert(views(ls@).skip(0) == views(ls@));
    for i in 0..ls.len()
        invariant
            views(ls@) == lines(config@),
            wanted@ == key@,
            first_setting(views(ls@).skip(i as int), key@) == config_value(config@, key@),
    {
        assert(views(ls@).skip(i as int).drop_first() == views(ls@).skip(i + 1));
        assert(views(ls@).skip(i as int)[0] == ls@[i as int]@);
        match read_entry(&ls[i]) {
            Some((name, value)) => if same_chars(&name, &wanted) {
                if value.len() >= 2 && value[0] == '"' && value[value.len() - 1] == '"' {
                    let mut out: String = String::new();
                    push_chars(&mut out, &range_of(&value, 1, value.len() - 1));
                    assert(out@ == value@.subrange(1, value@.len() - 1));
                    return Ok(out);
                }
                return Err(ConfigError::InvalidValueType(key.to_owned()));
            },
            None => (),
        }
    }
    Err(ConfigError::MissingField(key.to_owned()))
}

/// The program that asks for the Windows Hello gesture.
pub fn get_authenticator_path(config: &str) -> (res: Result<String, ConfigError>)
    ensures
        viewed(res) == config_value(config@, "authenticator_path"@),
{
    get_config_value(config, "authenticator_path")
}

/// Where the Windows drive is mounted.
pub fn get_win_mnt(config: &str) -> (res: Result<String, ConfigError>)
    ensures
        viewed(res) == config_value(config@, "win_mnt"@),
{
    get_config_value(config, "win_mnt")
}

// ---- Laws ----

/// A blank line or a comment.
pub open spec fn blank_or_comment(line: Seq<char>) -> bool {
    trimmed(line).len() == 0 || trimmed(line)[0] == '#'
}

/// Text that consists of whole lines.
pub open spec fn whole_lines(text: Seq<char>) -> bool {
    text.len() == 0 || text.last() == '\n'
}

/// Names that can be set: on one line, trimmed, without an equals sign, no comment.
pub open spec fn settable(key: Seq<char>) -> bool {
    &&& trimmed(key) == key
    &&& !key.contains('=')
    &&& !key.contains('\n')
    &&& key.len() > 0 ==> key[0] != '#'
}

/// A line of the form `key = "value"`, terminated.
pub open spec fn setting_line(key: Seq<char>, value: Seq<char>) -> Seq<char> {
    key + " = \""@ + value + "\"\n"@
}

proof fn lemma_first_setting_concat(a: Seq<Seq<char>>, b: Seq<Seq<char>>, key: Seq<char>)
    ensures
        first_setting(a + b, key) == if first_setting(a, key) == Err::<Seq<char>, ConfigErrorView>(
            ConfigErrorView::MissingField(key),
        ) {
            first_setting(b, key)
        } else {
            first_setting(a, key)
        },
    decreases a.len(),
{
    if a.len() == 0 {
        assert(a + b == b);
    } else {
        assert((a + b).drop_first() == a.drop_first() + b);
        lemma_first_setting_concat(a.drop_first(), b, key);
    }
}

/// The first line for a key decides: what follows counts only where nothing before sets the key.
pub proof fn law_first_setting_decides(before: Seq<char>, after: Seq<char>, key: Seq<char>)
    requires
        whole_lines(before),
    ensures
        config_value(before + after, key) == if config_value(before, key) == Err::<
            Seq<char>,
            ConfigErrorView,
        >(ConfigErrorView::MissingField(key)) {
            config_value(after, key)
        } else {
            config_value(before, key)
        },
{
    lemma_lines_concat(before, after);
    lemma_first_setting_concat(lines(before), lines(after), key);
}

/// A line that does not set the key adds nothing.
proof fn lemma_other_line(line: Seq<char>, key: Seq<char>)
    requires
        !line.contains('\n'),
        !sets(line, key),
    ensures
        config_value(line.push('\n'), key) == Err::<Seq<char>, ConfigErrorView>(
            ConfigErrorView::MissingField(key),
        ),
{
    lemma_one_line(line);
    lemma_trimmed_chomped(line);
    let ls = seq![chomped(line)];
    assert(ls.drop_first() == Seq::<Seq<char>>::empty());
    assert(first_setting(ls.drop_first(), key) == Err::<Seq<char>, ConfigErrorView>(
        ConfigErrorView::MissingField(key),
    ));
}

/// A value is read only from a line that sets the key to it in double quotes, before which no
/// line sets the key.
pub proof fn law_values_are_double_quoted(config: Seq<char>, key: Seq<char>, value: Seq<char>)
    requires
        config_value(config, key) == Ok::<Seq<char>, ConfigErrorView>(value),
    ensures
        exists|i: int| #[trigger]
            sets_first(lines(config), key, i) && entry(lines(config)[i])->0.value == seq!['"']
                + value + seq!['"'],
{
    lemma_setting_line(lines(config), key, value);
}

/// Whether line `i` is the first that sets `key`.
pub open spec fn sets_first(ls: Seq<Seq<char>>, key: Seq<char>, i: int) -> bool {
    &&& 0 <= i < ls.len()
    &&& sets(ls[i], key)
    &&& forall|j: int| 0 <= j < i ==> !sets(#[trigger] ls[j], key)
}

proof fn lemma_setting_line(ls: Seq<Seq<char>>, key: Seq<char>, value: Seq<char>)
    requires
        first_setting(ls, key) == Ok::<Seq<char>, ConfigErrorView>(value),
    ensures
        exists|i: int| #[trigger]
            sets_first(ls, key, i) && entry(ls[i])->0.value == seq!['"'] + value + seq!['"'],
    decreases ls.len(),
{
    if sets(ls[0], key) {
        let found = entry(ls[0])->0.value;
        assert(found == seq!['"'] + found.subrange(1, found.len() - 1) + seq!['"']);
        assert(sets_first(ls, key, 0));
    } else {
        let rest = ls.drop_first();
        lemma_setting_line(rest, key, value);
        let i = choose|i: int| #[trigger]
            sets_first(rest, key, i) && entry(rest[i])->0.value == seq!['"'] + value + seq!['"'];
        assert forall|j: int| 0 <= j < i + 1 implies !sets(#[trigger] ls[j], key) by {
            if j > 0 {
                assert(ls[j] == rest[j - 1]);
            }
        }
        assert(ls[i + 1] == rest[i]);
        assert(sets_first(ls, key, i + 1));
    }
}

/// A line that does not set a key does not matter to it, wherever the line stands.
pub proof fn law_other_lines_do_not_matter(
    before: Seq<char>,
    line: Seq<char>,
    after: Seq<char>,
    key: Seq<char>,
)
    requires
        whole_lines(before),
        !line.contains('\n'),
        !sets(line, key),
    ensures
        config_value(before + line.push('\n') + after, key) == config_value(before + after, key),
{
    lemma_other_line(line, key);
    assert(before + line.push('\n') + after == before + (line.push('\n') + after));
    law_first_setting_decides(line.push('\n'), after, key);
    law_first_setting_decides(before, line.push('\n') + after, key);
    law_first_setting_decides(before, after, key);
}

/// Blank lines and comments are skipped, wherever they stand.
pub proof fn law_blank_lines_and_comments_are_skipped(
    before: Seq<char>,
    line: Seq<char>,
    after: Seq<char>,
    key: Seq<char>,
)
    requires
        whole_lines(before),
        !line.contains('\n'),
        blank_or_comment(line),
    ensures
        config_value(before + line.push('\n') + after, key) == config_value(before + after, key),
{
    law_other_lines_do_not_matter(before, line, after, key);
}

/// The entry on a line that was written for a key and a value.
proof fn lemma_written_entry(key: Seq<char>, value: Seq<char>)
    requires
        settable(key),
        !value.contains('\n'),
    ensures
        ({
            let line = key + " = \""@ + value + "\""@;
            &&& setting_line(key, value) == line.push('\n')
            &&& !line.contains('\n')
            &&& entry(line) == Some(Entry { name: key, value: seq!['"'] + value + seq!['"'] })
        }),
{
    reveal_strlit(" = \"");
    reveal_strlit("\"\n");
    reveal_strlit("\"");
    let line = key + " = \""@ + value + "\""@;
    let quoted = seq!['"'] + value + seq!['"'];
    assert(setting_line(key, value) == line.push('\n'));
    assert(!line.contains('\n')) by {
        if line.contains('\n') {
            let i = choose|i: int| 0 <= i < line.len() && line[i] == '\n';
            if i < key.len() {
                assert(key[i] == '\n');
                assert(key.contains(key[i]));
            } else if i >= key.len() + 4 && i < line.len() - 1 {
                assert(value[i - key.len() - 4] == '\n');
                assert(value.contains(value[i - key.len() - 4]));
            }
            assert(false);
        }
    }
    let tail = seq!['='] + seq![' '] + quoted;
    assert(line == key + seq![' '] + tail);
    lemma_trimmed_fixed(quoted);
    lemma_trimmed_after_space(' ', quoted);
    if key.len() == 0 {
        assert(line == seq![' '] + tail);
        lemma_trimmed_after_space(' ', tail);
        lemma_trimmed_fixed(tail);
        lemma_position_is(tail, '=', 0);
        assert(tail.take(0) == key);
        assert(tail.skip(1) == seq![' '] + quoted);
        assert(trimmed(line) == tail);
    } else {
        lemma_trimmed_ends(key);
        lemma_trimmed_fixed(line);
        let n = key.len() as int + 1;
        assert forall|i: int| 0 <= i < n implies line[i] != '=' by {
            if i < key.len() {
                assert(line[i] == key[i]);
                assert(key.contains(key[i]));
            }
        }
        lemma_position_is(line, '=', n);
        assert(line.take(n) == key.push(' '));
        assert(line.skip(n + 1) == seq![' '] + quoted);
        lemma_trimmed_before_space(key, ' ');
        assert(line[0] == key[0]);
    }
}

/// A written setting is read back: after lines that do not set the key, `key = "value"` gives
/// the value, whatever follows it.
pub proof fn law_written_setting_is_read_back(
    before: Seq<char>,
    key: Seq<char>,
    value: Seq<char>,
    after: Seq<char>,
)
    requires
        whole_lines(before),
        config_value(before, key) == Err::<Seq<char>, ConfigErrorView>(
            ConfigErrorView::MissingField(key),
        ),
        settable(key),
        !value.contains('\n'),
    ensures
        config_value(before + setting_line(key, value) + after, key) == Ok::<
            Seq<char>,
            ConfigErrorView,
        >(value),
{
    reveal_strlit("\"");
    lemma_written_entry(key, value);
    let line = key + " = \""@ + value + "\""@;
    let written = setting_line(key, value);
    lemma_one_line(line);
    assert(chomped(line) == line);
    assert((seq!['"'] + value + seq!['"']).subrange(1, value.len() as int + 1) == value);
    assert(config_value(written, key) == Ok::<Seq<char>, ConfigErrorView>(value));
    law_first_setting_decides(written, after, key);
    assert(before + written + after == before + (written + after));
    law_first_setting_decides(before, written + after, key);
}

/// A written setting leaves the other keys alone.
pub proof fn law_settings_do_not_interfere(
    before: Seq<char>,
    key: Seq<char>,
    value: Seq<char>,
    after: Seq<char>,
    other: Seq<char>,
)
    requires
        whole_lines(before),
        settable(key),
        !value.contains('\n'),
        other != key,
    ensures
        config_value(before + setting_line(key, value) + after, other) == config_value(
            before + after,
            other,
        ),
{
    lemma_written_entry(key, value);
    law_other_lines_do_not_matter(before, key + " = \""@ + value + "\""@, after, other);
}

/// A line with a name, an equals sign and a value, with white space round each of them.
pub open spec fn spaced_line(
    lead: Seq<char>,
    name: Seq<char>,
    a: Seq<char>,
    b: Seq<char>,
    value: Seq<char>,
    tail: Seq<char>,
) -> Seq<char> {
    lead + name + a + seq!['='] + b + value + tail
}

/// Whether a name can stand on a line before an equals sign: it has no white space at its ends and
/// no equals sign, and does not begin a comment.
pub open spec fn nameable(name: Seq<char>) -> bool {
    bare(name) && !name.contains('=') && (name.len() > 0 ==> name[0] != '#')
}

/// The entry on a spaced line.
proof fn lemma_spaced_entry(
    lead: Seq<char>,
    name: Seq<char>,
    a: Seq<char>,
    b: Seq<char>,
    value: Seq<char>,
    tail: Seq<char>,
)
    requires
        all_white(lead),
        all_white(a),
        all_white(b),
        all_white(tail),
        nameable(name),
        bare(value),
    ensures
        entry(spaced_line(lead, name, a, b, value, tail)) == Some(Entry { name, value }),
{
    let none = Seq::<char>::empty();
    let line = spaced_line(lead, name, a, b, value, tail);
    let before: Seq<char> = if name.len() == 0 {
        none
    } else {
        name + a
    };
    let front: Seq<char> = if name.len() == 0 {
        lead + a
    } else {
        lead
    };
    let after: Seq<char> = if value.len() == 0 {
        none
    } else {
        b + value
    };
    let back: Seq<char> = if value.len() == 0 {
        b + tail
    } else {
        tail
    };
    let core = before + seq!['='] + after;
    assert(line == front + core + back);
    assert forall|i: int| 0 <= i < front.len() implies white_space(#[trigger] front[i]) by {
        if i < lead.len() {
            assert(front[i] == lead[i]);
        } else {
            assert(front[i] == a[i - lead.len()]);
        }
    }
    assert forall|i: int| 0 <= i < back.len() implies white_space(#[trigger] back[i]) by {
        if value.len() == 0 {
            if i < b.len() {
                assert(back[i] == b[i]);
            } else {
                assert(back[i] == tail[i - b.len()]);
            }
        }
    }
    assert(bare(core)) by {
        if name.len() > 0 {
            assert(core[0] == name[0]);
        }
        if value.len() > 0 {
            assert(core.last() == value.last());
        } else {
            assert(core.last() == '=');
        }
    }
    law_trimming(front, core, back);
    let n = before.len() as int;
    assert forall|i: int| 0 <= i < n implies core[i] != '=' by {
        if i < name.len() {
            assert(core[i] == name[i]);
            assert(name.contains(name[i]));
        } else {
            assert(core[i] == a[i - name.len()]);
            assert(white_space(a[i - name.len()]));
        }
    }
    lemma_position_is(core, '=', n);
    assert(core.take(n) == before);
    assert(core.skip(n + 1) == after);
    assert(all_white(none));
    if name.len() > 0 {
        law_trimming(none, name, a);
        assert(none + name + a == before);
    } else {
        law_trimming(none, none, none);
        assert(none + none + none == none);
        assert(name == none);
    }
    if value.len() > 0 {
        law_trimming(b, value, none);
        assert(b + value + none == after);
    } else {
        law_trimming(none, none, none);
        assert(none + none + none == none);
        assert(value == none);
    }
    assert(core[0] != '#');
}

/// The setting in a text that begins with a terminated line.
proof fn lemma_value_after_line(line: Seq<char>, rest: Seq<char>, key: Seq<char>)
    requires
        !line.contains('\n'),
    ensures
        config_value(line.push('\n') + rest, key) == if !sets(line, key) {
            config_value(rest, key)
        } else {
            match unquoted(entry(line)->0.value) {
                Some(value) => Ok(value),
                None => Err(ConfigErrorView::InvalidValueType(key)),
            }
        },
{
    lemma_lines_concat(line.push('\n'), rest);
    lemma_one_line(line);
    lemma_trimmed_chomped(line);
    let ls = seq![chomped(line)] + lines(rest);
    assert(ls.drop_first() == lines(rest));
    assert(ls[0] == chomped(line));
}

/// What a line `name = value` says, with any white space round its parts. For another key it says
/// nothing. For its own key, where nothing before it sets that key, it decides: a value in double
/// quotes is taken without them, and any other is an error.
pub proof fn law_setting_line_decides(
    before: Seq<char>,
    lead: Seq<char>,
    name: Seq<char>,
    a: Seq<char>,
    b: Seq<char>,
    value: Seq<char>,
    tail: Seq<char>,
    after: Seq<char>,
    key: Seq<char>,
)
    requires
        whole_lines(before),
        config_value(before, key) == Err::<Seq<char>, ConfigErrorView>(
            ConfigErrorView::MissingField(key),
        ),
        all_white(lead),
        all_white(a),
        all_white(b),
        all_white(tail),
        nameable(name),
        bare(value),
        !(lead + name + a + seq!['='] + b + value + tail).contains('\n'),
    ensures
        ({
            let text = before + (lead + name + a + seq!['='] + b + value + tail).push('\n') + after;
            &&& name != key ==> config_value(text, key) == config_value(after, key)
            &&& forall|inner: Seq<char>|
                name == key && value == #[trigger] (seq!['"'] + inner + seq!['"']) ==> config_value(
                    text,
                    key,
                ) == Ok::<Seq<char>, ConfigErrorView>(inner)
            &&& name == key && !(value.len() >= 2 && value[0] == '"' && value.last() == '"')
                ==> config_value(text, key) == Err::<Seq<char>, ConfigErrorView>(
                ConfigErrorView::InvalidValueType(key),
            )
        }),
{
    let line = spaced_line(lead, name, a, b, value, tail);
    lemma_spaced_entry(lead, name, a, b, value, tail);
    lemma_value_after_line(line, after, key);
    assert(before + line.push('\n') + after == before + (line.push('\n') + after));
    law_first_setting_decides(before, line.push('\n') + after, key);
    assert forall|inner: Seq<char>|
        name == key && value == #[trigger] (seq!['"'] + inner + seq!['"']) implies config_value(
        before + line.push('\n') + after,
        key,
    ) == Ok::<Seq<char>, ConfigErrorView>(inner) by {
        assert(value.subrange(1, value.len() - 1) == inner);
    }
}

/// White space round the equals sign does not matter, however much of it there is.
pub proof fn law_spacing_does_not_matter(
    key: Seq<char>,
    a: Seq<char>,
    b: Seq<char>,
    value: Seq<char>,
)
    requires
        nameable(key),
        !key.contains('\n'),
        all_white(a),
        !a.contains('\n'),
        all_white(b),
        !b.contains('\n'),
        !value.contains('\n'),
    ensures
        config_value(
            key + a + seq!['='] + b + seq!['"'] + value + seq!['"', '\n'],
            key,
        ) == Ok::<Seq<char>, ConfigErrorView>(value),
{
    let none = Seq::<char>::empty();
    let quoted = seq!['"'] + value + seq!['"'];
    let line = none + key + a + seq!['='] + b + quoted + none;
    let text = key + a + seq!['='] + b + seq!['"'] + value + seq!['"', '\n'];
    assert(line == key + a + seq!['='] + b + quoted);
    assert(text == none + line.push('\n') + none);
    assert(!line.contains('\n')) by {
        if line.contains('\n') {
            let i = choose|i: int| 0 <= i < line.len() && line[i] == '\n';
            let k = key.len() as int;
            let n = k + a.len();
            let m = n + 1 + b.len();
            if i < k {
                assert(key.contains(key[i]));
            } else if i < n {
                assert(a.contains(a[i - k]));
            } else if n < i < m {
                assert(b.contains(b[i - n - 1]));
            } else if m < i < line.len() - 1 {
                assert(value.contains(value[i - m - 1]));
            }
            assert(false);
        }
    }
    assert(all_white(none));
    law_no_settings(none, key);
    law_setting_line_decides(none, none, key, a, b, quoted, none, none, key);
}

/// Where there is nothing, nothing is set; and the last line needs no line feed.
pub proof fn law_no_settings(text: Seq<char>, key: Seq<char>)
    ensures
        config_value(Seq::empty(), key) == Err::<Seq<char>, ConfigErrorView>(
            ConfigErrorView::MissingField(key),
        ),
        config_value(text.push('\n'), key) == config_value(text, key),
    decreases text.len(),
{
    let none = Seq::<char>::empty();
    assert(lines(none) == Seq::<Seq<char>>::empty());
    let n = position(text, '\n') as int;
    lemma_first_line(text);
    if n < text.len() {
        let line = text.take(n);
        let rest = text.skip(n + 1);
        law_no_settings(rest, key);
        lemma_value_after_line(line, rest, key);
        lemma_value_after_line(line, rest.push('\n'), key);
        assert(text.push('\n') == line.push('\n') + rest.push('\n'));
    } else {
        lemma_value_after_line(text, none, key);
        assert(text.push('\n') + none == text.push('\n'));
        if text.len() > 0 {
            assert(lines(text) == seq![text]);
            assert(seq![text].drop_first() == Seq::<Seq<char>>::empty());
        } else {
            assert(trimmed(text).len() == 0);
        }
    }
}

/// A comment says nothing, and neither does a line without an equals sign.
pub proof fn law_comments_and_other_text_say_nothing(
    before: Seq<char>,
    lead: Seq<char>,
    text: Seq<char>,
    after: Seq<char>,
    key: Seq<char>,
)
    requires
        whole_lines(before),
        all_white(lead),
        !(lead + text).contains('\n'),
        text.len() > 0 && text[0] == '#' || !(lead + text).contains('='),
    ensures
        config_value(before + (lead + text).push('\n') + after, key) == config_value(
            before + after,
            key,
        ),
{
    let line = lead + text;
    if text.len() > 0 && text[0] == '#' {
        lemma_comment(lead, text);
    } else {
        lemma_trimmed_within(line, '=');
    }
    law_other_lines_do_not_matter(before, line, after, key);
}

/// A comment is one behind white space too.
proof fn lemma_comment(lead: Seq<char>, text: Seq<char>)
    requires
        all_white(lead),
        text.len() > 0 && text[0] == '#',
    ensures
        entry(lead + text) is None,
    decreases lead.len(),
{
    if lead.len() == 0 {
        assert(lead + text == text);
        assert(trim_start(text) == text);
        lemma_trim_end_keeps_first(text);
    } else {
        let rest = lead.drop_first();
        assert forall|i: int| 0 <= i < rest.len() implies white_space(#[trigger] rest[i]) by {
            assert(rest[i] == lead[i + 1]);
        }
        assert(white_space(lead[0]));
        assert(lead + text == seq![lead[0]] + (rest + text));
        lemma_trimmed_after_space(lead[0], rest + text);
        lemma_comment(rest, text);
    }
}

proof fn lemma_trim_end_keeps_first(s: Seq<char>)
    requires
        s.len() > 0,
        !white_space(s[0]),
    ensures
        trim_end(s).len() > 0,
        trim_end(s)[0] == s[0],
    decreases s.len(),
{
    if white_space(s.last()) {
        lemma_trim_end_keeps_first(s.drop_last());
    }
}

/// What does not occur in a text does not occur in its trimmed form.
proof fn lemma_trimmed_within(s: Seq<char>, c: char)
    requires
        !s.contains(c),
    ensures
        !trimmed(s).contains(c),
        position(trimmed(s), c) >= trimmed(s).len(),
{
    law_trimming_leaves_white_space(s);
    let (lead, tail) = choose|lead: Seq<char>, tail: Seq<char>|
        #![trigger all_white(lead), all_white(tail)]
        all_white(lead) && all_white(tail) && s == lead + trimmed(s) + tail;
    let t = trimmed(s);
    assert forall|i: int| 0 <= i < t.len() implies t[i] != c by {
        assert(t[i] == s[lead.len() + i]);
        assert(s.contains(s[lead.len() + i]));
    }
    lemma_position(t, c);
}

/// Line endings do not matter: a file whose lines end in a carriage return and a line feed says
/// the same as one whose lines end in a line feed.
pub proof fn law_line_endings_do_not_matter(text: Seq<char>, key: Seq<char>)
    ensures
        config_value(with_crlf(text), key) == config_value(text, key),
    decreases text.len(),
{
    let n = position(text, '\n') as int;
    lemma_first_line(text);
    if n < text.len() {
        let line = text.take(n);
        let rest = text.skip(n + 1);
        let ended = seq!['\n'] + rest;
        assert(text == line + ended);
        assert(ended.drop_first() == rest);
        lemma_crlf_after_line(line, ended);
        assert(with_crlf(text) == line.push('\r').push('\n') + with_crlf(rest));
        assert(!line.push('\r').contains('\n'));
        law_line_endings_do_not_matter(rest, key);
        lemma_value_after_line(line.push('\r'), with_crlf(rest), key);
        lemma_value_after_line(line, rest, key);
        lemma_trimmed_chomped(line.push('\r'));
        assert(chomped(line.push('\r')) == line);
    } else {
        let none = Seq::<char>::empty();
        lemma_crlf_after_line(text, none);
        assert(text + none == text);
    }
}

} // verus!
